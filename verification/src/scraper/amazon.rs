use vstd::prelude::*;

use crate::error::NotifyError;
use crate::pattern::{ci_regex_match, regex_ci_is_match};
use crate::scraper::outcome_view;
use crate::target::{ScrapingTarget, TargetView};
use crate::text::{contains_seq, contains_substring};

verus! {

/// The bot-challenge text: its presence means the request was throttled,
/// whatever the stock state.
pub open spec fn amazon_captcha_marker() -> Seq<char> {
    "<p class=\"a-last\">Sorry, we just need to make sure you're not a robot. For best results, please make sure your browser is accepting cookies.</p>"@
}

/// The case-insensitive pattern for the "currently unavailable" price box.
pub open spec fn amazon_unavailable_pattern() -> Seq<char> {
    "<span class=\"a-size-medium a-color-price\">\\s+Currently unavailable.\\s+</span>"@
}

/// The case-insensitive pattern for the "available from these sellers"
/// notice, which offers the product only through third-party sellers.
pub open spec fn amazon_other_seller_pattern() -> Seq<char> {
    "Available from .+these sellers</a>"@
}

/// A body is available exactly when neither unavailability signal matches.
pub open spec fn amazon_available(body: Seq<char>) -> bool {
    !ci_regex_match(amazon_unavailable_pattern(), body) && !ci_regex_match(
        amazon_other_seller_pattern(),
        body,
    )
}

pub open spec fn spec_amazon_handle(body: Seq<char>, t: TargetView) -> Result<
    TargetView,
    NotifyError,
> {
    if contains_seq(body, amazon_captcha_marker()) {
        Err(NotifyError::RateLimited)
    } else if amazon_available(body) {
        Ok(t)
    } else {
        Err(NotifyError::NotFound)
    }
}

pub struct AmazonScraper;

impl AmazonScraper {
    /// Classify a fetched page body for an "amazon" target.
    pub fn handle_response(&self, body: &str, product: &ScrapingTarget) -> (r: Result<
        ScrapingTarget,
        NotifyError,
    >)
        ensures
            outcome_view(r) == spec_amazon_handle(body@, product@),
    {
        if contains_substring(
            body,
            "<p class=\"a-last\">Sorry, we just need to make sure you're not a robot. For best results, please make sure your browser is accepting cookies.</p>",
        ) {
            return Err(NotifyError::RateLimited);
        }
        if !regex_ci_is_match(
            "<span class=\"a-size-medium a-color-price\">\\s+Currently unavailable.\\s+</span>",
            body,
        ) && !regex_ci_is_match("Available from .+these sellers</a>", body) {
            return Ok(product.clone());
        }
        Err(NotifyError::NotFound)
    }
}

} // verus!
