use vstd::prelude::*;

use crate::error::NotifyError;
use crate::scraper::outcome_view;
use crate::target::{ScrapingTarget, TargetView};
use crate::text::{contains_seq, contains_substring};

verus! {

/// Structured flag present when the page no longer offers a "notify when
/// available" signup — the first half of the in-stock signal.
pub open spec fn bnh_notify_available_marker() -> Seq<char> {
    "showNotifyWhenAvailable\":false"@
}

/// Structured flag present when the page no longer offers a "notify when
/// in stock" signup — the second half of the in-stock signal.
pub open spec fn bnh_notify_in_stock_marker() -> Seq<char> {
    "showNotifyWhenInStock\":false"@
}

/// A body signals availability only when both structured flags are present.
pub open spec fn bnh_available(body: Seq<char>) -> bool {
    contains_seq(body, bnh_notify_available_marker()) && contains_seq(
        body,
        bnh_notify_in_stock_marker(),
    )
}

pub open spec fn spec_bnh_handle(body: Seq<char>, t: TargetView) -> Result<
    TargetView,
    NotifyError,
> {
    if bnh_available(body) {
        Ok(t)
    } else {
        Err(NotifyError::NotFound)
    }
}

pub struct BnHScraper;

impl BnHScraper {
    /// Classify a fetched page body for a "bnh" target.
    pub fn handle_response(&self, body: &str, product: &ScrapingTarget) -> (r: Result<
        ScrapingTarget,
        NotifyError,
    >)
        ensures
            outcome_view(r) == spec_bnh_handle(body@, product@),
    {
        if contains_substring(body, "showNotifyWhenAvailable\":false") && contains_substring(
            body,
            "showNotifyWhenInStock\":false",
        ) {
            Ok(product.clone())
        } else {
            Err(NotifyError::NotFound)
        }
    }
}

} // verus!
