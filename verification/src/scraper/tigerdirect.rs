use vstd::prelude::*;

use crate::error::NotifyError;
use crate::scraper::outcome_view;
use crate::target::{ScrapingTarget, TargetView};
use crate::text::{contains_seq, contains_substring};

verus! {

/// The marker whose presence means the product page reports "out of stock".
pub open spec fn tigerdirect_out_of_stock_marker() -> Seq<char> {
    "<h2 class=\"outofStock\">Currently Out Of Stock!</h2>"@
}

/// A body is available exactly when the out-of-stock marker is absent.
pub open spec fn tigerdirect_available(body: Seq<char>) -> bool {
    !contains_seq(body, tigerdirect_out_of_stock_marker())
}

pub open spec fn spec_tigerdirect_handle(body: Seq<char>, t: TargetView) -> Result<
    TargetView,
    NotifyError,
> {
    if tigerdirect_available(body) {
        Ok(t)
    } else {
        Err(NotifyError::NotFound)
    }
}

pub struct TigerDirectScraper;

impl TigerDirectScraper {
    /// Classify a fetched page body for a "tigerdirect" target.
    pub fn handle_response(&self, body: &str, product: &ScrapingTarget) -> (r: Result<
        ScrapingTarget,
        NotifyError,
    >)
        ensures
            outcome_view(r) == spec_tigerdirect_handle(body@, product@),
    {
        if !contains_substring(body, "<h2 class=\"outofStock\">Currently Out Of Stock!</h2>") {
            Ok(product.clone())
        } else {
            Err(NotifyError::NotFound)
        }
    }
}

} // verus!
