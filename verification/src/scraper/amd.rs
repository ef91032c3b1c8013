use vstd::prelude::*;

use crate::error::NotifyError;
use crate::scraper::outcome_view;
use crate::target::{ScrapingTarget, TargetView};
use crate::text::{contains_seq, contains_substring};

verus! {

/// The marker whose presence means the product page reports "out of stock".
pub open spec fn amd_out_of_stock_marker() -> Seq<char> {
    "<p class=\"product-out-of-stock\">Out of stock</p>"@
}

/// A body is available exactly when the out-of-stock marker is absent.
pub open spec fn amd_available(body: Seq<char>) -> bool {
    !contains_seq(body, amd_out_of_stock_marker())
}

pub open spec fn spec_amd_handle(body: Seq<char>, t: TargetView) -> Result<
    TargetView,
    NotifyError,
> {
    if amd_available(body) {
        Ok(t)
    } else {
        Err(NotifyError::NotFound)
    }
}

pub struct AmdScraper;

impl AmdScraper {
    /// Classify a fetched page body for an "amd" target.
    pub fn handle_response(&self, body: &str, product: &ScrapingTarget) -> (r: Result<
        ScrapingTarget,
        NotifyError,
    >)
        ensures
            outcome_view(r) == spec_amd_handle(body@, product@),
    {
        if !contains_substring(body, "<p class=\"product-out-of-stock\">Out of stock</p>") {
            Ok(product.clone())
        } else {
            Err(NotifyError::NotFound)
        }
    }
}

} // verus!
