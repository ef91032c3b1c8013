use vstd::prelude::*;

use crate::error::NotifyError;
use crate::scraper::{default_handle_response, outcome_view, spec_absence_handle};
use crate::target::{ScrapingTarget, TargetView};

verus! {

/// The case-insensitive pattern for the "sold out" button.
pub open spec fn bestbuy_sold_out_pattern() -> Seq<char> {
    "Sold Out</button>"@
}

pub open spec fn spec_bestbuy_handle(body: Seq<char>, t: TargetView) -> Result<
    TargetView,
    NotifyError,
> {
    spec_absence_handle(Some(bestbuy_sold_out_pattern()), body, t)
}

pub struct BestBuyScraper;

impl BestBuyScraper {
    /// The single pattern whose absence from a body means "available".
    pub fn absent_pattern(&self) -> (r: Option<&'static str>)
        ensures
            r matches Some(p) && p@ == bestbuy_sold_out_pattern(),
    {
        Some("Sold Out</button>")
    }

    /// Classify a fetched page body for a "bestbuy" target.
    pub fn handle_response(&self, body: &str, product: &ScrapingTarget) -> (r: Result<
        ScrapingTarget,
        NotifyError,
    >)
        ensures
            outcome_view(r) == spec_bestbuy_handle(body@, product@),
    {
        default_handle_response(self.absent_pattern(), body, product)
    }
}

} // verus!
