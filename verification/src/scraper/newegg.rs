use vstd::prelude::*;

use crate::error::NotifyError;
use crate::pattern::{
    ci_iw_captures1, collect_somes, regex_capture1, regex_ci_iw_captures1, regex_first_capture,
    somes,
};
use crate::scraper::{outcome_view, AdapterStepView, ClassifyStep};
use crate::target::{ScrapingTarget, TargetView};
use crate::text::{contains_seq, contains_substring, str_eq};

verus! {

/// The bot-challenge text: its presence means the request was throttled,
/// whatever the stock state.
pub open spec fn newegg_bot_marker() -> Seq<char> {
    "We apologize for the confusion, but we can't quite tell if you're a person or a script."@
}

/// The pattern capturing the script URL that loads the raw product data.
pub open spec fn newegg_detail_pattern() -> Seq<char> {
    "<script type=\"text/javascript\" src=\"(.+ItemInfo4.+)\">"@
}

/// The pattern capturing each "instock" property value in the page data.
pub open spec fn newegg_instock_pattern() -> Seq<char> {
    "\"instock\":([a-zA-Z]+)"@
}

/// The pattern capturing each "sellername" property value in the page data.
pub open spec fn newegg_sellername_pattern() -> Seq<char> {
    "\"sellername\":\"?([a-zA-Z0-9]+)\"?"@
}

/// Whether the page data carries a first-party in-stock flag: pairing the
/// seller names with the in-stock values (the first in-stock value
/// skipped), some pair reads `null` / `true`.
pub open spec fn spec_has_stock(page_data: Seq<char>) -> bool {
    let sellers = somes(ci_iw_captures1(newegg_sellername_pattern(), page_data));
    let stocks = somes(ci_iw_captures1(newegg_instock_pattern(), page_data));
    exists|i: int|
        0 <= i < sellers.len() && i + 1 < stocks.len() && sellers[i] == "null"@ && stocks[i + 1]
            == "true"@
}

/// What classifying the primary page body yields: throttled, in stock,
/// a detail URL still to fetch, or not found.
pub open spec fn spec_newegg_handle(body: Seq<char>, t: TargetView) -> AdapterStepView {
    if contains_seq(body, newegg_bot_marker()) {
        AdapterStepView::Done(Err(NotifyError::RateLimited))
    } else if spec_has_stock(body) {
        AdapterStepView::Done(Ok(t))
    } else {
        match regex_capture1(newegg_detail_pattern(), body) {
            Some(u) => AdapterStepView::NeedDetail(u),
            None => AdapterStepView::Done(Err(NotifyError::NotFound)),
        }
    }
}

/// The outcome once the detail URL's body is in hand; `None` means that
/// fetch itself failed.
pub open spec fn spec_newegg_detail(detail_body: Option<Seq<char>>, t: TargetView) -> Result<
    TargetView,
    NotifyError,
> {
    match detail_body {
        None => Err(NotifyError::NetworkFailure),
        Some(d) => if spec_has_stock(d) {
            Ok(t)
        } else {
            Err(NotifyError::NotFound)
        },
    }
}

/// Whether the page data carries a first-party in-stock flag; see
/// [`spec_has_stock`].
pub fn has_stock(page_data: &str) -> (r: bool)
    ensures
        r == spec_has_stock(page_data@),
{
    let sellers_raw = regex_ci_iw_captures1("\"sellername\":\"?([a-zA-Z0-9]+)\"?", page_data);
    let sellers = collect_somes(&sellers_raw);
    let stocks_raw = regex_ci_iw_captures1("\"instock\":([a-zA-Z]+)", page_data);
    let stocks = collect_somes(&stocks_raw);
    let mut i: usize = 0;
    while i < sellers.len() && i + 1 < stocks.len()
        invariant
            i <= sellers.len(),
            sellers.deep_view() == somes(
                ci_iw_captures1(newegg_sellername_pattern(), page_data@),
            ),
            stocks.deep_view() == somes(ci_iw_captures1(newegg_instock_pattern(), page_data@)),
            forall|j: int|
                0 <= j < i ==> !(sellers.deep_view()[j] == "null"@ && stocks.deep_view()[j + 1]
                    == "true"@),
        decreases sellers.len() - i,
    {
        if str_eq(sellers[i].as_str(), "null") && str_eq(stocks[i + 1].as_str(), "true") {
            proof {
                let sellers_spec = somes(ci_iw_captures1(newegg_sellername_pattern(), page_data@));
                let stocks_spec = somes(ci_iw_captures1(newegg_instock_pattern(), page_data@));
                assert(sellers_spec[i as int] == sellers@[i as int]@);
                assert(stocks_spec[i + 1] == stocks@[i + 1]@);
                assert(0 <= i < sellers_spec.len() && i + 1 < stocks_spec.len()
                    && sellers_spec[i as int] == "null"@ && stocks_spec[i + 1] == "true"@);
            }
            return true;
        }
        i += 1;
    }
    proof {
        assert(!spec_has_stock(page_data@)) by {
            if spec_has_stock(page_data@) {
                let j = choose|j: int|
                    0 <= j < sellers.deep_view().len() && j + 1 < stocks.deep_view().len()
                        && sellers.deep_view()[j] == "null"@ && stocks.deep_view()[j + 1]
                        == "true"@;
                assert(0 <= j < i);
            }
        }
    }
    false
}

pub struct NeweggScraper;

impl NeweggScraper {
    /// Classify a fetched page body for a "newegg" target; the result may
    /// ask for the linked detail page before deciding.
    pub fn handle_response(&self, body: &str, product: &ScrapingTarget) -> (r: ClassifyStep)
        ensures
            r@ == spec_newegg_handle(body@, product@),
    {
        if contains_substring(
            body,
            "We apologize for the confusion, but we can't quite tell if you're a person or a script.",
        ) {
            return ClassifyStep::Done(Err(NotifyError::RateLimited));
        }
        if has_stock(body) {
            return ClassifyStep::Done(Ok(product.clone()));
        }
        match regex_first_capture("<script type=\"text/javascript\" src=\"(.+ItemInfo4.+)\">", body) {
            Some(u) => ClassifyStep::NeedDetail(u),
            None => ClassifyStep::Done(Err(NotifyError::NotFound)),
        }
    }

    /// Decide from the detail page's body (or its fetch failure) whether
    /// the target is in stock.
    pub fn handle_detail_response(&self, detail_body: Option<&str>, product: &ScrapingTarget) -> (r:
        Result<ScrapingTarget, NotifyError>)
        ensures
            outcome_view(r) == spec_newegg_detail(
                match detail_body {
                    Some(d) => Some(d@),
                    None => None,
                },
                product@,
            ),
    {
        match detail_body {
            None => Err(NotifyError::NetworkFailure),
            Some(d) => {
                if has_stock(d) {
                    Ok(product.clone())
                } else {
                    Err(NotifyError::NotFound)
                }
            },
        }
    }
}

} // verus!
