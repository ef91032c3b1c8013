use vstd::prelude::*;

use crate::error::NotifyError;
use crate::pattern::ci_regex_match;
use crate::target::{ScrapingTarget, TargetView};
use crate::text::str_eq;

pub mod amazon;
pub mod amd;
pub mod antonline;
pub mod bestbuy;
pub mod bnh;
pub mod newegg;
pub mod tigerdirect;

verus! {

/// The abstract value of a per-target outcome: the target's view on
/// success, the classification error otherwise.
pub open spec fn outcome_view(r: Result<ScrapingTarget, NotifyError>) -> Result<
    TargetView,
    NotifyError,
> {
    match r {
        Ok(t) => Ok(t@),
        Err(e) => Err(e),
    }
}

/// The abstract value of a [`ClassifyStep`].
pub ghost enum AdapterStepView {
    Done(Result<TargetView, NotifyError>),
    NeedDetail(Seq<char>),
}

/// What classifying one fetched page yields: either a final outcome, or a
/// further detail URL whose body the adapter needs before it can decide.
pub enum ClassifyStep {
    Done(Result<ScrapingTarget, NotifyError>),
    NeedDetail(String),
}

impl View for ClassifyStep {
    type V = AdapterStepView;

    open spec fn view(&self) -> AdapterStepView {
        match self {
            ClassifyStep::Done(r) => AdapterStepView::Done(outcome_view(*r)),
            ClassifyStep::NeedDetail(u) => AdapterStepView::NeedDetail(u@),
        }
    }
}

/// The view of an optional pattern string.
pub open spec fn opt_str_view(o: Option<&str>) -> Option<Seq<char>> {
    match o {
        Some(p) => Some(p@),
        None => None,
    }
}

/// The pattern-absence strategy: with no configured pattern the adapter is
/// misconfigured; otherwise the target is available exactly when the
/// pattern does not match the body.
pub open spec fn spec_absence_handle(
    pattern: Option<Seq<char>>,
    body: Seq<char>,
    t: TargetView,
) -> Result<TargetView, NotifyError> {
    match pattern {
        None => Err(NotifyError::MisconfiguredAdapter),
        Some(p) => if !ci_regex_match(p, body) {
            Ok(t)
        } else {
            Err(NotifyError::NotFound)
        },
    }
}

/// Default response handler shared by the adapters that detect
/// unavailability through a single "sold out" pattern.
pub fn default_handle_response(
    absent_pattern: Option<&str>,
    body: &str,
    product: &ScrapingTarget,
) -> (r: Result<ScrapingTarget, NotifyError>)
    ensures
        outcome_view(r) == spec_absence_handle(opt_str_view(absent_pattern), body@, product@),
{
    match absent_pattern {
        Some(p) => {
            if !crate::pattern::regex_ci_is_match(p, body) {
                Ok(product.clone())
            } else {
                Err(NotifyError::NotFound)
            }
        },
        None => Err(NotifyError::MisconfiguredAdapter),
    }
}

/// The fixed set of retailer keys an adapter handles; any other key
/// classifies as an unknown target without a network call.
pub open spec fn spec_supported_key(key: Seq<char>) -> bool {
    ||| key == "newegg"@
    ||| key == "amazon"@
    ||| key == "bestbuy"@
    ||| key == "bnh"@
    ||| key == "antonline"@
    ||| key == "amd"@
}

/// Whether some adapter handles `key`; see [`spec_supported_key`].
pub fn supported_key(key: &str) -> (r: bool)
    ensures
        r == spec_supported_key(key@),
{
    str_eq(key, "newegg") || str_eq(key, "amazon") || str_eq(key, "bestbuy") || str_eq(key, "bnh")
        || str_eq(key, "antonline") || str_eq(key, "amd")
}

/// Adapter dispatch on the target's key: what classifying the fetched page
/// body yields, or an unknown-target error for a key no adapter handles.
pub open spec fn spec_handle_body(t: TargetView, body: Seq<char>) -> AdapterStepView {
    if t.key == "newegg"@ {
        newegg::spec_newegg_handle(body, t)
    } else if t.key == "amazon"@ {
        AdapterStepView::Done(amazon::spec_amazon_handle(body, t))
    } else if t.key == "bestbuy"@ {
        AdapterStepView::Done(bestbuy::spec_bestbuy_handle(body, t))
    } else if t.key == "bnh"@ {
        AdapterStepView::Done(bnh::spec_bnh_handle(body, t))
    } else if t.key == "antonline"@ {
        AdapterStepView::Done(antonline::spec_antonline_handle(body, t))
    } else if t.key == "amd"@ {
        AdapterStepView::Done(amd::spec_amd_handle(body, t))
    } else {
        AdapterStepView::Done(Err(NotifyError::UnknownTarget))
    }
}

/// Hand the fetched page body to the adapter selected by the target's key.
pub fn handle_body(product: &ScrapingTarget, body: &str) -> (r: ClassifyStep)
    ensures
        r@ == spec_handle_body(product@, body@),
{
    let key = product.key.as_str();
    if str_eq(key, "newegg") {
        newegg::NeweggScraper.handle_response(body, product)
    } else if str_eq(key, "amazon") {
        ClassifyStep::Done(amazon::AmazonScraper.handle_response(body, product))
    } else if str_eq(key, "bestbuy") {
        ClassifyStep::Done(bestbuy::BestBuyScraper.handle_response(body, product))
    } else if str_eq(key, "bnh") {
        ClassifyStep::Done(bnh::BnHScraper.handle_response(body, product))
    } else if str_eq(key, "antonline") {
        ClassifyStep::Done(antonline::AntScraper.handle_response(body, product))
    } else if str_eq(key, "amd") {
        ClassifyStep::Done(amd::AmdScraper.handle_response(body, product))
    } else {
        ClassifyStep::Done(Err(NotifyError::UnknownTarget))
    }
}

/// The adapter's unavailability evidence in a body: the "sold out" marker
/// for the marker-absence adapters, a matching unavailability pattern for
/// amazon, the missing in-stock flags for bnh, and — for newegg — neither
/// an in-stock flag nor a detail URL still to follow.
pub open spec fn spec_unavailability_signal(key: Seq<char>, body: Seq<char>) -> bool {
    if key == "newegg"@ {
        !newegg::spec_has_stock(body) && crate::pattern::regex_capture1(
            newegg::newegg_detail_pattern(),
            body,
        ) is None
    } else if key == "amazon"@ {
        ci_regex_match(amazon::amazon_unavailable_pattern(), body) || ci_regex_match(
            amazon::amazon_other_seller_pattern(),
            body,
        )
    } else if key == "bestbuy"@ {
        ci_regex_match(bestbuy::bestbuy_sold_out_pattern(), body)
    } else if key == "bnh"@ {
        !bnh::bnh_available(body)
    } else if key == "antonline"@ {
        ci_regex_match(antonline::antonline_sold_out_pattern(), body)
    } else if key == "amd"@ {
        crate::text::contains_seq(body, amd::amd_out_of_stock_marker())
    } else {
        false
    }
}

/// The adapter's bot-challenge evidence in a body, which throttles the
/// target whatever the stock state; only amazon and newegg carry one.
pub open spec fn spec_throttle_signal(key: Seq<char>, body: Seq<char>) -> bool {
    if key == "newegg"@ {
        crate::text::contains_seq(body, newegg::newegg_bot_marker())
    } else if key == "amazon"@ {
        crate::text::contains_seq(body, amazon::amazon_captcha_marker())
    } else {
        false
    }
}

/// A body carrying the adapter's unavailability evidence and no
/// bot-challenge signal classifies as not found — never as available.
pub proof fn lemma_sold_out_marker_yields_not_found(t: TargetView, body: Seq<char>)
    requires
        spec_supported_key(t.key),
        spec_unavailability_signal(t.key, body),
        !spec_throttle_signal(t.key, body),
    ensures
        spec_handle_body(t, body) == AdapterStepView::Done(
            Err::<TargetView, NotifyError>(NotifyError::NotFound),
        ),
{
}

/// For every adapter that decides from the primary page alone, a body
/// without the adapter's unavailability evidence and without a
/// bot-challenge signal classifies as available: the open-world default.
/// (Newegg is excluded: its custom strategy may first follow the linked
/// detail page.)
pub proof fn lemma_no_marker_yields_available(t: TargetView, body: Seq<char>)
    requires
        t.key == "amazon"@ || t.key == "bestbuy"@ || t.key == "bnh"@ || t.key == "antonline"@
            || t.key == "amd"@,
        !spec_unavailability_signal(t.key, body),
        !spec_throttle_signal(t.key, body),
    ensures
        spec_handle_body(t, body) == AdapterStepView::Done(
            Ok::<TargetView, NotifyError>(t),
        ),
{
    reveal_strlit("newegg");
    reveal_strlit("amazon");
    reveal_strlit("bestbuy");
    reveal_strlit("bnh");
    reveal_strlit("antonline");
    reveal_strlit("amd");
    assert("amazon"@ != "newegg"@) by {
        assert("amazon"@[0] == 'a' && "newegg"@[0] == 'n');
    }
    assert("bestbuy"@ != "newegg"@ && "bestbuy"@ != "amazon"@) by {
        assert("bestbuy"@.len() == 7 && "newegg"@.len() == 6 && "amazon"@.len() == 6);
    }
    assert("bnh"@ != "newegg"@ && "bnh"@ != "amazon"@ && "bnh"@ != "bestbuy"@) by {
        assert("bnh"@.len() == 3 && "newegg"@.len() == 6 && "amazon"@.len() == 6
            && "bestbuy"@.len() == 7);
    }
    assert("antonline"@ != "newegg"@ && "antonline"@ != "amazon"@ && "antonline"@ != "bestbuy"@
        && "antonline"@ != "bnh"@) by {
        assert("antonline"@.len() == 9 && "newegg"@.len() == 6 && "amazon"@.len() == 6
            && "bestbuy"@.len() == 7 && "bnh"@.len() == 3);
    }
    assert("amd"@ != "newegg"@ && "amd"@ != "amazon"@ && "amd"@ != "bestbuy"@ && "amd"@
        != "antonline"@) by {
        assert("amd"@.len() == 3 && "newegg"@.len() == 6 && "amazon"@.len() == 6 && "bestbuy"@.len()
            == 7 && "antonline"@.len() == 9);
    }
    assert("amd"@ != "bnh"@) by {
        assert("amd"@[0] == 'a' && "bnh"@[0] == 'b');
    }
}

} // verus!
