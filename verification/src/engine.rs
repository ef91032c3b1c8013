use vstd::prelude::*;

use crate::checked::{modify_checked_map, spec_modify_checked, CheckedInfo, CheckedMap};
use crate::error::NotifyError;
use crate::ratelimit::{
    spec_is_limited, RateLimitStore, RATE_LIMIT_COOLDOWN_SECONDS,
};
use crate::scraper::newegg::{spec_newegg_detail, NeweggScraper};
use crate::scraper::{
    handle_body, outcome_view, spec_handle_body, spec_supported_key, supported_key,
    AdapterStepView, ClassifyStep,
};
use crate::target::{spec_is_active, ScrapingTarget, TargetView};
use crate::text::str_eq;

verus! {

/// The error-redirect address a blocked "bnh" request lands on; reaching
/// it counts as being rate-limited whatever the status code says.
pub open spec fn bnh_blocked_url() -> Seq<char> {
    "https://site-not-available.bhphotovideo.com/500Error"@
}

/// The abstract value of a [`FetchedPage`].
#[verifier::ext_equal]
pub ghost struct FetchedPageView {
    pub status: u16,
    pub final_url: Seq<char>,
    pub body: Seq<char>,
    pub detail_body: Option<Seq<char>>,
}

/// What one target's HTTP fetch produced: the status code, the URL the
/// request finally landed on after redirects, the body text, and — for an
/// adapter that asks for a linked detail page — that second body, `None`
/// when the second fetch failed.
pub struct FetchedPage {
    pub status: u16,
    pub final_url: String,
    pub body: String,
    pub detail_body: Option<String>,
}

impl View for FetchedPage {
    type V = FetchedPageView;

    open spec fn view(&self) -> FetchedPageView {
        FetchedPageView {
            status: self.status,
            final_url: self.final_url@,
            body: self.body@,
            detail_body: match self.detail_body {
                Some(d) => Some(d@),
                None => None,
            },
        }
    }
}

/// The abstract value of a [`FetchResult`].
pub ghost enum FetchResultView {
    TransportFailed,
    Fetched(FetchedPageView),
}

/// One target's transport outcome: the request itself failed, or a
/// response came back.
pub enum FetchResult {
    TransportFailed,
    Fetched(FetchedPage),
}

impl View for FetchResult {
    type V = FetchResultView;

    open spec fn view(&self) -> FetchResultView {
        match self {
            FetchResult::TransportFailed => FetchResultView::TransportFailed,
            FetchResult::Fetched(p) => FetchResultView::Fetched(p@),
        }
    }
}

/// Pre-classification on the HTTP status, applied before the adapter sees
/// the body: 429 or the blocked-"bnh" redirect mean rate-limited, 5xx a
/// transient server error, other 4xx a transient client error, any other
/// non-2xx a bad status; a 2xx response goes on to the adapter.
pub open spec fn spec_classify_status(key: Seq<char>, status: u16, final_url: Seq<char>) -> Option<
    NotifyError,
> {
    if status == 429 || (key == "bnh"@ && final_url == bnh_blocked_url()) {
        Some(NotifyError::RateLimited)
    } else if 500 <= status <= 599 {
        Some(NotifyError::TransientServerError(status))
    } else if 400 <= status <= 499 {
        Some(NotifyError::TransientClientError(status))
    } else if !(200 <= status <= 299) {
        Some(NotifyError::BadStatus(status))
    } else {
        None
    }
}

/// Classify the HTTP status before the adapter sees the body; see
/// [`spec_classify_status`].
pub fn classify_status(key: &str, status: u16, final_url: &str) -> (r: Option<NotifyError>)
    ensures
        r == spec_classify_status(key@, status, final_url@),
{
    if status == 429 || (str_eq(key, "bnh") && str_eq(
        final_url,
        "https://site-not-available.bhphotovideo.com/500Error",
    )) {
        Some(NotifyError::RateLimited)
    } else if 500 <= status && status <= 599 {
        Some(NotifyError::TransientServerError(status))
    } else if 400 <= status && status <= 499 {
        Some(NotifyError::TransientClientError(status))
    } else if !(200 <= status && status <= 299) {
        Some(NotifyError::BadStatus(status))
    } else {
        None
    }
}

/// The outcome one target contributes to the cycle, as a function of its
/// transport result: unknown keys classify without any fetch; a transport
/// failure is a network failure; otherwise the status is pre-classified
/// and a 2xx body goes to the adapter, following the detail page where the
/// adapter asks for one.
pub open spec fn spec_classify_fetch(t: TargetView, f: FetchResultView) -> Result<
    TargetView,
    NotifyError,
> {
    if !spec_supported_key(t.key) {
        Err(NotifyError::UnknownTarget)
    } else {
        match f {
            FetchResultView::TransportFailed => Err(NotifyError::NetworkFailure),
            FetchResultView::Fetched(p) => match spec_classify_status(t.key, p.status, p.final_url) {
                Some(e) => Err(e),
                None => match spec_handle_body(t, p.body) {
                    AdapterStepView::Done(r) => r,
                    AdapterStepView::NeedDetail(_) => spec_newegg_detail(p.detail_body, t),
                },
            },
        }
    }
}

/// Classify one target's transport result into its outcome for the cycle;
/// see [`spec_classify_fetch`].
pub fn classify_fetch(product: &ScrapingTarget, fetch: &FetchResult) -> (r: Result<
    ScrapingTarget,
    NotifyError,
>)
    ensures
        outcome_view(r) == spec_classify_fetch(product@, fetch@),
{
    if !supported_key(product.key.as_str()) {
        return Err(NotifyError::UnknownTarget);
    }
    match fetch {
        FetchResult::TransportFailed => Err(NotifyError::NetworkFailure),
        FetchResult::Fetched(p) => {
            match classify_status(product.key.as_str(), p.status, p.final_url.as_str()) {
                Some(e) => Err(e),
                None => match handle_body(product, p.body.as_str()) {
                    ClassifyStep::Done(r) => r,
                    ClassifyStep::NeedDetail(_) => NeweggScraper.handle_detail_response(
                        match &p.detail_body {
                            Some(d) => Some(d.as_str()),
                            None => None,
                        },
                        product,
                    ),
                },
            }
        },
    }
}

/// The views of a sequence of targets.
pub open spec fn target_views(s: Seq<ScrapingTarget>) -> Seq<TargetView> {
    s.map_values(|t: ScrapingTarget| t@)
}

/// The views of a sequence of per-target outcomes.
pub open spec fn outcome_views(s: Seq<Result<ScrapingTarget, NotifyError>>) -> Seq<
    Result<TargetView, NotifyError>,
> {
    s.map_values(|r: Result<ScrapingTarget, NotifyError>| outcome_view(r))
}

/// The abstract value of a [`CycleResult`].
#[verifier::ext_equal]
pub ghost struct CycleResultView {
    pub restocked: Seq<TargetView>,
    pub rate_limit_updates: Map<Seq<char>, int>,
    pub should_reload_proxy: bool,
    pub checked: Map<Seq<char>, CheckedInfo>,
    pub test_targets_not_found: Seq<TargetView>,
    pub duplicate_notices: int,
}

/// What one full poll returns: the unique targets now available (test
/// targets excluded), the rate-limit entries to merge into the store, the
/// proxy-reload signal, the per-key diagnostic tally, the test targets
/// that unexpectedly came back "not found", and how many duplicate
/// restocks were collapsed.
pub struct CycleResult {
    pub restocked: Vec<ScrapingTarget>,
    pub rate_limit_updates: RateLimitStore,
    pub should_reload_proxy: bool,
    pub checked: CheckedMap,
    pub test_targets_not_found: Vec<ScrapingTarget>,
    pub duplicate_notices: usize,
}

impl View for CycleResult {
    type V = CycleResultView;

    open spec fn view(&self) -> CycleResultView {
        CycleResultView {
            restocked: self.restocked.deep_view(),
            rate_limit_updates: self.rate_limit_updates@,
            should_reload_proxy: self.should_reload_proxy,
            checked: self.checked@,
            test_targets_not_found: self.test_targets_not_found.deep_view(),
            duplicate_notices: self.duplicate_notices as int,
        }
    }
}

impl CycleResult {
    /// The two internal maps hold each key at most once.
    pub open spec fn wf(&self) -> bool {
        self.rate_limit_updates.wf() && self.checked.wf()
    }
}

/// The result of a cycle that polled nothing.
pub open spec fn spec_cycle_empty() -> CycleResultView {
    CycleResultView {
        restocked: Seq::empty(),
        rate_limit_updates: Map::empty(),
        should_reload_proxy: false,
        checked: Map::empty(),
        test_targets_not_found: Seq::empty(),
        duplicate_notices: 0,
    }
}

/// How one target's outcome changes the running cycle result.
///
/// An available target joins the diagnostic tally and, unless it is a test
/// target, the restocked set — where an entry equal field-for-field
/// already stands, only the duplicate notice count grows. A not-found
/// target joins the tally, and a not-found *test* target is flagged as an
/// adapter-bug signal. A rate-limited target sets the proxy-reload signal
/// and writes its cool-down entry. Every other outcome is dropped.
pub open spec fn spec_aggregate_step(
    acc: CycleResultView,
    t: TargetView,
    o: Result<TargetView, NotifyError>,
    now: int,
) -> CycleResultView {
    match o {
        Ok(res) => {
            let tallied = CycleResultView {
                checked: spec_modify_checked(acc.checked, t.key, t.name),
                restocked: acc.restocked,
                rate_limit_updates: acc.rate_limit_updates,
                should_reload_proxy: acc.should_reload_proxy,
                test_targets_not_found: acc.test_targets_not_found,
                duplicate_notices: acc.duplicate_notices,
            };
            if res.is_test == Some(true) {
                tallied
            } else if tallied.restocked.contains(res) {
                CycleResultView {
                    duplicate_notices: tallied.duplicate_notices + 1,
                    restocked: tallied.restocked,
                    rate_limit_updates: tallied.rate_limit_updates,
                    should_reload_proxy: tallied.should_reload_proxy,
                    checked: tallied.checked,
                    test_targets_not_found: tallied.test_targets_not_found,
                }
            } else {
                CycleResultView {
                    restocked: tallied.restocked.push(res),
                    rate_limit_updates: tallied.rate_limit_updates,
                    should_reload_proxy: tallied.should_reload_proxy,
                    checked: tallied.checked,
                    test_targets_not_found: tallied.test_targets_not_found,
                    duplicate_notices: tallied.duplicate_notices,
                }
            }
        },
        Err(NotifyError::RateLimited) => CycleResultView {
            should_reload_proxy: true,
            rate_limit_updates: acc.rate_limit_updates.insert(
                t.key,
                now + RATE_LIMIT_COOLDOWN_SECONDS as int,
            ),
            restocked: acc.restocked,
            checked: acc.checked,
            test_targets_not_found: acc.test_targets_not_found,
            duplicate_notices: acc.duplicate_notices,
        },
        Err(NotifyError::NotFound) => {
            let tallied = CycleResultView {
                checked: spec_modify_checked(acc.checked, t.key, t.name),
                restocked: acc.restocked,
                rate_limit_updates: acc.rate_limit_updates,
                should_reload_proxy: acc.should_reload_proxy,
                test_targets_not_found: acc.test_targets_not_found,
                duplicate_notices: acc.duplicate_notices,
            };
            if t.is_test == Some(true) {
                CycleResultView {
                    test_targets_not_found: tallied.test_targets_not_found.push(t),
                    restocked: tallied.restocked,
                    rate_limit_updates: tallied.rate_limit_updates,
                    should_reload_proxy: tallied.should_reload_proxy,
                    checked: tallied.checked,
                    duplicate_notices: tallied.duplicate_notices,
                }
            } else {
                tallied
            }
        },
        Err(_) => acc,
    }
}

/// The cycle result of aggregating each target's outcome in order,
/// starting from the empty result.
pub open spec fn spec_aggregate(
    ts: Seq<TargetView>,
    os: Seq<Result<TargetView, NotifyError>>,
    now: int,
) -> CycleResultView
    decreases ts.len(),
{
    if ts.len() == 0 {
        spec_cycle_empty()
    } else {
        spec_aggregate_step(
            spec_aggregate(ts.drop_last(), os.drop_last(), now),
            ts.last(),
            os.last(),
            now,
        )
    }
}

/// Whether `v` already holds a target equal field-for-field to `t`.
fn contains_target(v: &Vec<ScrapingTarget>, t: &ScrapingTarget) -> (r: bool)
    ensures
        r == v.deep_view().contains(t@),
{
    let mut i: usize = 0;
    while i < v.len()
        invariant
            i <= v@.len(),
            forall|j: int| 0 <= j < i ==> v.deep_view()[j] != t@,
        decreases v@.len() - i,
    {
        if v[i] == *t {
            proof {
                assert(v.deep_view()[i as int] == t@);
            }
            return true;
        }
        i += 1;
    }
    proof {
        assert(!v.deep_view().contains(t@)) by {
            if v.deep_view().contains(t@) {
                let j = choose|j: int| 0 <= j < v.deep_view().len() && v.deep_view()[j] == t@;
                assert(v.deep_view()[j] != t@);
            }
        }
    }
    false
}

/// Push a clone of `t`, at view level a plain sequence push.
fn push_target(v: &mut Vec<ScrapingTarget>, t: &ScrapingTarget)
    ensures
        final(v).deep_view() == old(v).deep_view().push(t@),
{
    v.push(t.clone());
    proof {
        assert(v.deep_view() =~= old(v).deep_view().push(t@));
    }
}

/// Aggregate the per-target outcomes of one cycle, in order, into the
/// cycle's result; see [`spec_aggregate_step`] for what each outcome
/// contributes.
pub fn aggregate(
    products: &Vec<ScrapingTarget>,
    outcomes: &Vec<Result<ScrapingTarget, NotifyError>>,
    now: i64,
) -> (r: CycleResult)
    requires
        products@.len() == outcomes@.len(),
        now <= i64::MAX - RATE_LIMIT_COOLDOWN_SECONDS,
    ensures
        r.wf(),
        r@ == spec_aggregate(target_views(products@), outcome_views(outcomes@), now as int),
{
    let ghost ts = target_views(products@);
    let ghost os = outcome_views(outcomes@);
    let mut result = CycleResult {
        restocked: Vec::new(),
        rate_limit_updates: RateLimitStore::new(),
        should_reload_proxy: false,
        checked: CheckedMap::new(),
        test_targets_not_found: Vec::new(),
        duplicate_notices: 0,
    };
    proof {
        assert(ts.take(0) =~= Seq::<TargetView>::empty());
        assert(result@ =~= spec_aggregate(ts.take(0), os.take(0), now as int));
    }
    let mut i: usize = 0;
    while i < products.len()
        invariant
            products@.len() == outcomes@.len(),
            ts == target_views(products@),
            os == outcome_views(outcomes@),
            i <= products@.len(),
            now <= i64::MAX - RATE_LIMIT_COOLDOWN_SECONDS,
            result.wf(),
            result@ == spec_aggregate(ts.take(i as int), os.take(i as int), now as int),
            result.duplicate_notices <= i,
            forall|k: Seq<char>|
                result.checked@.dom().contains(k) ==> #[trigger] result.checked@[k].count
                    <= i,
        decreases products@.len() - i,
    {
        let ghost prev = result@;
        let product = &products[i];
        proof {
            assert(ts.take(i + 1).drop_last() =~= ts.take(i as int));
            assert(os.take(i + 1).drop_last() =~= os.take(i as int));
            assert(ts.take(i + 1).last() == products@[i as int]@);
            assert(os.take(i + 1).last() == outcome_view(outcomes@[i as int]));
        }
        match &outcomes[i] {
            Ok(res) => {
                modify_checked_map(product, &mut result.checked);
                if !(res.is_test == Some(true)) {
                    if contains_target(&result.restocked, res) {
                        result.duplicate_notices = result.duplicate_notices + 1;
                    } else {
                        push_target(&mut result.restocked, res);
                    }
                }
            },
            Err(e) => {
                match e {
                    NotifyError::RateLimited => {
                        result.should_reload_proxy = true;
                        result.rate_limit_updates.set_limit(product.key.as_str(), now);
                    },
                    NotifyError::NotFound => {
                        modify_checked_map(product, &mut result.checked);
                        if product.is_test == Some(true) {
                            push_target(&mut result.test_targets_not_found, product);
                        }
                    },
                    _ => {},
                }
            },
        }
        proof {
            assert(result@ =~= spec_aggregate_step(
                prev,
                products@[i as int]@,
                outcome_view(outcomes@[i as int]),
                now as int,
            ));
            assert forall|k: Seq<char>| result.checked@.dom().contains(k) implies #[trigger] result
                .checked@[k].count <= i + 1 by {
                if prev.checked.dom().contains(k) {
                    assert(prev.checked[k].count <= i);
                }
            }
        }
        i += 1;
    }
    proof {
        assert(ts.take(products@.len() as int) =~= ts);
        assert(os.take(outcomes@.len() as int) =~= os);
    }
    result
}

/// A target is polled this cycle exactly when it is active on this
/// cycle's cadence and its key is not inside a cool-down window.
pub open spec fn spec_eligible(
    t: TargetView,
    limits: Map<Seq<char>, int>,
    now: int,
    minute: u8,
    check_tests_every_cycle: bool,
) -> bool {
    spec_is_active(t, minute, check_tests_every_cycle) && !spec_is_limited(limits, t.key, now)
}

/// The eligible targets of a cycle, in their configured order.
pub open spec fn spec_eligible_seq(
    ts: Seq<TargetView>,
    limits: Map<Seq<char>, int>,
    now: int,
    minute: u8,
    check_tests_every_cycle: bool,
) -> Seq<TargetView> {
    ts.filter(|t: TargetView| spec_eligible(t, limits, now, minute, check_tests_every_cycle))
}

/// Keep the targets that this cycle polls: the active ones whose keys are
/// not rate-limited; see [`spec_eligible`].
pub fn eligible_targets(
    targets: &Vec<ScrapingTarget>,
    limits: &RateLimitStore,
    now: i64,
    minute: u8,
    check_tests_every_cycle: bool,
) -> (r: Vec<ScrapingTarget>)
    requires
        limits.wf(),
    ensures
        r.deep_view() == spec_eligible_seq(
            target_views(targets@),
            limits@,
            now as int,
            minute,
            check_tests_every_cycle,
        ),
{
    let mut r: Vec<ScrapingTarget> = Vec::new();
    proof {
        reveal(Seq::filter);
        assert(target_views(targets@.take(0)) =~= Seq::<TargetView>::empty());
        assert(r.deep_view() =~= spec_eligible_seq(
            target_views(targets@.take(0)),
            limits@,
            now as int,
            minute,
            check_tests_every_cycle,
        ));
    }
    let mut i: usize = 0;
    while i < targets.len()
        invariant
            limits.wf(),
            i <= targets@.len(),
            r.deep_view() == spec_eligible_seq(
                target_views(targets@.take(i as int)),
                limits@,
                now as int,
                minute,
                check_tests_every_cycle,
            ),
        decreases targets@.len() - i,
    {
        let ghost prefix = target_views(targets@.take(i as int));
        let ghost with_next = target_views(targets@.take(i + 1));
        proof {
            assert(with_next.drop_last() =~= prefix);
            assert(with_next.last() == targets@[i as int]@);
        }
        let product = &targets[i];
        let ghost before = r.deep_view();
        if product.is_active(minute, check_tests_every_cycle) && !limits.is_limited(
            product.key.as_str(),
            now,
        ) {
            push_target(&mut r, product);
            proof {
                reveal(Seq::filter);
                assert(r.deep_view() =~= spec_eligible_seq(
                    with_next,
                    limits@,
                    now as int,
                    minute,
                    check_tests_every_cycle,
                ));
            }
        } else {
            proof {
                reveal(Seq::filter);
                assert(before =~= spec_eligible_seq(
                    with_next,
                    limits@,
                    now as int,
                    minute,
                    check_tests_every_cycle,
                ));
            }
        }
        i += 1;
    }
    proof {
        assert(targets@.take(targets@.len() as int) =~= targets@);
    }
    r
}

/// The views of a sequence of transport results.
pub open spec fn fetch_views(s: Seq<FetchResult>) -> Seq<FetchResultView> {
    s.map_values(|f: FetchResult| f@)
}

/// The outcome each eligible target contributes, classified from its
/// transport result.
pub open spec fn spec_classified(ts: Seq<TargetView>, fs: Seq<FetchResultView>) -> Seq<
    Result<TargetView, NotifyError>,
> {
    Seq::new(ts.len(), |i: int| spec_classify_fetch(ts[i], fs[i]))
}

/// What one full poll cycle returns, as a function of the configured
/// targets, the rate-limit store, the clock, the cadence switch, and the
/// transport result of each eligible target: the eligible targets are
/// selected, each is classified, and the outcomes are aggregated in
/// order.
pub open spec fn spec_poll(
    ts: Seq<TargetView>,
    limits: Map<Seq<char>, int>,
    now: int,
    minute: u8,
    check_tests_every_cycle: bool,
    fs: Seq<FetchResultView>,
) -> CycleResultView {
    let elig = spec_eligible_seq(ts, limits, now, minute, check_tests_every_cycle);
    spec_aggregate(elig, spec_classified(elig, fs), now)
}

/// One full poll cycle over already-completed transport results:
/// `fetches` holds, in order, the transport result of each eligible
/// target. See [`spec_poll`].
pub fn poll(
    targets: &Vec<ScrapingTarget>,
    limits: &RateLimitStore,
    now: i64,
    minute: u8,
    check_tests_every_cycle: bool,
    fetches: &Vec<FetchResult>,
) -> (r: CycleResult)
    requires
        limits.wf(),
        now <= i64::MAX - RATE_LIMIT_COOLDOWN_SECONDS,
        fetches@.len() == spec_eligible_seq(
            target_views(targets@),
            limits@,
            now as int,
            minute,
            check_tests_every_cycle,
        ).len(),
    ensures
        r.wf(),
        r@ == spec_poll(
            target_views(targets@),
            limits@,
            now as int,
            minute,
            check_tests_every_cycle,
            fetch_views(fetches@),
        ),
{
    let eligible = eligible_targets(targets, limits, now, minute, check_tests_every_cycle);
    let mut outcomes: Vec<Result<ScrapingTarget, NotifyError>> = Vec::new();
    let mut i: usize = 0;
    while i < eligible.len()
        invariant
            eligible.deep_view() == spec_eligible_seq(
                target_views(targets@),
                limits@,
                now as int,
                minute,
                check_tests_every_cycle,
            ),
            fetches@.len() == eligible@.len(),
            i <= eligible@.len(),
            outcomes@.len() == i,
            forall|j: int|
                0 <= j < i ==> outcome_view(#[trigger] outcomes@[j]) == spec_classify_fetch(
                    eligible.deep_view()[j],
                    fetch_views(fetches@)[j],
                ),
        decreases eligible@.len() - i,
    {
        let o = classify_fetch(&eligible[i], &fetches[i]);
        outcomes.push(o);
        i += 1;
    }
    let result = aggregate(&eligible, &outcomes, now);
    proof {
        assert(target_views(eligible@) =~= eligible.deep_view());
        assert(outcome_views(outcomes@) =~= spec_classified(
            eligible.deep_view(),
            fetch_views(fetches@),
        ));
    }
    result
}

/// A successful classification always carries the very target that was
/// classified.
proof fn lemma_classify_ok_is_target(t: TargetView, f: FetchResultView)
    ensures
        forall|x: TargetView|
            spec_classify_fetch(t, f) == Ok::<TargetView, NotifyError>(x) ==> x == t,
{
}

/// Where the aggregated result's entries come from: every restocked entry
/// is the value of some available non-test outcome, and every flagged
/// test target is one of the polled targets whose outcome was "not
/// found".
proof fn lemma_aggregate_sources(
    ts: Seq<TargetView>,
    os: Seq<Result<TargetView, NotifyError>>,
    now: int,
)
    requires
        ts.len() == os.len(),
    ensures
        forall|x: TargetView|
            #[trigger] spec_aggregate(ts, os, now).restocked.contains(x) ==> x.is_test != Some(
                true,
            ) && exists|i: int| 0 <= i < os.len() && os[i] == Ok::<TargetView, NotifyError>(x),
        forall|x: TargetView|
            #[trigger] spec_aggregate(ts, os, now).test_targets_not_found.contains(x)
                ==> x.is_test == Some(true) && exists|i: int| 0 <= i < ts.len() && ts[i] == x,
        forall|k: Seq<char>|
            #[trigger] spec_aggregate(ts, os, now).checked.dom().contains(k) ==> exists|i: int|
                0 <= i < ts.len() && ts[i].key == k,
        forall|k: Seq<char>|
            #[trigger] spec_aggregate(ts, os, now).rate_limit_updates.dom().contains(k)
                ==> exists|i: int| 0 <= i < ts.len() && ts[i].key == k,
    decreases ts.len(),
{
    if ts.len() > 0 {
        lemma_aggregate_sources(ts.drop_last(), os.drop_last(), now);
        let prev = spec_aggregate(ts.drop_last(), os.drop_last(), now);
        let agg = spec_aggregate(ts, os, now);
        assert forall|x: TargetView| #[trigger] agg.restocked.contains(x) implies x.is_test
            != Some(true) && exists|i: int|
            0 <= i < os.len() && os[i] == Ok::<TargetView, NotifyError>(x) by {
            if prev.restocked.contains(x) {
                let i = choose|i: int|
                    0 <= i < os.drop_last().len() && os.drop_last()[i] == Ok::<
                        TargetView,
                        NotifyError,
                    >(x);
                assert(os[i] == Ok::<TargetView, NotifyError>(x));
            } else {
                match os.last() {
                    Ok(res) => {
                        if res.is_test == Some(true) || prev.restocked.contains(res) {
                            assert(agg.restocked == prev.restocked);
                        } else {
                            assert(agg.restocked == prev.restocked.push(res));
                            let j = choose|j: int|
                                0 <= j < agg.restocked.len() && agg.restocked[j] == x;
                            if j < prev.restocked.len() {
                                assert(prev.restocked.contains(x));
                            }
                            assert(x == res);
                            assert(os[os.len() - 1] == Ok::<TargetView, NotifyError>(x));
                        }
                    },
                    Err(_) => {
                        assert(agg.restocked == prev.restocked);
                    },
                }
            }
        }
        assert forall|x: TargetView| #[trigger] agg.test_targets_not_found.contains(x) implies x
            .is_test == Some(true) && exists|i: int| 0 <= i < ts.len() && ts[i] == x by {
            if prev.test_targets_not_found.contains(x) {
                let i = choose|i: int|
                    0 <= i < ts.drop_last().len() && ts.drop_last()[i] == x;
                assert(ts[i] == x);
            } else {
                assert(ts[ts.len() - 1] == x);
            }
        }
        assert forall|k: Seq<char>| #[trigger] agg.checked.dom().contains(k) implies exists|i: int|
            0 <= i < ts.len() && ts[i].key == k by {
            if prev.checked.dom().contains(k) {
                let i = choose|i: int|
                    0 <= i < ts.drop_last().len() && ts.drop_last()[i].key == k;
                assert(ts[i].key == k);
            } else {
                assert(ts[ts.len() - 1].key == k);
            }
        }
        assert forall|k: Seq<char>|
            #[trigger] agg.rate_limit_updates.dom().contains(k) implies exists|i: int|
            0 <= i < ts.len() && ts[i].key == k by {
            if prev.rate_limit_updates.dom().contains(k) {
                let i = choose|i: int|
                    0 <= i < ts.drop_last().len() && ts.drop_last()[i].key == k;
                assert(ts[i].key == k);
            } else {
                assert(ts[ts.len() - 1].key == k);
            }
        }
    }
}

/// Every key the cycle result mentions — in the diagnostic tally or in
/// the rate-limit updates — is the key of some eligible target: a target
/// that was not polled leaves no trace under a key nobody else shares.
pub proof fn lemma_cycle_keys_from_eligible(
    ts: Seq<TargetView>,
    limits: Map<Seq<char>, int>,
    now: int,
    minute: u8,
    check_tests_every_cycle: bool,
    fs: Seq<FetchResultView>,
)
    ensures
        forall|k: Seq<char>|
            #[trigger] spec_poll(
                ts,
                limits,
                now,
                minute,
                check_tests_every_cycle,
                fs,
            ).checked.dom().contains(k) ==> exists|x: TargetView|
                spec_eligible_seq(ts, limits, now, minute, check_tests_every_cycle).contains(x)
                    && x.key == k,
        forall|k: Seq<char>|
            #[trigger] spec_poll(
                ts,
                limits,
                now,
                minute,
                check_tests_every_cycle,
                fs,
            ).rate_limit_updates.dom().contains(k) ==> exists|x: TargetView|
                spec_eligible_seq(ts, limits, now, minute, check_tests_every_cycle).contains(x)
                    && x.key == k,
{
    let elig = spec_eligible_seq(ts, limits, now, minute, check_tests_every_cycle);
    let os = spec_classified(elig, fs);
    lemma_aggregate_sources(elig, os, now);
    assert forall|k: Seq<char>|
        #[trigger] spec_poll(
            ts,
            limits,
            now,
            minute,
            check_tests_every_cycle,
            fs,
        ).checked.dom().contains(k) implies exists|x: TargetView|
        elig.contains(x) && x.key == k by {
        let i = choose|i: int| 0 <= i < elig.len() && elig[i].key == k;
        assert(elig.contains(elig[i]));
    }
    assert forall|k: Seq<char>|
        #[trigger] spec_poll(
            ts,
            limits,
            now,
            minute,
            check_tests_every_cycle,
            fs,
        ).rate_limit_updates.dom().contains(k) implies exists|x: TargetView|
        elig.contains(x) && x.key == k by {
        let i = choose|i: int| 0 <= i < elig.len() && elig[i].key == k;
        assert(elig.contains(elig[i]));
    }
}

/// Every element the eligibility filter keeps is one of the configured
/// targets, and meets the eligibility condition.
proof fn lemma_eligible_seq_members(
    ts: Seq<TargetView>,
    limits: Map<Seq<char>, int>,
    now: int,
    minute: u8,
    check_tests_every_cycle: bool,
)
    ensures
        forall|x: TargetView|
            #[trigger] spec_eligible_seq(ts, limits, now, minute, check_tests_every_cycle).contains(
                x,
            ) ==> ts.contains(x) && spec_eligible(x, limits, now, minute, check_tests_every_cycle),
    decreases ts.len(),
{
    reveal(Seq::filter);
    if ts.len() > 0 {
        lemma_eligible_seq_members(ts.drop_last(), limits, now, minute, check_tests_every_cycle);
        let sub = spec_eligible_seq(ts.drop_last(), limits, now, minute, check_tests_every_cycle);
        let whole = spec_eligible_seq(ts, limits, now, minute, check_tests_every_cycle);
        assert forall|x: TargetView| #[trigger] whole.contains(x) implies ts.contains(x)
            && spec_eligible(x, limits, now, minute, check_tests_every_cycle) by {
            if sub.contains(x) {
                let i = choose|i: int| 0 <= i < ts.drop_last().len() && ts.drop_last()[i] == x;
                assert(ts[i] == x);
            } else {
                assert(whole == sub.push(ts.last()) || whole == sub);
                assert(x == ts.last());
                assert(ts[ts.len() - 1] == x);
            }
        }
    }
}

/// A target configured inactive (`active: Some(false)`; an absent flag
/// defaults to active) is never dispatched — it is not among the eligible
/// targets — and appears nowhere in the cycle result.
pub proof fn lemma_inactive_target_never_polled(
    t: TargetView,
    ts: Seq<TargetView>,
    limits: Map<Seq<char>, int>,
    now: int,
    minute: u8,
    check_tests_every_cycle: bool,
    fs: Seq<FetchResultView>,
)
    requires
        t.active == Some(false),
    ensures
        !spec_eligible_seq(ts, limits, now, minute, check_tests_every_cycle).contains(t),
        !spec_poll(ts, limits, now, minute, check_tests_every_cycle, fs).restocked.contains(t),
        !spec_poll(
            ts,
            limits,
            now,
            minute,
            check_tests_every_cycle,
            fs,
        ).test_targets_not_found.contains(t),
{
    lemma_target_outside_eligible_never_polled(t, ts, limits, now, minute, check_tests_every_cycle, fs);
}

/// A target whose key is inside its cool-down window (`now < expiry`) is
/// skipped for the cycle: not dispatched, and absent from the cycle
/// result.
pub proof fn lemma_rate_limited_target_never_polled(
    t: TargetView,
    ts: Seq<TargetView>,
    limits: Map<Seq<char>, int>,
    now: int,
    minute: u8,
    check_tests_every_cycle: bool,
    fs: Seq<FetchResultView>,
)
    requires
        spec_is_limited(limits, t.key, now),
    ensures
        !spec_eligible_seq(ts, limits, now, minute, check_tests_every_cycle).contains(t),
        !spec_poll(ts, limits, now, minute, check_tests_every_cycle, fs).restocked.contains(t),
        !spec_poll(
            ts,
            limits,
            now,
            minute,
            check_tests_every_cycle,
            fs,
        ).test_targets_not_found.contains(t),
{
    lemma_target_outside_eligible_never_polled(t, ts, limits, now, minute, check_tests_every_cycle, fs);
}

/// Common core of the two skip laws: an ineligible target is not among
/// the eligible targets, and nothing in the cycle result stems from it.
proof fn lemma_target_outside_eligible_never_polled(
    t: TargetView,
    ts: Seq<TargetView>,
    limits: Map<Seq<char>, int>,
    now: int,
    minute: u8,
    check_tests_every_cycle: bool,
    fs: Seq<FetchResultView>,
)
    requires
        !spec_eligible(t, limits, now, minute, check_tests_every_cycle),
    ensures
        !spec_eligible_seq(ts, limits, now, minute, check_tests_every_cycle).contains(t),
        !spec_poll(ts, limits, now, minute, check_tests_every_cycle, fs).restocked.contains(t),
        !spec_poll(
            ts,
            limits,
            now,
            minute,
            check_tests_every_cycle,
            fs,
        ).test_targets_not_found.contains(t),
{
    let elig = spec_eligible_seq(ts, limits, now, minute, check_tests_every_cycle);
    let os = spec_classified(elig, fs);
    lemma_eligible_seq_members(ts, limits, now, minute, check_tests_every_cycle);
    lemma_aggregate_sources(elig, os, now);
    if spec_poll(ts, limits, now, minute, check_tests_every_cycle, fs).restocked.contains(t) {
        let i = choose|i: int| 0 <= i < os.len() && os[i] == Ok::<TargetView, NotifyError>(t);
        lemma_classify_ok_is_target(elig[i], fs[i]);
        assert(elig[i] == t);
        assert(elig.contains(t));
    }
    if spec_poll(
        ts,
        limits,
        now,
        minute,
        check_tests_every_cycle,
        fs,
    ).test_targets_not_found.contains(t) {
        let i = choose|i: int| 0 <= i < elig.len() && elig[i] == t;
        assert(elig.contains(t));
    }
}

/// The rate-limit scenario's remaining conjunct: where every polled
/// target carrying key `k` came back rate-limited, `k` never enters the
/// diagnostic tally. (The restriction is needed: another target sharing
/// the key that was found, or not found, does tally it.)
pub proof fn lemma_rate_limited_key_not_tallied(
    ts: Seq<TargetView>,
    os: Seq<Result<TargetView, NotifyError>>,
    now: int,
    k: Seq<char>,
)
    requires
        ts.len() == os.len(),
        forall|i: int|
            0 <= i < ts.len() && ts[i].key == k ==> os[i] == Err::<TargetView, NotifyError>(
                NotifyError::RateLimited,
            ),
    ensures
        !spec_aggregate(ts, os, now).checked.dom().contains(k),
    decreases ts.len(),
{
    if ts.len() > 0 {
        assert forall|i: int|
            0 <= i < ts.drop_last().len() && ts.drop_last()[i].key == k implies os.drop_last()[i]
            == Err::<TargetView, NotifyError>(NotifyError::RateLimited) by {
            assert(ts[i].key == k);
        }
        lemma_rate_limited_key_not_tallied(ts.drop_last(), os.drop_last(), now, k);
        let t = ts.last();
        if t.key == k {
            assert(os[ts.len() - 1] == Err::<TargetView, NotifyError>(NotifyError::RateLimited));
        }
    }
}

/// How many outcomes were "available" on a non-test target: each such
/// outcome either adds a restocked entry or a duplicate notice.
pub open spec fn spec_count_available(os: Seq<Result<TargetView, NotifyError>>) -> int
    decreases os.len(),
{
    if os.len() == 0 {
        0
    } else {
        spec_count_available(os.drop_last()) + match os.last() {
            Ok(res) => if res.is_test == Some(true) {
                0
            } else {
                1int
            },
            Err(_) => 0,
        }
    }
}

/// Deduplication of the restocked set: no two entries are equal, every
/// available non-test outcome's target is present, and each collapsed
/// duplicate is accounted for by exactly one duplicate notice.
pub proof fn lemma_restocked_deduplicated(
    ts: Seq<TargetView>,
    os: Seq<Result<TargetView, NotifyError>>,
    now: int,
)
    requires
        ts.len() == os.len(),
    ensures
        forall|i: int, j: int|
            0 <= i < j < spec_aggregate(ts, os, now).restocked.len() ==> spec_aggregate(
                ts,
                os,
                now,
            ).restocked[i] != spec_aggregate(ts, os, now).restocked[j],
        forall|i: int, x: TargetView|
            0 <= i < os.len() && os[i] == Ok::<TargetView, NotifyError>(x) && x.is_test != Some(
                true,
            ) ==> spec_aggregate(ts, os, now).restocked.contains(x),
        spec_aggregate(ts, os, now).restocked.len() + spec_aggregate(ts, os, now).duplicate_notices
            == spec_count_available(os),
    decreases ts.len(),
{
    if ts.len() > 0 {
        lemma_restocked_deduplicated(ts.drop_last(), os.drop_last(), now);
        let prev = spec_aggregate(ts.drop_last(), os.drop_last(), now);
        let agg = spec_aggregate(ts, os, now);
        assert forall|i: int, x: TargetView|
            0 <= i < os.len() && os[i] == Ok::<TargetView, NotifyError>(x) && x.is_test != Some(
                true,
            ) implies agg.restocked.contains(x) by {
            if i < os.len() - 1 {
                assert(os.drop_last()[i] == Ok::<TargetView, NotifyError>(x));
                assert(prev.restocked.contains(x));
                let j = choose|j: int| 0 <= j < prev.restocked.len() && prev.restocked[j] == x;
                match os.last() {
                    Ok(res) => {
                        if res.is_test == Some(true) || prev.restocked.contains(res) {
                            assert(agg.restocked == prev.restocked);
                        } else {
                            assert(agg.restocked == prev.restocked.push(res));
                        }
                    },
                    Err(_) => {
                        assert(agg.restocked == prev.restocked);
                    },
                }
                assert(agg.restocked[j] == x);
            } else {
                if prev.restocked.contains(x) {
                    let j = choose|j: int| 0 <= j < prev.restocked.len() && prev.restocked[j] == x;
                    assert(agg.restocked[j] == x);
                } else {
                    assert(agg.restocked == prev.restocked.push(x));
                    assert(agg.restocked[agg.restocked.len() - 1] == x);
                }
            }
        }
    }
}

/// Polling is a function of its inputs: two cycles run on the same
/// targets, the same rate-limit state, the same clock and cadence, and
/// the same transport results yield the same cycle result.
pub proof fn lemma_poll_deterministic(
    r1: CycleResultView,
    r2: CycleResultView,
    ts: Seq<TargetView>,
    limits: Map<Seq<char>, int>,
    now: int,
    minute: u8,
    check_tests_every_cycle: bool,
    fs: Seq<FetchResultView>,
)
    requires
        r1 == spec_poll(ts, limits, now, minute, check_tests_every_cycle, fs),
        r2 == spec_poll(ts, limits, now, minute, check_tests_every_cycle, fs),
    ensures
        r1 == r2,
{
}

} // verus!
