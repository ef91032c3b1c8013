use restock_notify::engine::{
    aggregate, classify_fetch, classify_status, eligible_targets, poll, FetchResult, FetchedPage,
};
use restock_notify::error::NotifyError;
use restock_notify::ratelimit::RateLimitStore;
use restock_notify::target::ScrapingTarget;

fn target(key: &str) -> ScrapingTarget {
    ScrapingTarget {
        name: "Widget".to_string(),
        url: "https://example.com/widget".to_string(),
        key: key.to_string(),
        active: Some(true),
        is_test: None,
    }
}

fn page(status: u16, body: &str) -> FetchResult {
    FetchResult::Fetched(FetchedPage {
        status,
        final_url: "https://example.com/widget".to_string(),
        body: body.to_string(),
        detail_body: None,
    })
}

const AMD_OUT_OF_STOCK: &str = "<p class=\"product-out-of-stock\">Out of stock</p>";

#[test]
fn status_pre_classification() {
    assert_eq!(
        classify_status("amd", 429, "https://example.com"),
        Some(NotifyError::RateLimited)
    );
    assert_eq!(
        classify_status("amd", 500, "https://example.com"),
        Some(NotifyError::TransientServerError(500))
    );
    assert_eq!(
        classify_status("amd", 404, "https://example.com"),
        Some(NotifyError::TransientClientError(404))
    );
    assert_eq!(
        classify_status("amd", 301, "https://example.com"),
        Some(NotifyError::BadStatus(301))
    );
    assert_eq!(classify_status("amd", 200, "https://example.com"), None);
    assert_eq!(
        classify_status(
            "bnh",
            200,
            "https://site-not-available.bhphotovideo.com/500Error"
        ),
        Some(NotifyError::RateLimited)
    );
    assert_eq!(
        classify_status(
            "amd",
            200,
            "https://site-not-available.bhphotovideo.com/500Error"
        ),
        None
    );
}

#[test]
fn scenario_available_appears_in_restocked() {
    let t = target("amd");
    let store = RateLimitStore::new();
    let fetches = vec![page(200, "<html>all good</html>")];
    let result = poll(&vec![t.clone()], &store, 1_000, 1, false, &fetches);
    assert_eq!(result.restocked.len(), 1);
    assert_eq!(result.restocked[0], t);
    assert!(!result.should_reload_proxy);
    assert_eq!(result.duplicate_notices, 0);
}

#[test]
fn scenario_marker_goes_to_diagnostics_not_restocked() {
    let t = target("amd");
    let store = RateLimitStore::new();
    let fetches = vec![page(200, AMD_OUT_OF_STOCK)];
    let result = poll(&vec![t.clone()], &store, 1_000, 1, false, &fetches);
    assert!(result.restocked.is_empty());
    let entries = result.checked.entries();
    assert_eq!(entries.len(), 1);
    assert_eq!(entries[0].key, "amd");
    assert_eq!(entries[0].count, 1);
    assert_eq!(entries[0].names, vec!["Widget".to_string()]);
}

#[test]
fn scenario_http_429_sets_cooldown_and_reload() {
    let t = target("amd");
    let store = RateLimitStore::new();
    let now = 5_000;
    let fetches = vec![page(429, "whatever")];
    let result = poll(&vec![t], &store, now, 1, false, &fetches);
    assert!(result.restocked.is_empty());
    assert!(result.should_reload_proxy);
    let updates = result.rate_limit_updates.entries();
    assert_eq!(updates.len(), 1);
    assert_eq!(updates[0].0, "amd");
    assert_eq!(updates[0].1, now + 120);
    assert!(result.rate_limit_updates.is_limited("amd", now + 119));
    assert!(!result.rate_limit_updates.is_limited("amd", now + 120));
}

#[test]
fn scenario_test_target_not_found_is_flagged() {
    let mut t = target("amd");
    t.is_test = Some(true);
    let store = RateLimitStore::new();
    let fetches = vec![page(200, AMD_OUT_OF_STOCK)];
    let result = poll(&vec![t.clone()], &store, 1_000, 0, true, &fetches);
    assert!(result.restocked.is_empty());
    assert_eq!(result.test_targets_not_found.len(), 1);
    assert_eq!(result.test_targets_not_found[0], t);
}

#[test]
fn scenario_test_target_available_is_not_notified() {
    let mut t = target("amd");
    t.is_test = Some(true);
    let store = RateLimitStore::new();
    let fetches = vec![page(200, "fine")];
    let result = poll(&vec![t], &store, 1_000, 0, true, &fetches);
    assert!(result.restocked.is_empty());
    assert!(result.test_targets_not_found.is_empty());
    assert_eq!(result.checked.entries().len(), 1);
}

#[test]
fn scenario_unknown_key_is_dropped_silently() {
    let t = target("unsupported-store");
    let outcome = classify_fetch(&t, &page(200, "anything"));
    assert_eq!(outcome.unwrap_err(), NotifyError::UnknownTarget);
    let store = RateLimitStore::new();
    let fetches = vec![page(200, "anything")];
    let result = poll(&vec![t], &store, 1_000, 1, false, &fetches);
    assert!(result.restocked.is_empty());
    assert!(result.test_targets_not_found.is_empty());
    assert!(result.checked.entries().is_empty());
    assert!(result.rate_limit_updates.entries().is_empty());
    assert!(!result.should_reload_proxy);
}

#[test]
fn inactive_target_is_never_dispatched() {
    let mut t = target("amd");
    t.active = Some(false);
    let store = RateLimitStore::new();
    let eligible = eligible_targets(&vec![t], &store, 1_000, 1, false);
    assert!(eligible.is_empty());
    let result = poll(&vec![], &store, 1_000, 1, false, &vec![]);
    assert!(result.restocked.is_empty());
}

#[test]
fn absent_active_flag_defaults_to_polled() {
    let mut t = target("amd");
    t.active = None;
    let store = RateLimitStore::new();
    let eligible = eligible_targets(&vec![t.clone()], &store, 1_000, 1, false);
    assert_eq!(eligible.len(), 1);
    let fetches = vec![page(200, "fine")];
    let result = poll(&vec![t.clone()], &store, 1_000, 1, false, &fetches);
    assert_eq!(result.restocked.len(), 1);
    assert_eq!(result.restocked[0], t);
}

#[test]
fn rate_limited_target_is_skipped() {
    let t = target("amd");
    let mut store = RateLimitStore::new();
    let now = 10_000;
    store.set_limit("amd", now);
    let eligible = eligible_targets(&vec![t.clone()], &store, now + 60, 1, false);
    assert!(eligible.is_empty());
    let after_expiry = eligible_targets(&vec![t], &store, now + 120, 1, false);
    assert_eq!(after_expiry.len(), 1);
}

#[test]
fn test_target_cadence() {
    let mut t = target("amd");
    t.is_test = Some(true);
    assert!(t.is_active(0, false));
    assert!(t.is_active(50, false));
    assert!(!t.is_active(5, false));
    assert!(t.is_active(5, true));
    let plain = target("amd");
    assert!(plain.is_active(5, false));
    let mut unflagged_test = target("amd");
    unflagged_test.active = None;
    unflagged_test.is_test = Some(true);
    assert!(unflagged_test.is_active(20, false));
    assert!(!unflagged_test.is_active(7, false));
}

#[test]
fn duplicate_targets_collapse_to_one_restock() {
    let t1 = target("amd");
    let t2 = target("amd");
    let store = RateLimitStore::new();
    let fetches = vec![page(200, "ok"), page(200, "ok")];
    let result = poll(&vec![t1.clone(), t2], &store, 1_000, 1, false, &fetches);
    assert_eq!(result.restocked.len(), 1);
    assert_eq!(result.restocked[0], t1);
    assert_eq!(result.duplicate_notices, 1);
    let entries = result.checked.entries();
    assert_eq!(entries[0].count, 2);
}

#[test]
fn poll_is_deterministic_on_identical_inputs() {
    let targets = vec![target("amd"), target("bestbuy"), target("unsupported-store")];
    let store = RateLimitStore::new();
    let fetches = vec![
        page(200, "ok"),
        page(200, "<button>Sold Out</button>"),
        page(429, "x"),
    ];
    let r1 = poll(&targets, &store, 2_000, 1, false, &fetches);
    let r2 = poll(&targets, &store, 2_000, 1, false, &fetches);
    assert_eq!(r1.restocked, r2.restocked);
    assert_eq!(r1.should_reload_proxy, r2.should_reload_proxy);
    assert_eq!(r1.duplicate_notices, r2.duplicate_notices);
    assert_eq!(r1.test_targets_not_found, r2.test_targets_not_found);
    assert_eq!(
        r1.rate_limit_updates.entries(),
        r2.rate_limit_updates.entries()
    );
    let c1 = r1.checked.entries();
    let c2 = r2.checked.entries();
    assert_eq!(c1.len(), c2.len());
    for (a, b) in c1.iter().zip(c2.iter()) {
        assert_eq!(a.key, b.key);
        assert_eq!(a.count, b.count);
        assert_eq!(a.names, b.names);
    }
}

#[test]
fn transport_failure_is_dropped_without_state_change() {
    let t = target("amd");
    let outcome = classify_fetch(&t, &FetchResult::TransportFailed);
    assert_eq!(outcome.unwrap_err(), NotifyError::NetworkFailure);
    let store = RateLimitStore::new();
    let result = poll(
        &vec![t],
        &store,
        1_000,
        1,
        false,
        &vec![FetchResult::TransportFailed],
    );
    assert!(result.restocked.is_empty());
    assert!(result.checked.entries().is_empty());
    assert!(result.rate_limit_updates.entries().is_empty());
    assert!(!result.should_reload_proxy);
}

#[test]
fn newegg_detail_fetch_flows_through_the_engine() {
    let t = target("newegg");
    let fetch = FetchResult::Fetched(FetchedPage {
        status: 200,
        final_url: "https://newegg.test/item".to_string(),
        body: "<script type=\"text/javascript\" src=\"https://c.newegg.test/ItemInfo4/p.js\">"
            .to_string(),
        detail_body: Some("\"instock\":false,\"sellername\":null,\"instock\":true".to_string()),
    });
    let outcome = classify_fetch(&t, &fetch);
    assert_eq!(outcome.unwrap(), t);
}

#[test]
fn aggregate_orders_and_drops_as_specified() {
    let a = target("amd");
    let b = target("bestbuy");
    let products = vec![a.clone(), b];
    let outcomes = vec![
        Ok(a),
        Err(NotifyError::TransientServerError(503)),
    ];
    let result = aggregate(&products, &outcomes, 1_000);
    assert_eq!(result.restocked.len(), 1);
    assert_eq!(result.checked.entries().len(), 1);
    assert!(!result.should_reload_proxy);
}
