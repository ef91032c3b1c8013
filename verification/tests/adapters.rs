use restock_notify::error::NotifyError;
use restock_notify::scraper::amazon::AmazonScraper;
use restock_notify::scraper::amd::AmdScraper;
use restock_notify::scraper::antonline::AntScraper;
use restock_notify::scraper::bestbuy::BestBuyScraper;
use restock_notify::scraper::bnh::BnHScraper;
use restock_notify::scraper::newegg::{has_stock, NeweggScraper};
use restock_notify::scraper::tigerdirect::TigerDirectScraper;
use restock_notify::scraper::{default_handle_response, handle_body, ClassifyStep};
use restock_notify::target::ScrapingTarget;

fn target(key: &str) -> ScrapingTarget {
    ScrapingTarget {
        name: "Widget".to_string(),
        url: "https://example.com/widget".to_string(),
        key: key.to_string(),
        active: Some(true),
        is_test: None,
    }
}

#[test]
fn amd_body_without_marker_is_available() {
    let t = target("amd");
    let r = AmdScraper.handle_response("<html><p>In stock now!</p></html>", &t);
    assert_eq!(r.unwrap(), t);
}

#[test]
fn amd_body_with_marker_is_not_found() {
    let t = target("amd");
    let body = "<html><p class=\"product-out-of-stock\">Out of stock</p></html>";
    let r = AmdScraper.handle_response(body, &t);
    assert_eq!(r.unwrap_err(), NotifyError::NotFound);
}

#[test]
fn amazon_clean_body_is_available() {
    let t = target("amazon");
    let r = AmazonScraper.handle_response("<html>Add to Cart</html>", &t);
    assert_eq!(r.unwrap(), t);
}

#[test]
fn amazon_unavailable_span_is_not_found() {
    let t = target("amazon");
    let body = "<span class=\"a-size-medium a-color-price\">\n  Currently unavailable.\n  </span>";
    let r = AmazonScraper.handle_response(body, &t);
    assert_eq!(r.unwrap_err(), NotifyError::NotFound);
}

#[test]
fn amazon_other_sellers_is_not_found() {
    let t = target("amazon");
    let body = "Available from <b>various</b> of these sellers</a>";
    let r = AmazonScraper.handle_response(body, &t);
    assert_eq!(r.unwrap_err(), NotifyError::NotFound);
}

#[test]
fn amazon_captcha_is_rate_limited() {
    let t = target("amazon");
    let body = "<p class=\"a-last\">Sorry, we just need to make sure you're not a robot. For best results, please make sure your browser is accepting cookies.</p>";
    let r = AmazonScraper.handle_response(body, &t);
    assert_eq!(r.unwrap_err(), NotifyError::RateLimited);
}

#[test]
fn antonline_sold_out_is_case_insensitive() {
    let t = target("antonline");
    let r = AntScraper.handle_response("<span>SOLD OUT </span>", &t);
    assert_eq!(r.unwrap_err(), NotifyError::NotFound);
    let r = AntScraper.handle_response("<span>sold out</span>", &t);
    assert_eq!(r.unwrap_err(), NotifyError::NotFound);
    let r = AntScraper.handle_response("<span>Add to cart</span>", &t);
    assert_eq!(r.unwrap(), t);
}

#[test]
fn bestbuy_sold_out_button_is_not_found() {
    let t = target("bestbuy");
    let r = BestBuyScraper.handle_response("<button>Sold Out</button>", &t);
    assert_eq!(r.unwrap_err(), NotifyError::NotFound);
    let r = BestBuyScraper.handle_response("<button>SOLD OUT</button>", &t);
    assert_eq!(r.unwrap_err(), NotifyError::NotFound);
    let r = BestBuyScraper.handle_response("<button>Add to Cart</button>", &t);
    assert_eq!(r.unwrap(), t);
}

#[test]
fn bnh_needs_both_flags_for_available() {
    let t = target("bnh");
    let both = "{\"showNotifyWhenAvailable\":false,\"showNotifyWhenInStock\":false}";
    assert_eq!(BnHScraper.handle_response(both, &t).unwrap(), t);
    let one = "{\"showNotifyWhenAvailable\":false}";
    assert_eq!(
        BnHScraper.handle_response(one, &t).unwrap_err(),
        NotifyError::NotFound
    );
    assert_eq!(
        BnHScraper.handle_response("{}", &t).unwrap_err(),
        NotifyError::NotFound
    );
}

#[test]
fn tigerdirect_marker_is_not_found() {
    let t = target("tigerdirect");
    let body = "<h2 class=\"outofStock\">Currently Out Of Stock!</h2>";
    assert_eq!(
        TigerDirectScraper.handle_response(body, &t).unwrap_err(),
        NotifyError::NotFound
    );
    assert_eq!(TigerDirectScraper.handle_response("<h2>Buy</h2>", &t).unwrap(), t);
}

#[test]
fn default_handler_without_pattern_is_misconfigured() {
    let t = target("antonline");
    let r = default_handle_response(None, "anything", &t);
    assert_eq!(r.unwrap_err(), NotifyError::MisconfiguredAdapter);
}

#[test]
fn has_stock_pairs_sellers_with_later_stock_flags() {
    let page = "\"instock\":false,\"sellername\":null,\"instock\":true";
    assert!(has_stock(page));
    let no_pair = "\"instock\":true,\"sellername\":\"Shop123\",\"instock\":true";
    assert!(!has_stock(no_pair));
    let first_not_skipped = "\"sellername\":null,\"instock\":true";
    assert!(!has_stock(first_not_skipped));
    assert!(!has_stock(""));
}

#[test]
fn newegg_bot_challenge_is_rate_limited() {
    let t = target("newegg");
    let body = "We apologize for the confusion, but we can't quite tell if you're a person or a script.";
    match NeweggScraper.handle_response(body, &t) {
        ClassifyStep::Done(r) => assert_eq!(r.unwrap_err(), NotifyError::RateLimited),
        ClassifyStep::NeedDetail(_) => panic!("expected a final outcome"),
    }
}

#[test]
fn newegg_in_page_stock_is_available() {
    let t = target("newegg");
    let body = "\"instock\":false,\"sellername\":null,\"instock\":true";
    match NeweggScraper.handle_response(body, &t) {
        ClassifyStep::Done(r) => assert_eq!(r.unwrap(), t),
        ClassifyStep::NeedDetail(_) => panic!("expected a final outcome"),
    }
}

#[test]
fn newegg_detail_script_is_followed() {
    let t = target("newegg");
    let body = "<script type=\"text/javascript\" src=\"https://c.newegg.test/ItemInfo4/product.js\">";
    match NeweggScraper.handle_response(body, &t) {
        ClassifyStep::Done(_) => panic!("expected a detail URL"),
        ClassifyStep::NeedDetail(u) => {
            assert_eq!(u, "https://c.newegg.test/ItemInfo4/product.js");
        },
    }
}

#[test]
fn newegg_detail_body_decides() {
    let t = target("newegg");
    let stocked = "\"instock\":false,\"sellername\":null,\"instock\":true";
    assert_eq!(
        NeweggScraper.handle_detail_response(Some(stocked), &t).unwrap(),
        t
    );
    assert_eq!(
        NeweggScraper.handle_detail_response(Some("nothing"), &t).unwrap_err(),
        NotifyError::NotFound
    );
    assert_eq!(
        NeweggScraper.handle_detail_response(None, &t).unwrap_err(),
        NotifyError::NetworkFailure
    );
}

#[test]
fn newegg_plain_body_is_not_found() {
    let t = target("newegg");
    match NeweggScraper.handle_response("<html>nothing here</html>", &t) {
        ClassifyStep::Done(r) => assert_eq!(r.unwrap_err(), NotifyError::NotFound),
        ClassifyStep::NeedDetail(_) => panic!("expected a final outcome"),
    }
}

#[test]
fn dispatch_reaches_the_right_adapter() {
    let amd = target("amd");
    match handle_body(&amd, "<p class=\"product-out-of-stock\">Out of stock</p>") {
        ClassifyStep::Done(r) => assert_eq!(r.unwrap_err(), NotifyError::NotFound),
        ClassifyStep::NeedDetail(_) => panic!("expected a final outcome"),
    }
    let unknown = target("unsupported-store");
    match handle_body(&unknown, "anything") {
        ClassifyStep::Done(r) => assert_eq!(r.unwrap_err(), NotifyError::UnknownTarget),
        ClassifyStep::NeedDetail(_) => panic!("expected a final outcome"),
    }
}
