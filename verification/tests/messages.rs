use restock_notify::notifier::{found_product_webhook, test_product_not_found_webhook};
use restock_notify::target::ScrapingTarget;
use restock_notify::text::{contains_substring, str_eq};

fn target() -> ScrapingTarget {
    ScrapingTarget {
        name: "Ryzen 9".to_string(),
        url: "https://shop.example/ryzen9".to_string(),
        key: "amd".to_string(),
        active: Some(true),
        is_test: None,
    }
}

#[test]
fn new_stock_message_format() {
    let msg = target().new_stock_message();
    assert_eq!(msg, "amd has new Ryzen 9 for sale at https://shop.example/ryzen9!");
}

#[test]
fn found_product_webhook_contents() {
    let w = found_product_webhook(&target());
    assert_eq!(w.username.as_deref(), Some("Product Notifier"));
    assert!(w.avatar_url.is_some());
    assert!(w.content.is_none());
    assert_eq!(w.embeds.len(), 1);
    let e = &w.embeds[0];
    assert_eq!(e.title.as_deref(), Some("Found Product [Ryzen 9] amd"));
    assert_eq!(e.url.as_deref(), Some("https://shop.example/ryzen9"));
    assert_eq!(
        e.description.as_deref(),
        Some("amd has new Ryzen 9 for sale at https://shop.example/ryzen9!")
    );
    assert_eq!(e.color, 0);
    assert!(e.fields.is_empty());
}

#[test]
fn test_not_found_webhook_contents() {
    let w = test_product_not_found_webhook(&target());
    assert_eq!(w.embeds.len(), 1);
    let e = &w.embeds[0];
    assert_eq!(
        e.title.as_deref(),
        Some("Test Product [Ryzen 9] not In Stock at amd")
    );
    assert_eq!(e.url.as_deref(), Some("https://shop.example/ryzen9"));
    assert_eq!(
        e.description.as_deref(),
        Some("Test product was not in stock, if the link shows it is in stock there's probably a bug with the provider implementation.")
    );
}

#[test]
fn substring_search_agrees_with_std() {
    assert!(contains_substring("hello world", "lo wo"));
    assert!(contains_substring("hello world", ""));
    assert!(contains_substring("hello", "hello"));
    assert!(!contains_substring("hello", "hello!"));
    assert!(!contains_substring("abc", "cb"));
    assert!(contains_substring("aaab", "aab"));
}

#[test]
fn str_eq_is_exact() {
    assert!(str_eq("", ""));
    assert!(str_eq("amd", "amd"));
    assert!(!str_eq("amd", "AMD"));
    assert!(!str_eq("amd", "amda"));
}
