use vstd::prelude::*;
use vstd::string::StringExecFns;

use crate::target::{spec_new_stock_message, ScrapingTarget, TargetView};

verus! {

/// A Discord webhook payload: the notification channel's wire shape.
pub struct DiscordWebhook {
    pub username: Option<String>,
    pub avatar_url: Option<String>,
    pub content: Option<String>,
    pub embeds: Vec<WebhookEmbed>,
}

/// An embed author block.
pub struct Author {
    pub name: Option<String>,
    pub url: Option<String>,
    pub icon_url: Option<String>,
}

/// One embed of a webhook payload.
pub struct WebhookEmbed {
    pub title: Option<String>,
    pub url: Option<String>,
    pub description: Option<String>,
    pub color: usize,
    pub fields: Vec<EmbedField>,
}

/// One field of an embed.
pub struct EmbedField {
    pub name: Option<String>,
    pub value: Option<String>,
    pub inline: Option<bool>,
    pub thumbnail: Option<Thumbnail>,
    pub image: Option<Image>,
    pub footer: Option<Footer>,
}

/// An embed thumbnail.
pub struct Thumbnail {
    pub url: String,
}

/// An embed image.
pub struct Image {
    pub url: String,
}

/// An embed footer.
pub struct Footer {
    pub text: Option<String>,
    pub icon_url: Option<String>,
}

/// The display name every notification is sent under.
pub open spec fn spec_notifier_username() -> Seq<char> {
    "Product Notifier"@
}

/// The avatar every notification is sent under.
pub open spec fn spec_notifier_avatar_url() -> Seq<char> {
    "https://www.amd.com/system/files/styles/992px/private/2020-09/616656-amd-ryzen-9-5000-series-PIB-1260x709_0.png"@
}

/// The embed title announcing a found product.
pub open spec fn spec_found_product_title(t: TargetView) -> Seq<char> {
    "Found Product ["@ + t.name + "] "@ + t.key
}

/// The embed title flagging a test product that was not found.
pub open spec fn spec_test_not_found_title(t: TargetView) -> Seq<char> {
    "Test Product ["@ + t.name + "] not In Stock at "@ + t.key
}

/// The explanation attached to a test-product alert.
pub open spec fn spec_test_not_found_description() -> Seq<char> {
    "Test product was not in stock, if the link shows it is in stock there's probably a bug with the provider implementation."@
}

/// What a single-embed notification payload must hold.
pub open spec fn spec_single_embed_webhook(
    r: DiscordWebhook,
    title: Seq<char>,
    url: Seq<char>,
    description: Seq<char>,
) -> bool {
    &&& r.username matches Some(u) && u@ == spec_notifier_username()
    &&& r.avatar_url matches Some(a) && a@ == spec_notifier_avatar_url()
    &&& r.content is None
    &&& r.embeds@.len() == 1
    &&& r.embeds@[0].title matches Some(t) && t@ == title
    &&& r.embeds@[0].url matches Some(u) && u@ == url
    &&& r.embeds@[0].description matches Some(d) && d@ == description
    &&& r.embeds@[0].color == 0
    &&& r.embeds@[0].fields@.len() == 0
}

/// Build one single-embed notification payload.
fn single_embed_webhook(title: String, url: String, description: String) -> (r: DiscordWebhook)
    ensures
        spec_single_embed_webhook(r, title@, url@, description@),
{
    let embed = WebhookEmbed {
        title: Some(title),
        url: Some(url),
        description: Some(description),
        color: 0,
        fields: Vec::new(),
    };
    let mut embeds: Vec<WebhookEmbed> = Vec::new();
    embeds.push(embed);
    DiscordWebhook {
        username: Some("Product Notifier".to_owned()),
        avatar_url: Some(
            "https://www.amd.com/system/files/styles/992px/private/2020-09/616656-amd-ryzen-9-5000-series-PIB-1260x709_0.png".to_owned(),
        ),
        content: None,
        embeds,
    }
}

/// The notification payload announcing that `product` is in stock: its
/// embed links the product page and carries the new-stock message.
pub fn found_product_webhook(product: &ScrapingTarget) -> (r: DiscordWebhook)
    ensures
        spec_single_embed_webhook(
            r,
            spec_found_product_title(product@),
            product@.url,
            spec_new_stock_message(product@),
        ),
{
    let mut title = "Found Product [".to_owned();
    title.append(product.name.as_str());
    title.append("] ");
    title.append(product.key.as_str());
    single_embed_webhook(title, product.url.clone(), product.new_stock_message())
}

/// The alert payload flagging a test product that came back "not found",
/// which points at a likely adapter regression.
pub fn test_product_not_found_webhook(product: &ScrapingTarget) -> (r: DiscordWebhook)
    ensures
        spec_single_embed_webhook(
            r,
            spec_test_not_found_title(product@),
            product@.url,
            spec_test_not_found_description(),
        ),
{
    let mut title = "Test Product [".to_owned();
    title.append(product.name.as_str());
    title.append("] not In Stock at ");
    title.append(product.key.as_str());
    single_embed_webhook(
        title,
        product.url.clone(),
        "Test product was not in stock, if the link shows it is in stock there's probably a bug with the provider implementation.".to_owned(),
    )
}

} // verus!
