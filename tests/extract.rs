use adfeed::cycle::get_ad_hash;
use adfeed::extract::extract_ads;

#[test]
fn test_extract_ads_single() {
    let html = r#"
            <a href="/marketplace/item/123456789/?ref=search">
                <span style="-webkit-line-clamp: 2;">Awesome iPhone 15</span>
                <span dir="auto">$800</span>
            </a>
        "#;
    let ads = extract_ads(html, "$");
    assert_eq!(ads.len(), 1);
    let (_hash, title, price, url) = &ads[0];
    assert_eq!(title, "Awesome iPhone 15");
    assert_eq!(price, "$800");
    assert!(url.contains("123456789"));
}

#[test]
fn test_extract_ads_none() {
    let html = "<div>No ads here</div>";
    let ads = extract_ads(html, "$");
    assert_eq!(ads.len(), 0);
}

#[test]
fn test_extract_ads_multiple() {
    let html = r#"
            <div>
                <a href="/marketplace/item/111/?ref=search">
                    <span style="-webkit-line-clamp: 2;">Item 1</span>
                    <span dir="auto">$10</span>
                </a>
                <a href="/marketplace/item/222/?ref=search">
                    <span style="-webkit-line-clamp: 2;">Item 2</span>
                    <span dir="auto">$20</span>
                </a>
            </div>
        "#;
    let ads = extract_ads(html, "$");
    assert_eq!(ads.len(), 2);
}

#[test]
fn test_extract_ads_respects_currency() {
    let html = r#"
            <a href="/marketplace/item/999/?ref=search">
                <span style="-webkit-line-clamp: 2;">Fancy Chair</span>
                <span dir="auto">€150</span>
            </a>
        "#;
    let ads = extract_ads(html, "€");
    assert_eq!(ads.len(), 1);
    assert_eq!(ads[0].2, "€150");

    let ads_usd = extract_ads(html, "$");
    assert_eq!(ads_usd.len(), 0);
}

#[test]
fn test_extract_ads_free_items_always_pass() {
    let html = r#"
            <a href="/marketplace/item/777/?ref=search">
                <span style="-webkit-line-clamp: 2;">Free Couch</span>
                <span dir="auto">Free</span>
            </a>
        "#;
    let ads = extract_ads(html, "$");
    assert_eq!(ads.len(), 1);
    assert_eq!(ads[0].1, "Free Couch");
}

#[test]
fn test_get_ad_hash_deterministic() {
    let url = "https://facebook.com/marketplace/item/123456";
    let h1 = get_ad_hash(url);
    let h2 = get_ad_hash(url);
    assert_eq!(h1, h2);
    assert_eq!(h1.len(), 32);
    assert_ne!(get_ad_hash(url), get_ad_hash("https://facebook.com/marketplace/item/999"));
}

#[test]
fn ad_hash_is_the_md5_hex_digest() {
    assert_eq!(get_ad_hash(""), "d41d8cd98f00b204e9800998ecf8427e");
    assert_eq!(get_ad_hash("abc"), "900150983cd24fb0d6963f7d28e17f72");
}

#[test]
fn canonical_url_drops_query_and_repeats_are_skipped() {
    let html = r#"
            <a href="/marketplace/item/42/?ref=a"><span style="-webkit-line-clamp: 2;">  Lamp </span><span dir="auto"> $5 </span></a>
            <a href="/marketplace/item/42/?ref=b"><span style="-webkit-line-clamp: 2;">Lamp again</span><span dir="auto">$6</span></a>
            <a href="/marketplace/item/43/"><span style="-webkit-line-clamp: 2;">No price</span></a>
        "#;
    let ads = extract_ads(html, "$");
    assert_eq!(ads.len(), 1);
    let (id, title, price, url) = &ads[0];
    assert_eq!(url, "https://facebook.com/marketplace/item/42/");
    assert_eq!(title, "Lamp");
    assert_eq!(price, "$5");
    assert_eq!(id, &get_ad_hash("https://facebook.com/marketplace/item/42/"));
}

#[test]
fn free_is_matched_in_any_case() {
    let html = r#"<a href="/marketplace/item/5"><span style="-webkit-line-clamp: 2;">Desk</span><span dir="auto">FREE pickup</span></a>"#;
    assert_eq!(extract_ads(html, "€").len(), 1);
}
