use adfeed::feed::{date_text, feed_item, generate_rss, RFC2822_MAX_SECS, RFC2822_MIN_SECS};
use adfeed::store::AdEntry;

#[test]
fn test_generate_rss_empty() {
    let entries = vec![];
    let rss_xml = generate_rss(&entries, "127.0.0.1", 5000, 1_700_000_000);
    assert!(rss_xml.starts_with("<?xml version=\"1.0\""));
    assert!(rss_xml.contains("<title>Facebook Marketplace Ad Feed</title>"));
}

#[test]
fn test_generate_rss_with_items() {
    let now: i64 = 1_700_000_000;
    let entries = vec![AdEntry {
        ad_id: "id1".to_string(),
        title: "Ad 1".to_string(),
        price: "$10".to_string(),
        url: "https://example.com/1".to_string(),
        first_seen: now,
        last_checked: now,
    }];

    let rss_xml = generate_rss(&entries, "127.0.0.1", 5000, now);
    assert!(rss_xml.contains("Ad 1 - $10"));
    assert!(rss_xml.contains("https://example.com/1"));
    assert!(rss_xml.contains("id1"));
}

#[test]
fn feed_links_to_itself_and_dates_in_utc() {
    let now: i64 = 1_700_000_000;
    let entries = vec![AdEntry {
        ad_id: "abc".to_string(),
        title: "Bike".to_string(),
        price: "$30".to_string(),
        url: "https://example.com/b".to_string(),
        first_seen: now,
        last_checked: now,
    }];
    let xml = generate_rss(&entries, "10.0.0.2", 8080, now);
    assert!(xml.contains("http://10.0.0.2:8080/rss"));
    assert!(xml.contains("Tue, 14 Nov 2023 22:13:20 +0000"));
    assert!(xml.contains("isPermaLink=\"false\""));
    assert!(xml.contains("Price: $30 | Title: Bike"));
}

#[test]
fn feed_item_fields() {
    let e = AdEntry {
        ad_id: "x1".to_string(),
        title: "Lamp".to_string(),
        price: "Free".to_string(),
        url: "https://example.com/l".to_string(),
        first_seen: 0,
        last_checked: 0,
    };
    let item = feed_item(&e);
    assert_eq!(item.title, "Lamp - Free");
    assert_eq!(item.description, "Price: Free | Title: Lamp");
    assert_eq!(item.link, "https://example.com/l");
    assert_eq!(item.guid, "x1");
    assert!(!item.guid_is_permalink);
    assert_eq!(item.pub_date.as_deref(), Some("Thu, 1 Jan 1970 00:00:00 +0000"));
}

#[test]
fn instants_outside_years_0_to_9999_have_no_date() {
    assert_eq!(date_text(i64::MAX), None);
    assert_eq!(date_text(i64::MIN), None);
    assert_eq!(date_text(RFC2822_MAX_SECS + 1), None);
    assert_eq!(date_text(RFC2822_MAX_SECS).as_deref(), Some("Fri, 31 Dec 9999 23:59:59 +0000"));
    assert!(date_text(RFC2822_MIN_SECS).is_some());
    let entries = vec![AdEntry {
        ad_id: "far".to_string(),
        title: "T".to_string(),
        price: "$1".to_string(),
        url: "u".to_string(),
        first_seen: i64::MAX,
        last_checked: i64::MAX,
    }];
    let xml = generate_rss(&entries, "h", u16::MAX, i64::MAX);
    assert!(xml.contains("http://h:65535/rss"));
    assert!(!xml.contains("<pubDate>"));
}
