//! Rendering recent listings as a syndication (RSS) document.

use vstd::prelude::*;
use vstd::string::StringExecFns;

use crate::store::AdEntry;

verus! {

/// Title of the feed.
pub const FEED_TITLE: &'static str = "Facebook Marketplace Ad Feed";

/// Description of the feed.
pub const FEED_DESCRIPTION: &'static str = "An RSS feed to monitor new ads on Facebook Marketplace";

/// One entry of the feed.
pub struct FeedItem {
    pub title: String,
    pub link: String,
    pub description: String,
    pub guid: String,
    pub guid_is_permalink: bool,
    pub pub_date: Option<String>,
}

/// Document-level fields of the feed.
pub struct FeedMeta {
    pub title: String,
    pub link: String,
    pub description: String,
    pub last_build_date: Option<String>,
}

pub open spec fn opt_text(o: Option<String>) -> Option<Seq<char>> {
    match o {
        Some(s) => Some(s@),
        None => None,
    }
}

pub open spec fn item_view(i: FeedItem) -> (
    Seq<char>,
    Seq<char>,
    Seq<char>,
    Seq<char>,
    bool,
    Option<Seq<char>>,
) {
    (i.title@, i.link@, i.description@, i.guid@, i.guid_is_permalink, opt_text(i.pub_date))
}

pub open spec fn meta_view(m: FeedMeta) -> (Seq<char>, Seq<char>, Seq<char>, Option<Seq<char>>) {
    (m.title@, m.link@, m.description@, opt_text(m.last_build_date))
}

/// The XML text of an RSS 2.0 channel with the given fields and items.
pub uninterp spec fn channel_xml(
    meta: (Seq<char>, Seq<char>, Seq<char>, Option<Seq<char>>),
    items: Seq<(Seq<char>, Seq<char>, Seq<char>, Seq<char>, bool, Option<Seq<char>>)>,
) -> Seq<char>;

/// Relies on `rss::Channel`'s `Display` (its `write_to` into a buffer) for
/// a channel holding these fields and items, every other field left at its
/// default.
#[verifier::external_body]
fn render_channel(meta: &FeedMeta, items: &Vec<FeedItem>) -> (r: String)
    ensures
        r@ == channel_xml(meta_view(*meta), items@.map_values(|i: FeedItem| item_view(i))),
{
    let items = items.iter().map(|i| rss::Item {
        title: Some(i.title.clone()), link: Some(i.link.clone()),
        description: Some(i.description.clone()), pub_date: i.pub_date.clone(),
        guid: Some(rss::Guid { value: i.guid.clone(), permalink: i.guid_is_permalink }),
        ..Default::default()
    }).collect();
    rss::Channel {
        title: meta.title.clone(), link: meta.link.clone(), description: meta.description.clone(),
        last_build_date: meta.last_build_date.clone(), items, ..Default::default()
    }.to_string()
}

/// First second of year 0 (UTC), in seconds since the Unix epoch.
pub const RFC2822_MIN_SECS: i64 = -62167219200;

/// Last second of year 9999 (UTC), in seconds since the Unix epoch.
pub const RFC2822_MAX_SECS: i64 = 253402300799;

/// The RFC 2822 rendering (in UTC) of the instant `secs` seconds after the
/// Unix epoch, as chrono writes it.
pub uninterp spec fn rfc2822_utc(secs: int) -> Seq<char>;

/// Relies on `chrono::DateTime::<Utc>::from_timestamp` (which covers every
/// instant of years 0 to 9999) and `DateTime::to_rfc2822` (which panics
/// outside those years).
#[verifier::external_body]
fn rfc2822_text(secs: i64) -> (r: Option<String>)
    requires
        RFC2822_MIN_SECS <= secs <= RFC2822_MAX_SECS,
    ensures
        opt_text(r) == Some(rfc2822_utc(secs as int)),
{
    chrono::DateTime::<chrono::Utc>::from_timestamp(secs, 0).map(|t| t.to_rfc2822())
}

/// The publication date of an instant: its RFC 2822 rendering, or none for
/// an instant outside years 0 to 9999.
pub open spec fn rfc2822_date(secs: i64) -> Option<Seq<char>> {
    if RFC2822_MIN_SECS <= secs <= RFC2822_MAX_SECS {
        Some(rfc2822_utc(secs as int))
    } else {
        None
    }
}

/// See `rfc2822_date`.
pub fn date_text(secs: i64) -> (r: Option<String>)
    ensures
        opt_text(r) == rfc2822_date(secs),
{
    if RFC2822_MIN_SECS <= secs && secs <= RFC2822_MAX_SECS {
        rfc2822_text(secs)
    } else {
        None
    }
}

pub open spec fn digit_chars() -> Seq<char> {
    seq!['0', '1', '2', '3', '4', '5', '6', '7', '8', '9']
}

/// Decimal digits of `n`, most significant first, without sign or padding.
pub open spec fn decimal(n: nat) -> Seq<char>
    decreases n,
{
    if n < 10 {
        seq![digit_chars()[n as int]]
    } else {
        decimal(n / 10) + seq![digit_chars()[(n % 10) as int]]
    }
}

/// Relies on the `Display` of `u64` (via `to_string`): its decimal digits.
#[verifier::external_body]
fn decimal_text(n: u64) -> (r: String)
    ensures
        r@ == decimal(n as nat),
{
    n.to_string()
}

/// The feed entry of a listing.
pub open spec fn entry_item(e: AdEntry) -> (
    Seq<char>,
    Seq<char>,
    Seq<char>,
    Seq<char>,
    bool,
    Option<Seq<char>>,
) {
    (
        e.title@ + " - "@ + e.price@,
        e.url@,
        "Price: "@ + e.price@ + " | Title: "@ + e.title@,
        e.ad_id@,
        false,
        rfc2822_date(e.last_checked),
    )
}

/// The link of the feed itself.
pub open spec fn feed_link(server_ip: Seq<char>, server_port: u16) -> Seq<char> {
    "http://"@ + server_ip + ":"@ + decimal(server_port as nat) + "/rss"@
}

/// Document-level fields of the feed served at `server_ip:server_port` and
/// built at `now`.
pub open spec fn feed_meta(server_ip: Seq<char>, server_port: u16, now: i64) -> (
    Seq<char>,
    Seq<char>,
    Seq<char>,
    Option<Seq<char>>,
) {
    (FEED_TITLE@, feed_link(server_ip, server_port), FEED_DESCRIPTION@, rfc2822_date(now))
}

/// The feed entry of a listing: title `"{title} - {price}"`, the listing URL
/// as link, a price and title summary, the identity as non-permalink guid,
/// and the last check as publication date.
pub fn feed_item(e: &AdEntry) -> (r: FeedItem)
    ensures
        item_view(r) == entry_item(*e),
{
    FeedItem {
        title: e.title.clone().concat(" - ").concat(e.price.as_str()),
        link: e.url.clone(),
        description: String::from_str("Price: ").concat(e.price.as_str()).concat(
            " | Title: ",
        ).concat(e.title.as_str()),
        guid: e.ad_id.clone(),
        guid_is_permalink: false,
        pub_date: date_text(e.last_checked),
    }
}

/// The feed of `entries`, in their order, served at
/// `server_ip:server_port` and built at `now` (seconds since the epoch).
pub fn generate_rss(entries: &Vec<AdEntry>, server_ip: &str, server_port: u16, now: i64) -> (r:
    String)
    ensures
        r@ == channel_xml(
            feed_meta(server_ip@, server_port, now),
            entries@.map_values(|e: AdEntry| entry_item(e)),
        ),
{
    let mut items: Vec<FeedItem> = Vec::new();
    let mut i: usize = 0;
    while i < entries.len()
        invariant
            0 <= i <= entries@.len(),
            items@.len() == i,
            forall|j: int| 0 <= j < i ==> item_view(#[trigger] items@[j]) == entry_item(entries@[j]),
        decreases entries@.len() - i,
    {
        items.push(feed_item(&entries[i]));
        i = i + 1;
    }
    let link = String::from_str("http://").concat(server_ip).concat(":").concat(
        decimal_text(server_port as u64).as_str(),
    ).concat("/rss");
    let meta = FeedMeta {
        title: String::from_str(FEED_TITLE),
        link,
        description: String::from_str(FEED_DESCRIPTION),
        last_build_date: date_text(now),
    };
    assert(items@.map_values(|it: FeedItem| item_view(it)) =~= entries@.map_values(
        |e: AdEntry| entry_item(e),
    ));
    render_channel(&meta, &items)
}

} // verus!
