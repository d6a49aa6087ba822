//! Turning a fetched listing page into ad candidates
//! `(identity, title, price, canonical URL)`.

use vstd::prelude::*;
use vstd::string::{StrSliceExecFns, StringExecFns};

use crate::cycle::{get_ad_hash, md5_hex};
use crate::strmap::StrMap;
use crate::text::{contains_text, is_substring, lower_of, lowercase};

verus! {

/// CSS selector of the anchors that link to a listing.
pub const AD_LINK_SELECTOR: &'static str = "a[href^='/marketplace/item/']";

/// CSS selector, inside an anchor, of the title.
pub const TITLE_SELECTOR: &'static str = "span[style*='-webkit-line-clamp']";

/// CSS selector, inside an anchor, of the price.
pub const PRICE_SELECTOR: &'static str = "span[dir='auto']";

/// Attribute of an anchor that holds the listing path.
pub const LINK_ATTRIBUTE: &'static str = "href";

/// Origin that listing paths are relative to.
pub const SITE_ORIGIN: &'static str = "https://facebook.com";

/// Text read from one listing anchor: its link attribute and the text of its
/// first title and first price element, each when present.
pub struct AnchorFields {
    pub href: Option<String>,
    pub title: Option<String>,
    pub price: Option<String>,
}

pub open spec fn opt_view(o: Option<String>) -> Option<Seq<char>> {
    match o {
        Some(s) => Some(s@),
        None => None,
    }
}

pub open spec fn anchor_view(a: AnchorFields) -> (Option<Seq<char>>, Option<Seq<char>>, Option<Seq<char>>) {
    (opt_view(a.href), opt_view(a.title), opt_view(a.price))
}

/// For each element of `html` matching `link_sel`, in document order: the
/// value of its attribute `attr`, and the concatenated text of its first
/// descendant matching `title_sel` and of its first descendant matching
/// `price_sel`. `None` when a selector does not parse.
pub uninterp spec fn page_anchors(
    html: Seq<char>,
    link_sel: Seq<char>,
    attr: Seq<char>,
    title_sel: Seq<char>,
    price_sel: Seq<char>,
) -> Option<Seq<(Option<Seq<char>>, Option<Seq<char>>, Option<Seq<char>>)>>;

/// Relies on `scraper::Html::parse_document`, `scraper::Selector::parse`,
/// `Html::select`, `ElementRef::select`, `ElementRef::attr` and
/// `ElementRef::text`, which read a page the same way for the same text.
#[verifier::external_body]
fn select_anchors(html: &str, link_sel: &str, attr: &str, title_sel: &str, price_sel: &str) -> (r:
    Option<Vec<AnchorFields>>)
    ensures
        match r {
            None => page_anchors(html@, link_sel@, attr@, title_sel@, price_sel@) is None,
            Some(v) => page_anchors(html@, link_sel@, attr@, title_sel@, price_sel@) == Some(
                v@.map_values(|a: AnchorFields| anchor_view(a)),
            ),
        },
{
    let doc = scraper::Html::parse_document(html);
    let (Ok(l), Ok(t), Ok(p)) = (scraper::Selector::parse(link_sel), scraper::Selector::parse(title_sel), scraper::Selector::parse(price_sel)) else {
        return None;
    };
    Some(doc.select(&l).map(|a| AnchorFields {
        href: a.value().attr(attr).map(|h| h.to_string()),
        title: a.select(&t).next().map(|e| e.text().collect()),
        price: a.select(&p).next().map(|e| e.text().collect()),
    }).collect())
}

/// What `str::trim` returns: the text without leading and trailing white
/// space.
pub uninterp spec fn trimmed(s: Seq<char>) -> Seq<char>;

/// Relies on `str::trim`: the result depends on the characters alone.
#[verifier::external_body]
fn trim_text(s: &str) -> (r: String)
    ensures
        r@ == trimmed(s@),
{
    s.trim().to_string()
}

/// `prefix` is a prefix of `s`.
pub open spec fn has_prefix(s: Seq<char>, prefix: Seq<char>) -> bool {
    prefix.len() <= s.len() && s.subrange(0, prefix.len() as int) == prefix
}

/// Whether `prefix` is a prefix of `s`.
fn starts_with_text(s: &str, prefix: &str) -> (r: bool)
    ensures
        r == has_prefix(s@, prefix@),
{
    let n = prefix.unicode_len();
    let m = s.unicode_len();
    if n > m {
        return false;
    }
    let mut i: usize = 0;
    while i < n
        invariant
            n == prefix@.len(),
            m == s@.len(),
            n <= m,
            0 <= i <= n,
            forall|j: int| 0 <= j < i ==> s@[j] == prefix@[j],
        decreases n - i,
    {
        if s.get_char(i) != prefix.get_char(i) {
            assert(s@.subrange(0, n as int)[i as int] == s@[i as int]);
            return false;
        }
        i = i + 1;
    }
    assert(s@.subrange(0, n as int) =~= prefix@);
    true
}

/// `i` is where the query of `h` starts: the first `?`, or the end.
pub open spec fn is_query_start(h: Seq<char>, i: int) -> bool {
    &&& 0 <= i <= h.len()
    &&& i < h.len() ==> h[i] == '?'
    &&& forall|j: int| 0 <= j < i ==> h[j] != '?'
}

/// `h` without its query (everything from the first `?`).
pub open spec fn without_query(h: Seq<char>) -> Seq<char> {
    h.take(choose|i: int| is_query_start(h, i))
}

proof fn lemma_query_start(h: Seq<char>, i: int)
    requires
        is_query_start(h, i),
    ensures
        without_query(h) == h.take(i),
{
    let c = choose|i: int| is_query_start(h, i);
    assert(is_query_start(h, c));
    if c < i {
        assert(h[c] == '?');
    } else if i < c {
        assert(h[i] == '?');
    }
}

/// A price is accepted when it starts with the currency symbol or, once
/// lower-cased, mentions "free".
pub open spec fn price_accepted(price: Seq<char>, currency: Seq<char>) -> bool {
    has_prefix(price, currency) || is_substring("free"@, lower_of(price))
}

/// The canonical URL of a listing path.
pub open spec fn listing_url(href: Seq<char>) -> Seq<char> {
    SITE_ORIGIN@ + without_query(href)
}

pub open spec fn candidate_view(c: (String, String, String, String)) -> (
    Seq<char>,
    Seq<char>,
    Seq<char>,
    Seq<char>,
) {
    (c.0@, c.1@, c.2@, c.3@)
}

/// The candidates of `anchors`, given the canonical URLs already `seen`.
/// Each anchor with a link yields its canonical URL; a URL seen before is
/// skipped. An anchor with a title and an accepted price yields
/// `(md5_hex(url), trimmed title, trimmed price, url)`.
pub open spec fn candidates(
    anchors: Seq<(Option<Seq<char>>, Option<Seq<char>>, Option<Seq<char>>)>,
    currency: Seq<char>,
    seen: Set<Seq<char>>,
) -> Seq<(Seq<char>, Seq<char>, Seq<char>, Seq<char>)>
    decreases anchors.len(),
{
    if anchors.len() == 0 {
        seq![]
    } else {
        let a = anchors[0];
        let rest = anchors.drop_first();
        match a.0 {
            None => candidates(rest, currency, seen),
            Some(h) => {
                let u = listing_url(h);
                if seen.contains(u) {
                    candidates(rest, currency, seen)
                } else {
                    let tail = candidates(rest, currency, seen.insert(u));
                    if a.1 is Some && a.2 is Some && price_accepted(trimmed(a.2->0), currency) {
                        seq![(md5_hex(u), trimmed(a.1->0), trimmed(a.2->0), u)] + tail
                    } else {
                        tail
                    }
                }
            },
        }
    }
}

/// The candidates of a page, or none when the page cannot be read.
pub open spec fn page_candidates(html: Seq<char>, currency: Seq<char>) -> Seq<
    (Seq<char>, Seq<char>, Seq<char>, Seq<char>),
> {
    match page_anchors(html, AD_LINK_SELECTOR@, LINK_ATTRIBUTE@, TITLE_SELECTOR@, PRICE_SELECTOR@) {
        Some(anchors) => candidates(anchors, currency, Set::empty()),
        None => seq![],
    }
}

/// `href` without its query.
fn strip_query(href: &str) -> (r: String)
    ensures
        r@ == without_query(href@),
{
    let n = href.unicode_len();
    let mut i: usize = 0;
    while i < n && href.get_char(i) != '?'
        invariant
            n == href@.len(),
            0 <= i <= n,
            forall|j: int| 0 <= j < i ==> href@[j] != '?',
        decreases n - i,
    {
        i = i + 1;
    }
    proof {
        lemma_query_start(href@, i as int);
    }
    String::from_str(href.substring_char(0, i))
}

/// The ad candidates of a page, in page order, each canonical URL once,
/// keeping only those priced in `currency` or offered for free.
pub fn extract_ads(html_content: &str, currency: &str) -> (r: Vec<(String, String, String, String)>)
    ensures
        r@.map_values(|c: (String, String, String, String)| candidate_view(c)) == page_candidates(
            html_content@,
            currency@,
        ),
{
    let anchors = match select_anchors(
        html_content,
        AD_LINK_SELECTOR,
        LINK_ATTRIBUTE,
        TITLE_SELECTOR,
        PRICE_SELECTOR,
    ) {
        Some(a) => a,
        None => {
            let r: Vec<(String, String, String, String)> = Vec::new();
            assert(r@.map_values(|c: (String, String, String, String)| candidate_view(c)) =~= seq![]);
            return r;
        },
    };
    let ghost av = anchors@.map_values(|a: AnchorFields| anchor_view(a));
    let ghost whole = candidates(av, currency@, Set::empty());
    let mut out: Vec<(String, String, String, String)> = Vec::new();
    let mut seen: StrMap<()> = StrMap::new();
    let mut i: usize = 0;
    assert(av.skip(0) =~= av);
    assert(seen@.dom() =~= Set::<Seq<char>>::empty());
    while i < anchors.len()
        invariant
            0 <= i <= anchors@.len(),
            av == anchors@.map_values(|a: AnchorFields| anchor_view(a)),
            whole == candidates(av, currency@, Set::empty()),
            whole == out@.map_values(|c: (String, String, String, String)| candidate_view(c))
                + candidates(av.skip(i as int), currency@, seen@.dom()),
        decreases anchors@.len() - i,
    {
        let ghost rest = av.skip(i as int);
        let ghost before = out@.map_values(|c: (String, String, String, String)| candidate_view(c));
        assert(rest[0] == anchor_view(anchors@[i as int]));
        assert(rest.drop_first() =~= av.skip(i + 1));
        let a = &anchors[i];
        match &a.href {
            None => {},
            Some(h) => {
                let path = strip_query(h.as_str());
                let url = String::from_str(SITE_ORIGIN).concat(path.as_str());
                if !seen.contains_key(url.as_str()) {
                    let ghost seen_before = seen@.dom();
                    seen.insert(url.clone(), ());
                    assert(seen@.dom() =~= seen_before.insert(url@));
                    match (&a.title, &a.price) {
                        (Some(t), Some(p)) => {
                            let title = trim_text(t.as_str());
                            let price = trim_text(p.as_str());
                            let free = contains_text(lowercase(price.as_str()).as_str(), "free");
                            if starts_with_text(price.as_str(), currency) || free {
                                let id = get_ad_hash(url.as_str());
                                out.push((id, title, price, url));
                                assert(out@.map_values(
                                    |c: (String, String, String, String)| candidate_view(c),
                                ) =~= before.push(candidate_view(out@[out@.len() - 1])));
                            }
                        },
                        _ => {},
                    }
                }
            },
        }
        i = i + 1;
    }
    assert(av.skip(i as int) =~= Seq::<(Option<Seq<char>>, Option<Seq<char>>, Option<Seq<char>>)>::empty());
    assert(out@.map_values(|c: (String, String, String, String)| candidate_view(c)) =~= whole);
    out
}

} // verus!
