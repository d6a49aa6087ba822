//! Hierarchical keyword filters: AND across levels, OR within a level.

use vstd::prelude::*;
use vstd::string::StrSliceExecFns;

use crate::sorted::{lemma_insert_sorted, sorted_by};
use crate::strmap::StrMap;
use crate::text::{contains_text, is_substring, lower_of, lowercase};

verus! {

/// Level name to its ordered keyword list.
pub type LevelFilters = StrMap<Vec<String>>;

/// Source URL to its levels.
pub type UrlFilters = StrMap<LevelFilters>;

pub open spec fn level_prefix() -> Seq<char> {
    seq!['l', 'e', 'v', 'e', 'l']
}

pub open spec fn is_ascii_digit(c: char) -> bool {
    '0' <= c && c <= '9'
}

/// A level name: `level` followed by one or more ASCII digits. Any other
/// name is ignored by the evaluator.
pub open spec fn is_level_name(n: Seq<char>) -> bool {
    &&& n.len() > 5
    &&& n.subrange(0, 5) == level_prefix()
    &&& forall|i: int| 5 <= i < n.len() ==> #[trigger] is_ascii_digit(n[i])
}

/// The decimal value of a run of digits.
pub open spec fn digits_value(s: Seq<char>) -> nat
    decreases s.len(),
{
    if s.len() == 0 {
        0
    } else {
        digits_value(s.drop_last()) * 10 + ((s.last() as u32) - ('0' as u32)) as nat
    }
}

/// The number a level is ordered by: its digits read as a `u32`, or 0 when
/// they do not fit.
pub open spec fn level_rank(n: Seq<char>) -> u32 {
    let suffix = n.subrange(5, n.len() as int);
    if digits_value(suffix) <= u32::MAX {
        digits_value(suffix) as u32
    } else {
        0
    }
}

/// A level is satisfied when it has no keywords or one of them occurs in the
/// lower-cased title once lower-cased itself.
pub open spec fn level_satisfied(title_lower: Seq<char>, keywords: Seq<String>) -> bool {
    keywords.len() == 0 || exists|j: int|
        0 <= j < keywords.len() && is_substring(lower_of(#[trigger] keywords[j]@), title_lower)
}

/// Every level of `levels` is satisfied by `title`.
pub open spec fn levels_pass(levels: Map<Seq<char>, Vec<String>>, title: Seq<char>) -> bool {
    forall|name: Seq<char>|
        #![trigger levels.contains_key(name)]
        levels.contains_key(name) && is_level_name(name) ==> level_satisfied(
            lower_of(title),
            levels[name]@,
        )
}

/// A title found on the page of `url` passes the configured filters: a URL
/// with no entry is unfiltered.
pub open spec fn passes_filters(
    filters: Map<Seq<char>, LevelFilters>,
    url: Seq<char>,
    title: Seq<char>,
) -> bool {
    filters.contains_key(url) ==> levels_pass(filters[url]@, title)
}

/// `Some(rank)` when `name` is a level name, with the rank it is ordered by;
/// `None` for any other name.
pub fn parse_level_name(name: &str) -> (r: Option<u32>)
    ensures
        r is Some <==> is_level_name(name@),
        r matches Some(rank) ==> rank == level_rank(name@),
{
    let n = name.unicode_len();
    if n <= 5 {
        return None;
    }
    if name.get_char(0) != 'l' || name.get_char(1) != 'e' || name.get_char(2) != 'v'
        || name.get_char(3) != 'e' || name.get_char(4) != 'l' {
        proof {
            if is_level_name(name@) {
                assert(name@.subrange(0, 5)[0] == name@[0]);
                assert(name@.subrange(0, 5)[1] == name@[1]);
                assert(name@.subrange(0, 5)[2] == name@[2]);
                assert(name@.subrange(0, 5)[3] == name@[3]);
                assert(name@.subrange(0, 5)[4] == name@[4]);
            }
        }
        return None;
    }
    assert(name@.subrange(0, 5) =~= level_prefix());
    let ghost s = name@;
    let mut value: u64 = 0;
    let mut overflow = false;
    let mut i: usize = 5;
    while i < n
        invariant
            n == s.len(),
            s == name@,
            5 <= i <= n,
            forall|j: int| 5 <= j < i ==> #[trigger] is_ascii_digit(s[j]),
            !overflow ==> value == digits_value(s.subrange(5, i as int)),
            overflow ==> digits_value(s.subrange(5, i as int)) > u32::MAX,
            value <= u32::MAX,
        decreases n - i,
    {
        let c = name.get_char(i);
        if !('0' <= c && c <= '9') {
            assert(!is_ascii_digit(s[i as int]));
            return None;
        }
        let d = (c as u32 - '0' as u32) as u64;
        let ghost prev = s.subrange(5, i as int);
        let ghost next = s.subrange(5, i + 1);
        assert(next.drop_last() =~= prev);
        assert(next.last() == c);
        if !overflow {
            let v = value * 10 + d;
            if v > u32::MAX as u64 {
                overflow = true;
            } else {
                value = v;
            }
        }
        i = i + 1;
    }
    assert(s.subrange(5, n as int) =~= s.subrange(5, s.len() as int));
    if overflow {
        Some(0)
    } else {
        Some(value as u32)
    }
}

/// The positions (in key order) of the level names of `levels`, each once,
/// ordered by rank; levels of equal rank keep their key order.
pub fn ordered_levels(levels: &LevelFilters) -> (r: Vec<usize>)
    ensures
        r@.no_duplicates(),
        forall|m: int|
            0 <= m < r@.len() ==> #[trigger] r@[m] < levels.keys().len() && is_level_name(
                levels.keys()[r@[m] as int],
            ),
        forall|i: int|
            0 <= i < levels.keys().len() && is_level_name(levels.keys()[i]) ==> r@.contains(
                i as usize,
            ),
        forall|a: int, b: int|
            0 <= a < b < r@.len() ==> level_rank(levels.keys()[r@[a] as int]) <= level_rank(
                levels.keys()[r@[b] as int],
            ),
        forall|a: int, b: int|
            0 <= a < b < r@.len() && level_rank(levels.keys()[r@[a] as int]) == level_rank(
                levels.keys()[r@[b] as int],
            ) ==> r@[a] < r@[b],
{
    let n = levels.len();
    let ghost ks = levels.keys();
    let mut order: Vec<usize> = Vec::new();
    let mut ranks: Vec<u32> = Vec::new();
    let mut i: usize = 0;
    while i < n
        invariant
            n == ks.len(),
            ks == levels.keys(),
            0 <= i <= n,
            ranks@.len() == order@.len(),
            order@.no_duplicates(),
            forall|m: int|
                0 <= m < order@.len() ==> #[trigger] order@[m] < i && is_level_name(
                    ks[order@[m] as int],
                ) && ranks@[m] == level_rank(ks[order@[m] as int]),
            forall|j: int| 0 <= j < i && is_level_name(ks[j]) ==> order@.contains(j as usize),
            forall|a: int, b: int| 0 <= a < b < ranks@.len() ==> ranks@[a] <= ranks@[b],
            forall|a: int, b: int|
                0 <= a < b < ranks@.len() && ranks@[a] == ranks@[b] ==> order@[a] < order@[b],
        decreases n - i,
    {
        match parse_level_name(levels.key_at(i).as_str()) {
            None => {},
            Some(rank) => {
                let mut p: usize = 0;
                while p < ranks.len() && ranks[p] <= rank
                    invariant
                        0 <= p <= ranks@.len(),
                        forall|m: int| 0 <= m < p ==> ranks@[m] <= rank,
                    decreases ranks@.len() - p,
                {
                    p = p + 1;
                }
                let ghost old_order = order@;
                let ghost old_ranks = ranks@;
                order.insert(p, i);
                ranks.insert(p, rank);
                proof {
                    assert forall|m: int| 0 <= m < order@.len() implies #[trigger] order@[m] < i + 1
                        && is_level_name(ks[order@[m] as int]) && ranks@[m] == level_rank(
                        ks[order@[m] as int],
                    ) by {
                        if m < p {
                            assert(order@[m] == old_order[m]);
                        } else if m > p {
                            assert(order@[m] == old_order[m - 1]);
                        }
                    }
                    let key = |r: u32| r as int;
                    assert(sorted_by(old_ranks, key));
                    lemma_insert_sorted(old_ranks, p as int, rank, key);
                    assert(ranks@ == old_ranks.insert(p as int, rank));
                    assert forall|a: int, b: int| 0 <= a < b < ranks@.len() implies ranks@[a]
                        <= ranks@[b] by {
                        assert(key(ranks@[a]) <= key(ranks@[b]));
                    }
                    assert forall|a: int, b: int|
                        0 <= a < b < ranks@.len() && ranks@[a] == ranks@[b] implies order@[a]
                        < order@[b] by {
                        if b < p {
                            assert(order@[a] == old_order[a] && order@[b] == old_order[b]);
                            assert(ranks@[a] == old_ranks[a] && ranks@[b] == old_ranks[b]);
                        } else if b == p {
                            assert(order@[a] == old_order[a]);
                        } else if a == p {
                            assert(key(ranks@[b]) == key(rank));
                        } else if a < p {
                            assert(key(ranks@[b]) == key(rank) ==> b < p);
                            assert(ranks@[a] <= rank);
                            assert(order@[a] == old_order[a] && order@[b] == old_order[b - 1]);
                            assert(key(ranks@[a]) <= key(ranks@[p as int]));
                        } else {
                            assert(order@[a] == old_order[a - 1] && order@[b] == old_order[b - 1]);
                            assert(ranks@[a] == old_ranks[a - 1] && ranks@[b] == old_ranks[b - 1]);
                        }
                    }
                    assert forall|a: int, b: int|
                        0 <= a < order@.len() && 0 <= b < order@.len() && a != b implies order@[a]
                        != order@[b] by {
                        if a != p && b != p {
                            let a0 = if a < p { a } else { a - 1 };
                            let b0 = if b < p { b } else { b - 1 };
                            assert(order@[a] == old_order[a0]);
                            assert(order@[b] == old_order[b0]);
                        }
                    }
                    assert forall|j: int| 0 <= j < i + 1 && is_level_name(ks[j]) implies order@.contains(
                        j as usize,
                    ) by {
                        if j == i {
                            assert(order@[p as int] == i);
                        } else {
                            let m = choose|m: int| 0 <= m < old_order.len() && old_order[m] == j as usize;
                            if m < p {
                                assert(order@[m] == j as usize);
                            } else {
                                assert(order@[m + 1] == j as usize);
                            }
                        }
                    }
                }
            },
        }
        i = i + 1;
    }
    order
}

/// Whether one of `keywords`, lower-cased, occurs in `title_lower`.
pub fn any_keyword_in(title_lower: &str, keywords: &Vec<String>) -> (r: bool)
    ensures
        r == exists|j: int|
            0 <= j < keywords@.len() && is_substring(lower_of(#[trigger] keywords@[j]@), title_lower@),
{
    let mut j: usize = 0;
    while j < keywords.len()
        invariant
            0 <= j <= keywords@.len(),
            forall|m: int|
                0 <= m < j ==> !is_substring(lower_of(#[trigger] keywords@[m]@), title_lower@),
        decreases keywords@.len() - j,
    {
        let kw = lowercase(keywords[j].as_str());
        if contains_text(title_lower, kw.as_str()) {
            return true;
        }
        j = j + 1;
    }
    false
}

/// Whether a candidate titled `title`, found on the page of `url`, passes the
/// filters configured for that URL. Levels are checked in rank order and the
/// first unsatisfied level rejects the candidate.
pub fn apply_filters(url_filters: &UrlFilters, url: &str, title: &str) -> (r: bool)
    ensures
        r == passes_filters(url_filters@, url@, title@),
{
    let filters = match url_filters.get(url) {
        Some(f) => f,
        None => return true,
    };
    let n = filters.len();
    if filters.is_empty() {
        return true;
    }
    let order = ordered_levels(filters);
    if order.len() == 0 {
        assert forall|name: Seq<char>| filters@.contains_key(name) implies !is_level_name(name) by {
            let i = filters.keys().index_of(name);
            assert(filters.keys()[i] == name);
            if is_level_name(name) {
                assert(order@.contains(i as usize));
            }
        }
        return true;
    }
    let title_lower = lowercase(title);
    let ghost ks = filters.keys();
    let mut k: usize = 0;
    while k < order.len()
        invariant
            0 <= k <= order@.len(),
            ks == filters.keys(),
            url_filters@.contains_key(url@),
            url_filters@[url@] == *filters,
            title_lower@ == lower_of(title@),
            forall|m: int|
                0 <= m < order@.len() ==> #[trigger] order@[m] < ks.len() && is_level_name(
                    ks[order@[m] as int],
                ),
            forall|i: int| 0 <= i < ks.len() ==> #[trigger] filters@.contains_key(ks[i]),
            forall|m: int|
                0 <= m < k ==> level_satisfied(
                    lower_of(title@),
                    filters@[ks[#[trigger] order@[m] as int]]@,
                ),
        decreases order@.len() - k,
    {
        let kws = filters.value_at(order[k]);
        if kws.len() > 0 {
            if !any_keyword_in(title_lower.as_str(), kws) {
                proof {
                    let name = ks[order@[k as int] as int];
                    assert(filters@.contains_key(name) && is_level_name(name));
                    assert(!level_satisfied(lower_of(title@), filters@[name]@));
                }
                return false;
            }
        }
        k = k + 1;
    }
    proof {
        assert forall|name: Seq<char>|
            #![trigger filters@.contains_key(name)]
            filters@.contains_key(name) && is_level_name(name) implies level_satisfied(
            lower_of(title@),
            filters@[name]@,
        ) by {
            let i = ks.index_of(name);
            assert(ks[i] == name);
            assert(order@.contains(i as usize));
            let m = choose|m: int| 0 <= m < order@.len() && order@[m] == i as usize;
            assert(order@[m] == i as usize);
        }
    }
    true
}

/// A title in which no keyword of some non-empty level occurs (both sides
/// lower-cased) is rejected, whatever the other levels hold.
pub proof fn lemma_missing_keyword_rejects(
    filters: Map<Seq<char>, LevelFilters>,
    url: Seq<char>,
    title: Seq<char>,
    name: Seq<char>,
)
    requires
        filters.contains_key(url),
        filters[url]@.contains_key(name),
        is_level_name(name),
        filters[url]@[name]@.len() > 0,
        forall|j: int|
            0 <= j < filters[url]@[name]@.len() ==> !is_substring(
                lower_of(#[trigger] filters[url]@[name]@[j]@),
                lower_of(title),
            ),
    ensures
        !passes_filters(filters, url, title),
{
    assert(filters[url]@.contains_key(name));
}

/// A title that, for every non-empty level, contains one of its keywords
/// (both sides lower-cased) passes.
pub proof fn lemma_every_level_hit_passes(
    filters: Map<Seq<char>, LevelFilters>,
    url: Seq<char>,
    title: Seq<char>,
)
    requires
        forall|name: Seq<char>|
            #![trigger filters[url]@.contains_key(name)]
            filters.contains_key(url) && filters[url]@.contains_key(name) && is_level_name(name)
                && filters[url]@[name]@.len() > 0 ==> exists|j: int|
                0 <= j < filters[url]@[name]@.len() && is_substring(
                    lower_of(#[trigger] filters[url]@[name]@[j]@),
                    lower_of(title),
                ),
    ensures
        passes_filters(filters, url, title),
{
}

/// A URL with no filter entry, or whose entry has no levels, passes every
/// title.
pub proof fn lemma_unfiltered_passes(
    filters: Map<Seq<char>, LevelFilters>,
    url: Seq<char>,
    title: Seq<char>,
)
    requires
        !filters.contains_key(url) || filters[url]@ == Map::<Seq<char>, Vec<String>>::empty(),
    ensures
        passes_filters(filters, url, title),
{
}

} // verus!
