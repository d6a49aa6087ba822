//! The deduplicating listing table: upsert by identity, pruning by age and
//! the time-windowed query that feeds the publisher.
//!
//! Times are whole seconds since the Unix epoch (UTC).

use vstd::prelude::*;

use crate::sorted::{lemma_insert_sorted, sorted_by};
use crate::strmap::StrMap;

verus! {

/// Seconds in a day.
pub const SECS_PER_DAY: i64 = 86400;

/// One listing.
#[derive(Debug, Clone, PartialEq)]
pub struct AdEntry {
    pub ad_id: String,
    pub title: String,
    pub price: String,
    pub url: String,
    pub first_seen: i64,
    pub last_checked: i64,
}

impl AdEntry {
    /// A field-by-field copy.
    pub fn duplicate(&self) -> (r: AdEntry)
        ensures
            r == *self,
    {
        AdEntry {
            ad_id: self.ad_id.clone(),
            title: self.title.clone(),
            price: self.price.clone(),
            url: self.url.clone(),
            first_seen: self.first_seen,
            last_checked: self.last_checked,
        }
    }
}

/// The row stored after a sighting `e`, given the row stored before, if any.
/// A new row is first seen and last checked at the sighting time
/// (`e.last_checked`). A known row takes the new title and price, keeps its
/// identity, URL and first sighting, and is last checked at the sighting
/// time.
pub open spec fn sighted(stored: Option<AdEntry>, e: AdEntry) -> AdEntry {
    match stored {
        None => AdEntry {
            ad_id: e.ad_id,
            title: e.title,
            price: e.price,
            url: e.url,
            first_seen: e.last_checked,
            last_checked: e.last_checked,
        },
        Some(s) => AdEntry {
            ad_id: s.ad_id,
            title: e.title,
            price: e.price,
            url: s.url,
            first_seen: s.first_seen,
            last_checked: e.last_checked,
        },
    }
}

/// The table after upserting `e`.
pub open spec fn upserted(m: Map<Seq<char>, AdEntry>, e: AdEntry) -> Map<Seq<char>, AdEntry> {
    let stored = if m.contains_key(e.ad_id@) {
        Some(m[e.ad_id@])
    } else {
        None
    };
    m.insert(e.ad_id@, sighted(stored, e))
}

/// The start of a window of `days` days that ends at `now`.
pub open spec fn cutoff(now: i64, days: i64) -> int {
    now - days * SECS_PER_DAY
}

/// The start of the window of `days` days that ends at `now`.
pub fn window_start(now: i64, days: i64) -> (r: i128)
    ensures
        r == cutoff(now, days),
{
    let span: i128 = days as i128 * 86400;
    assert(span == days * SECS_PER_DAY);
    now as i128 - span
}

/// The rows last checked at or after `limit`.
pub open spec fn retained(m: Map<Seq<char>, AdEntry>, limit: int) -> Map<Seq<char>, AdEntry> {
    Map::new(|k: Seq<char>| m.contains_key(k) && m[k].last_checked >= limit, |k: Seq<char>| m[k])
}

/// The table after restoring row `e`: an identity already present is kept.
pub open spec fn restored(m: Map<Seq<char>, AdEntry>, e: AdEntry) -> Map<Seq<char>, AdEntry> {
    if m.contains_key(e.ad_id@) {
        m
    } else {
        m.insert(e.ad_id@, e)
    }
}

/// The table holding `rows`, restored in order into an empty table.
pub open spec fn rows_table(rows: Seq<AdEntry>) -> Map<Seq<char>, AdEntry>
    decreases rows.len(),
{
    if rows.len() == 0 {
        Map::empty()
    } else {
        restored(rows_table(rows.drop_last()), rows.last())
    }
}

/// Every row is filed under its own identity.
pub open spec fn table_valid(m: Map<Seq<char>, AdEntry>) -> bool {
    forall|k: Seq<char>| #[trigger] m.contains_key(k) ==> m[k].ad_id@ == k
}

/// Every row was first seen no later than it was last checked.
pub open spec fn times_ordered(m: Map<Seq<char>, AdEntry>) -> bool {
    forall|k: Seq<char>| #[trigger] m.contains_key(k) ==> m[k].first_seen <= m[k].last_checked
}

/// The listing table, keyed by `ad_id`.
pub struct AdStore {
    rows: StrMap<AdEntry>,
}

impl View for AdStore {
    type V = Map<Seq<char>, AdEntry>;

    closed spec fn view(&self) -> Map<Seq<char>, AdEntry> {
        self.rows@
    }
}

impl AdStore {
    #[verifier::type_invariant]
    closed spec fn inv(&self) -> bool {
        table_valid(self.rows@)
    }

    /// The identities in the order in which they were first stored.
    pub closed spec fn ids(&self) -> Seq<Seq<char>> {
        self.rows.keys()
    }

    /// An empty table.
    pub fn new() -> (r: Self)
        ensures
            r@ == Map::<Seq<char>, AdEntry>::empty(),
    {
        AdStore { rows: StrMap::new() }
    }

    /// Number of rows; the table is valid and its identities are its keys.
    pub fn len(&self) -> (r: usize)
        ensures
            r == self@.dom().len(),
            self@.dom().finite(),
            r == self.ids().len(),
            table_valid(self@),
            self.ids().no_duplicates(),
            forall|k: Seq<char>| #[trigger] self@.contains_key(k) <==> self.ids().contains(k),
    {
        proof { use_type_invariant(self); }
        self.rows.len()
    }

    /// The row stored under `ad_id`, if any.
    pub fn get(&self, ad_id: &str) -> (r: Option<&AdEntry>)
        ensures
            match r {
                Some(e) => self@.contains_key(ad_id@) && *e == self@[ad_id@],
                None => !self@.contains_key(ad_id@),
            },
    {
        self.rows.get(ad_id)
    }

    /// Records a sighting of `entry` (its `last_checked` is the time of the
    /// sighting). Returns whether its identity was new to the table.
    pub fn insert_or_update_ad(&mut self, entry: &AdEntry) -> (is_new: bool)
        ensures
            is_new == !old(self)@.contains_key(entry.ad_id@),
            final(self)@ == upserted(old(self)@, *entry),
    {
        proof { use_type_invariant(&*self); }
        let row = match self.rows.get(entry.ad_id.as_str()) {
            None => AdEntry {
                ad_id: entry.ad_id.clone(),
                title: entry.title.clone(),
                price: entry.price.clone(),
                url: entry.url.clone(),
                first_seen: entry.last_checked,
                last_checked: entry.last_checked,
            },
            Some(s) => AdEntry {
                ad_id: s.ad_id.clone(),
                title: entry.title.clone(),
                price: entry.price.clone(),
                url: s.url.clone(),
                first_seen: s.first_seen,
                last_checked: entry.last_checked,
            },
        };
        let is_new = !self.rows.contains_key(entry.ad_id.as_str());
        let mut rows = StrMap::new();
        std::mem::swap(&mut rows, &mut self.rows);
        rows.insert(entry.ad_id.clone(), row);
        proof {
            assert(table_valid(rows@));
        }
        self.rows = rows;
        is_new
    }

    /// Restores a stored row as it was; returns whether its identity was
    /// new (a repeated identity keeps the row restored first).
    pub fn restore(&mut self, e: AdEntry) -> (is_new: bool)
        ensures
            is_new == !old(self)@.contains_key(e.ad_id@),
            final(self)@ == restored(old(self)@, e),
    {
        proof { use_type_invariant(&*self); }
        if self.rows.contains_key(e.ad_id.as_str()) {
            return false;
        }
        let key = e.ad_id.clone();
        let mut rows = StrMap::new();
        std::mem::swap(&mut rows, &mut self.rows);
        rows.insert(key, e);
        self.rows = rows;
        true
    }

    /// The table holding `rows` (see `rows_table`).
    pub fn from_rows(rows: Vec<AdEntry>) -> (r: AdStore)
        ensures
            r@ == rows_table(rows@),
            table_valid(r@),
    {
        let mut table = AdStore::new();
        let ghost all = rows@;
        assert(all.take(0) =~= Seq::<AdEntry>::empty());
        assert(table@ =~= rows_table(all.take(0)));
        let n = rows.len();
        let mut i: usize = 0;
        while i < n
            invariant
                n == all.len(),
                all == rows@,
                0 <= i <= n,
                table@ == rows_table(all.take(i as int)),
            decreases n - i,
        {
            let e = rows[i].duplicate();
            assert(all.take(i + 1).drop_last() =~= all.take(i as int));
            assert(all.take(i + 1).last() == all[i as int]);
            table.restore(e);
            i = i + 1;
        }
        assert(all.take(n as int) =~= all);
        proof { use_type_invariant(&table); }
        table
    }

    /// Removes every row last checked before `now - days_to_keep` days and
    /// returns how many were removed.
    pub fn prune_old_ads(&mut self, now: i64, days_to_keep: i64) -> (removed: usize)
        ensures
            final(self)@ == retained(old(self)@, cutoff(now, days_to_keep)),
            removed + final(self)@.dom().len() == old(self)@.dom().len(),
    {
        proof { use_type_invariant(&*self); }
        let limit: i128 = window_start(now, days_to_keep);
        let n = self.rows.len();
        let ghost m = self@;
        let ghost ks = self.ids();
        let mut kept: StrMap<AdEntry> = StrMap::new();
        let mut removed: usize = 0;
        let mut i: usize = 0;
        while i < n
            invariant
                n == ks.len(),
                ks == self.ids(),
                m == self@,
                table_valid(m),
                ks.no_duplicates(),
                forall|k: Seq<char>| #[trigger] m.contains_key(k) <==> ks.contains(k),
                limit == cutoff(now, days_to_keep),
                0 <= i <= n,
                removed + kept.keys().len() == i,
                forall|k: Seq<char>|
                    #[trigger] kept@.contains_key(k) <==> (ks.take(i as int).contains(k)
                        && m[k].last_checked >= limit),
                forall|k: Seq<char>| #[trigger] kept@.contains_key(k) ==> kept@[k] == m[k],
                table_valid(kept@),
            decreases n - i,
        {
            let key = self.rows.key_at(i);
            let row = self.rows.value_at(i);
            let ghost k = key@;
            proof {
                assert(ks[i as int] == k);
                assert(ks.contains(k));
                assert(!ks.take(i as int).contains(k)) by {
                    if ks.take(i as int).contains(k) {
                        let j = choose|j: int| 0 <= j < i && ks.take(i as int)[j] == k;
                        assert(ks[j] == ks[i as int]);
                    }
                }
                assert(ks.take(i + 1) =~= ks.take(i as int).push(k));
            }
            let ghost old_kept = kept@;
            if row.last_checked as i128 >= limit {
                kept.insert(key.clone(), row.duplicate());
            } else {
                removed = removed + 1;
            }
            proof {
                assert forall|q: Seq<char>| #[trigger] kept@.contains_key(q) <==> (ks.take(
                    i + 1,
                ).contains(q) && m[q].last_checked >= limit) by {
                    if q != k {
                        assert(kept@.contains_key(q) == old_kept.contains_key(q));
                        assert(ks.take(i + 1).contains(q) == ks.take(i as int).contains(q));
                    } else {
                        assert(ks.take(i + 1)[i as int] == k);
                    }
                }
            }
            i = i + 1;
        }
        proof {
            assert(ks.take(n as int) =~= ks);
            assert(kept@ =~= retained(m, limit as int));
        }
        let kept_count = kept.len();
        assert(removed + kept_count == n);
        self.rows = kept;
        removed
    }

    /// The rows last checked at or after `now - days` days, most recently
    /// checked first, each once.
    pub fn get_recent_ads(&self, now: i64, days: i64) -> (r: Vec<AdEntry>)
        ensures
            forall|a: int|
                0 <= a < r@.len() ==> self@.contains_key(#[trigger] r@[a].ad_id@) && self@[r@[a].ad_id@]
                    == r@[a] && r@[a].last_checked >= cutoff(now, days),
            forall|k: Seq<char>|
                #[trigger] self@.contains_key(k) && self@[k].last_checked >= cutoff(now, days)
                    ==> exists|a: int| 0 <= a < r@.len() && r@[a].ad_id@ == k,
            forall|a: int, b: int|
                0 <= a < r@.len() && 0 <= b < r@.len() && a != b ==> r@[a].ad_id@ != r@[b].ad_id@,
            forall|a: int, b: int|
                0 <= a < b < r@.len() ==> r@[a].last_checked >= r@[b].last_checked,
    {
        proof { use_type_invariant(self); }
        let limit: i128 = window_start(now, days);
        let n = self.rows.len();
        let ghost m = self@;
        let ghost ks = self.ids();
        let mut out: Vec<AdEntry> = Vec::new();
        let mut i: usize = 0;
        while i < n
            invariant
                n == ks.len(),
                ks == self.ids(),
                m == self@,
                table_valid(m),
                ks.no_duplicates(),
                forall|k: Seq<char>| #[trigger] m.contains_key(k) <==> ks.contains(k),
                limit == cutoff(now, days),
                0 <= i <= n,
                forall|a: int|
                    0 <= a < out@.len() ==> ks.take(i as int).contains(#[trigger] out@[a].ad_id@)
                        && m[out@[a].ad_id@] == out@[a] && out@[a].last_checked >= limit,
                forall|j: int|
                    0 <= j < i && m[ks[j]].last_checked >= limit ==> exists|a: int|
                        0 <= a < out@.len() && #[trigger] out@[a].ad_id@ == ks[j],
                forall|a: int, b: int|
                    0 <= a < out@.len() && 0 <= b < out@.len() && a != b ==> out@[a].ad_id@
                        != out@[b].ad_id@,
                forall|a: int, b: int|
                    0 <= a < b < out@.len() ==> out@[a].last_checked >= out@[b].last_checked,
            decreases n - i,
        {
            let row = self.rows.value_at(i);
            let ghost k = ks[i as int];
            proof {
                assert(ks.contains(k));
                assert(row.ad_id@ == k);
                assert(!ks.take(i as int).contains(k)) by {
                    if ks.take(i as int).contains(k) {
                        let j = choose|j: int| 0 <= j < i && ks.take(i as int)[j] == k;
                        assert(ks[j] == ks[i as int]);
                    }
                }
                assert(ks.take(i + 1) =~= ks.take(i as int).push(k));
            }
            if row.last_checked as i128 >= limit {
                let mut p: usize = 0;
                while p < out.len() && out[p].last_checked >= row.last_checked
                    invariant
                        0 <= p <= out@.len(),
                        forall|a: int| 0 <= a < p ==> out@[a].last_checked >= row.last_checked,
                    decreases out@.len() - p,
                {
                    p = p + 1;
                }
                let ghost old_out = out@;
                out.insert(p, row.duplicate());
                proof {
                    assert forall|a: int| 0 <= a < out@.len() implies ks.take(i + 1).contains(
                        #[trigger] out@[a].ad_id@,
                    ) && m[out@[a].ad_id@] == out@[a] && out@[a].last_checked >= limit by {
                        if a < p {
                            assert(out@[a] == old_out[a]);
                        } else if a > p {
                            assert(out@[a] == old_out[a - 1]);
                        } else {
                            assert(ks.take(i + 1)[i as int] == k);
                        }
                    }
                    assert forall|a: int, b: int|
                        0 <= a < out@.len() && 0 <= b < out@.len() && a != b implies out@[a].ad_id@
                        != out@[b].ad_id@ by {
                        if a != p && b != p {
                            let a0 = if a < p { a } else { a - 1 };
                            let b0 = if b < p { b } else { b - 1 };
                            assert(out@[a] == old_out[a0]);
                            assert(out@[b] == old_out[b0]);
                        } else if a == p {
                            let b0 = if b < p { b } else { b - 1 };
                            assert(out@[b] == old_out[b0]);
                            assert(ks.take(i as int).contains(old_out[b0].ad_id@));
                        } else {
                            let a0 = if a < p { a } else { a - 1 };
                            assert(out@[a] == old_out[a0]);
                            assert(ks.take(i as int).contains(old_out[a0].ad_id@));
                        }
                    }
                    let key = |e: AdEntry| -(e.last_checked as int);
                    assert(sorted_by(old_out, key));
                    lemma_insert_sorted(old_out, p as int, *row, key);
                    assert forall|a: int, b: int| 0 <= a < b < out@.len() implies out@[a].last_checked
                        >= out@[b].last_checked by {
                        assert(key(out@[a]) <= key(out@[b]));
                    }
                    assert forall|j: int|
                        0 <= j < i + 1 && m[ks[j]].last_checked >= limit implies exists|a: int|
                        0 <= a < out@.len() && #[trigger] out@[a].ad_id@ == ks[j] by {
                        if j == i {
                            assert(out@[p as int].ad_id@ == ks[j]);
                        } else {
                            let a = choose|a: int| 0 <= a < old_out.len() && old_out[a].ad_id@ == ks[j];
                            if a < p {
                                assert(out@[a].ad_id@ == ks[j]);
                            } else {
                                assert(out@[a + 1].ad_id@ == ks[j]);
                            }
                        }
                    }
                }
            }
            i = i + 1;
        }
        proof {
            assert(ks.take(n as int) =~= ks);
            assert forall|k: Seq<char>|
                #[trigger] m.contains_key(k) && m[k].last_checked >= limit implies exists|a: int|
                0 <= a < out@.len() && out@[a].ad_id@ == k by {
                let j = ks.index_of(k);
                assert(ks[j] == k);
            }
        }
        out
    }
}

/// Two sightings of one identity, the second one later: the first finds the
/// identity new and the second finds it stored; the second keeps the first
/// sighting time and moves the last check forward to its own time.
pub proof fn lemma_upsert_twice(m: Map<Seq<char>, AdEntry>, e1: AdEntry, e2: AdEntry)
    requires
        !m.contains_key(e1.ad_id@),
        e2.ad_id@ == e1.ad_id@,
        e1.last_checked < e2.last_checked,
    ensures
        upserted(m, e1).contains_key(e2.ad_id@),
        upserted(upserted(m, e1), e2)[e1.ad_id@].first_seen == upserted(m, e1)[e1.ad_id@].first_seen,
        upserted(m, e1)[e1.ad_id@].first_seen == e1.last_checked,
        upserted(upserted(m, e1), e2)[e1.ad_id@].last_checked == e2.last_checked,
        upserted(m, e1)[e1.ad_id@].last_checked < upserted(upserted(m, e1), e2)[e1.ad_id@].last_checked,
        upserted(upserted(m, e1), e2)[e1.ad_id@].price == e2.price,
        upserted(upserted(m, e1), e2)[e1.ad_id@].title == e2.title,
{
}

/// Upserting keeps every row under its identity, and keeps first sightings
/// no later than last checks as long as the sighting time does not go back
/// before the stored row's first sighting.
pub proof fn lemma_upsert_valid(m: Map<Seq<char>, AdEntry>, e: AdEntry)
    requires
        table_valid(m),
        times_ordered(m),
        m.contains_key(e.ad_id@) ==> m[e.ad_id@].first_seen <= e.last_checked,
    ensures
        table_valid(upserted(m, e)),
        times_ordered(upserted(m, e)),
{
    assert forall|k: Seq<char>| #[trigger] upserted(m, e).contains_key(k) implies upserted(
        m,
        e,
    )[k].first_seen <= upserted(m, e)[k].last_checked by {
        if k != e.ad_id@ {
            assert(m.contains_key(k));
        }
    }
}

/// An upsert records exactly the sighting: the row read back under its
/// identity carries the sighting's title, price and time.
pub proof fn lemma_read_your_write(m: Map<Seq<char>, AdEntry>, e: AdEntry)
    ensures
        upserted(m, e).contains_key(e.ad_id@),
        upserted(m, e)[e.ad_id@].title == e.title,
        upserted(m, e)[e.ad_id@].price == e.price,
        upserted(m, e)[e.ad_id@].last_checked == e.last_checked,
        forall|k: Seq<char>|
            k != e.ad_id@ ==> (#[trigger] upserted(m, e).contains_key(k) == m.contains_key(k)),
{
}

/// Pruning removes exactly the rows last checked before the cutoff: every
/// older row goes, every other row stays unchanged.
pub proof fn lemma_prune_exact(m: Map<Seq<char>, AdEntry>, now: i64, days: i64, k: Seq<char>)
    requires
        m.contains_key(k),
    ensures
        m[k].last_checked < cutoff(now, days) ==> !retained(m, cutoff(now, days)).contains_key(k),
        m[k].last_checked >= cutoff(now, days) ==> retained(m, cutoff(now, days)).contains_key(k)
            && retained(m, cutoff(now, days))[k] == m[k],
        forall|q: Seq<char>|
            #[trigger] retained(m, cutoff(now, days)).contains_key(q) ==> m.contains_key(q),
{
}

} // verus!
