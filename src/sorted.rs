//! Keeping a sequence ordered by a key while inserting into it.

use vstd::prelude::*;

verus! {

/// `s` is ordered by `key`, smallest first.
pub open spec fn sorted_by<T>(s: Seq<T>, key: spec_fn(T) -> int) -> bool {
    forall|a: int, b: int| 0 <= a < b < s.len() ==> key(s[a]) <= key(s[b])
}

/// Inserting `x` after every element keyed at most as `x` and before the
/// first element keyed more keeps the sequence ordered, and every element
/// keyed as `x` ends up before it.
pub proof fn lemma_insert_sorted<T>(s: Seq<T>, p: int, x: T, key: spec_fn(T) -> int)
    requires
        sorted_by(s, key),
        0 <= p <= s.len(),
        forall|i: int| 0 <= i < p ==> key(s[i]) <= key(x),
        p < s.len() ==> key(x) < key(s[p]),
    ensures
        sorted_by(s.insert(p, x), key),
        forall|a: int|
            0 <= a < s.len() + 1 && a != p && key(#[trigger] s.insert(p, x)[a]) == key(x) ==> a < p,
{
    let t = s.insert(p, x);
    assert forall|a: int, b: int| 0 <= a < b < t.len() implies key(t[a]) <= key(t[b]) by {
        if b < p {
            assert(t[a] == s[a] && t[b] == s[b]);
        } else if b == p {
            assert(t[a] == s[a]);
        } else if a < p {
            assert(t[a] == s[a] && t[b] == s[b - 1]);
            assert(key(s[p]) <= key(s[b - 1]));
        } else if a == p {
            assert(t[b] == s[b - 1]);
            assert(key(s[p]) <= key(s[b - 1]));
        } else {
            assert(t[a] == s[a - 1] && t[b] == s[b - 1]);
        }
    }
    assert forall|a: int|
        0 <= a < s.len() + 1 && a != p && key(#[trigger] t[a]) == key(x) implies a < p by {
        if a > p {
            assert(t[a] == s[a - 1]);
            assert(key(s[p]) <= key(s[a - 1]));
        }
    }
}

} // verus!
