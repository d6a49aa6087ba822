//! Pieces of one discovery cycle: listing identity, soft-block detection and
//! the split of the configured URLs among workers.

use vstd::prelude::*;

use crate::filter::UrlFilters;
use crate::text::{contains_text, is_substring, lower_of, lowercase};

verus! {

/// Number of fetch workers a cycle runs at most.
pub const WORKER_POOL_SIZE: usize = 3;

/// The lower-case hexadecimal MD5 digest of a text's UTF-8 bytes.
pub uninterp spec fn md5_hex(s: Seq<char>) -> Seq<char>;

/// Relies on `md5::compute` and the `LowerHex` rendering of its 16-byte
/// `Digest` (two lower-case hex digits per byte).
#[verifier::external_body]
fn md5_hex_of(s: &str) -> (r: String)
    ensures
        r@ == md5_hex(s@),
        r@.len() == 32,
{
    format!("{:x}", md5::compute(s))
}

/// The identity of the listing at `url`: the MD5 digest of the URL in
/// lower-case hex.
pub fn get_ad_hash(url: &str) -> (r: String)
    ensures
        r@ == md5_hex(url@),
        r@.len() == 32,
{
    md5_hex_of(url)
}

/// The identity depends on the URL alone: equal URLs give equal identities.
pub proof fn lemma_ad_hash_deterministic(a: Seq<char>, b: Seq<char>)
    requires
        a == b,
    ensures
        md5_hex(a) == md5_hex(b),
{
}

/// A page address that signals a login or checkpoint redirect.
pub open spec fn is_block_address(url: Seq<char>) -> bool {
    is_substring("login"@, lower_of(url)) || is_substring("checkpoint"@, lower_of(url))
}

/// Whether the address a fetch ended on is a login or checkpoint redirect
/// (case-insensitive): such a fetch counts as failed.
pub fn is_soft_block(current_url: &str) -> (r: bool)
    ensures
        r == is_block_address(current_url@),
{
    let lower = lowercase(current_url);
    contains_text(lower.as_str(), "login") || contains_text(lower.as_str(), "checkpoint")
}

/// The configured URLs, in key order.
pub fn configured_urls(filters: &UrlFilters) -> (r: Vec<String>)
    ensures
        r@.len() == filters.keys().len(),
        forall|i: int| 0 <= i < r@.len() ==> #[trigger] r@[i]@ == filters.keys()[i],
{
    let n = filters.len();
    let mut out: Vec<String> = Vec::new();
    let mut i: usize = 0;
    while i < n
        invariant
            n == filters.keys().len(),
            0 <= i <= n,
            out@.len() == i,
            forall|j: int| 0 <= j < i ==> #[trigger] out@[j]@ == filters.keys()[j],
        decreases n - i,
    {
        out.push(filters.key_at(i).clone());
        i = i + 1;
    }
    out
}

/// Number of partitions for `n` URLs: one per worker, no more than URLs.
pub open spec fn partition_count(pool_size: nat, n: nat) -> nat {
    if pool_size < n {
        pool_size
    } else {
        n
    }
}

/// Deals `urls` round-robin into `min(pool_size, urls.len())` partitions:
/// partition `c` holds, in order, the URLs at positions `c`, `c + k`,
/// `c + 2k`, ... where `k` is the number of partitions.
pub fn partition_urls(urls: &Vec<String>, pool_size: usize) -> (r: Vec<Vec<String>>)
    ensures
        r@.len() == partition_count(pool_size as nat, urls@.len()),
        forall|c: int|
            0 <= c < r@.len() ==> c + ((#[trigger] r@[c])@.len() - 1) * r@.len() < urls@.len()
                <= c + r@[c]@.len() * r@.len(),
        forall|c: int, p: int|
            0 <= c < r@.len() && 0 <= p < r@[c]@.len() ==> (#[trigger] r@[c]@[p])@ == urls@[c + p
                * r@.len()]@,
{
    let n = urls.len();
    let k = if pool_size < n {
        pool_size
    } else {
        n
    };
    let mut parts: Vec<Vec<String>> = Vec::new();
    let mut c: usize = 0;
    while c < k
        invariant
            k == partition_count(pool_size as nat, n as nat),
            n == urls@.len(),
            k <= n,
            0 <= c <= k,
            parts@.len() == c,
            forall|c2: int|
                0 <= c2 < c ==> c2 + ((#[trigger] parts@[c2])@.len() - 1) * k < n <= c2
                    + parts@[c2]@.len() * k,
            forall|c2: int, p: int|
                0 <= c2 < c && 0 <= p < parts@[c2]@.len() ==> (#[trigger] parts@[c2]@[p])@
                    == urls@[c2 + p * k]@,
        decreases k - c,
    {
        let mut part: Vec<String> = Vec::new();
        let mut idx: usize = c;
        assert(part@.len() * k == 0) by (nonlinear_arith)
            requires
                part@.len() == 0,
        ;
        while idx < n
            invariant
                0 < k <= n,
                n == urls@.len(),
                c < k,
                idx <= n,
                idx < n ==> idx == c + part@.len() * k,
                idx == n ==> c + part@.len() * k >= n,
                forall|p: int| 0 <= p < part@.len() ==> #[trigger] part@[p]@ == urls@[c + p * k]@,
                part@.len() > 0 ==> c + (part@.len() - 1) * k < n,
            decreases n - idx,
        {
            proof {
                assert((part@.len() + 1) * k == part@.len() * k + k) by (nonlinear_arith);
            }
            part.push(urls[idx].clone());
            if n - idx <= k {
                idx = n;
            } else {
                idx = idx + k;
            }
        }
        proof {
            assert(part@.len() > 0);
            assert(c + (part@.len() - 1) * k < n);
        }
        parts.push(part);
        c = c + 1;
    }
    parts
}

/// The partitions of one cycle: the configured URLs, in key order, dealt
/// round-robin among at most `WORKER_POOL_SIZE` workers. No URL, no
/// partition.
pub fn cycle_partitions(filters: &UrlFilters) -> (r: Vec<Vec<String>>)
    ensures
        r@.len() == partition_count(WORKER_POOL_SIZE as nat, filters.keys().len()),
        forall|c: int|
            0 <= c < r@.len() ==> c + ((#[trigger] r@[c])@.len() - 1) * r@.len()
                < filters.keys().len() <= c + r@[c]@.len() * r@.len(),
        forall|c: int, p: int|
            0 <= c < r@.len() && 0 <= p < r@[c]@.len() ==> (#[trigger] r@[c]@[p])@
                == filters.keys()[c + p * r@.len()],
{
    let urls = configured_urls(filters);
    let parts = partition_urls(&urls, WORKER_POOL_SIZE);
    proof {
        let k = parts@.len();
        assert forall|c: int, p: int|
            0 <= c < k && 0 <= p < parts@[c]@.len() implies (#[trigger] parts@[c]@[p])@
            == filters.keys()[c + p * k] by {
            let len = parts@[c]@.len();
            assert(p * k <= (len - 1) * k) by (nonlinear_arith)
                requires
                    0 <= p <= len - 1,
                    k >= 0,
            ;
            assert(c + p * k < urls@.len());
            assert(urls@[c + p * k]@ == filters.keys()[c + p * k]);
        }
    }
    parts
}

} // verus!
