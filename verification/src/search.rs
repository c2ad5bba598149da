//! The vanity search itself.
//!
//! The search enumerates the half-open index range `[start, end)`, derives
//! each index's seed, key pair and V4R2 address, and returns the hex-encoded
//! private key and the address of the first index whose address starts with
//! the pattern.  `None` means exactly that no index of the range matches.
//!
//! The range is scanned chunk by chunk over the shuffled partition the
//! planner builds.  The scan here is sequential; a parallel driver can hand
//! the same chunks to its own thread pool, calling `check_index` for each
//! index, and the agreement lemma below shows that the pool size cannot
//! change whether a match exists.

use vstd::prelude::*;
use crate::address::{
    address_chars,
    address_of_secret,
    framed_b,
    state_hash_of,
    ton_v4r2_address_from_private,
    v4r2_address_of,
    ChecksumScheme,
    DEFAULT_SUBWALLET_ID,
};
use crate::encoding::{
    base64url_of,
    hex_of,
    hex_encode,
    is_b64url_char,
    lemma_foreign_char_no_prefix,
    lemma_hex_of_injective,
};
use crate::keys::{derive_seed, public_key_of, seed_of};
use crate::planner::{plan, covered, chunks_cover, chunks_bounded, chunk_in_range};

verus! {

/// Configuration errors, detected before any work begins.
#[derive(Clone, Copy, PartialEq, Eq, Structural, Debug)]
pub enum ConfigError {
    /// The pattern is the empty string.
    EmptyPattern,
    /// The range `[start, end)` holds no index.
    EmptyRange,
    /// The thread pool would have no worker.
    ZeroThreads,
}

/// Index `i` matches: its V4R2 address starts with the pattern.
pub open spec fn index_matches(i: u64, pattern: Seq<char>) -> bool {
    pattern.is_prefix_of(v4r2_address_of(seed_of(i)))
}

/// What a finished search reports: a witness index for a hit, the absence of
/// any matching index for a miss.
pub open spec fn search_post(
    r: Option<(Seq<char>, Seq<char>)>,
    pattern: Seq<char>,
    start: u64,
    end: u64,
) -> bool {
    match r {
        Option::Some(kv) => exists|i: u64|
            start <= i < end && #[trigger] index_matches(i, pattern) && kv.0 == hex_of(seed_of(i))
                && kv.1 == v4r2_address_of(seed_of(i)),
        Option::None => forall|i: u64| start <= i < end ==> !#[trigger] index_matches(i, pattern),
    }
}

/// The ghost value of an optional (private key, address) pair.
pub open spec fn result_view(r: Option<(String, String)>) -> Option<(Seq<char>, Seq<char>)> {
    match r {
        Option::Some(kv) => Option::Some((kv.0@, kv.1@)),
        Option::None => Option::None,
    }
}

/// Whether `s` starts with `prefix`, character by character.
pub fn str_starts_with(s: &str, prefix: &str) -> (r: bool)
    ensures
        r == prefix@.is_prefix_of(s@),
{
    let n = prefix.unicode_len();
    if n > s.unicode_len() {
        return false;
    }
    let mut j: usize = 0;
    while j < n
        invariant
            j <= n,
            n == prefix@.len(),
            n <= s@.len(),
            forall|k: int| 0 <= k < j ==> s@[k] == prefix@[k],
        decreases n - j,
    {
        if s.get_char(j) != prefix.get_char(j) {
            proof {
                if prefix@.is_prefix_of(s@) {
                    assert(prefix@[j as int] == s@.subrange(0, n as int)[j as int]);
                }
            }
            return false;
        }
        j = j + 1;
    }
    proof {
        assert(prefix@ =~= s@.subrange(0, n as int));
    }
    true
}

/// Derive one index's key and address and compare the address against the
/// pattern; the (hex key, address) pair when it matches, `None` otherwise.
pub fn check_index(pattern: &str, i: u64) -> (r: Option<(String, String)>)
    ensures
        match r {
            Option::Some(kv) => index_matches(i, pattern@) && kv.0@ == hex_of(seed_of(i))
                && kv.1@ == v4r2_address_of(seed_of(i)),
            Option::None => !index_matches(i, pattern@),
        },
{
    let seed = derive_seed(i);
    let key_hex = hex_encode(&seed);
    let addr = ton_v4r2_address_from_private(seed);
    if str_starts_with(addr.as_str(), pattern) {
        Option::Some((key_hex, addr))
    } else {
        Option::None
    }
}

/// Scan the chunk `[chunk_start, chunk_end)` in index order and return the
/// first match, or `None` when no index of the chunk matches.
pub fn scan_chunk(pattern: &str, chunk_start: u64, chunk_end: u64) -> (r: Option<(String, String)>)
    requires
        chunk_start <= chunk_end,
    ensures
        search_post(result_view(r), pattern@, chunk_start, chunk_end),
{
    let mut n = chunk_start;
    while n < chunk_end
        invariant
            chunk_start <= n <= chunk_end,
            forall|i: u64| chunk_start <= i < n ==> !#[trigger] index_matches(i, pattern@),
        decreases chunk_end - n,
    {
        match check_index(pattern, n) {
            Option::Some(kv) => {
                return Option::Some(kv);
            },
            Option::None => {},
        }
        n = n + 1;
    }
    Option::None
}

/// Search `[start, end)` for an index whose V4R2 address starts with
/// `pattern`, over randomly planned, shuffled chunks.
///
/// A result holds the hex-encoded 32-byte private key and the address of a
/// matching index; `None` means no index of the range matches.  The scan
/// here walks the chunks in order; `threads` sizes a caller's pool when the
/// chunks are distributed instead, which cannot change whether a match
/// exists (see `lemma_search_outcome_agreement`).
pub fn search_vanity(pattern: &str, start: u64, end: u64, threads: usize) -> (r: Option<
    (String, String),
>)
    requires
        start < end,
        pattern@.len() > 0,
        threads >= 1,
    ensures
        search_post(result_view(r), pattern@, start, end),
{
    let min_chunk: u32 = 1000;
    let cap: u64 = end / 10000;
    let max64: u64 = if cap > 10000 {
        cap
    } else {
        10000
    };
    let max_chunk: u32 = if max64 > 0xFFFF_FFFF {
        0xFFFF_FFFF
    } else {
        max64 as u32
    };
    let chunks = plan(start, end, min_chunk, max_chunk);
    let mut idx: usize = 0;
    while idx < chunks.len()
        invariant
            idx <= chunks@.len(),
            chunks_bounded(chunks@, start, end, max_chunk),
            chunks_cover(chunks@, start, end),
            forall|j: int, i: u64|
                #![trigger chunks@[j], index_matches(i, pattern@)]
                0 <= j < idx && chunks@[j].0 <= i < chunks@[j].1 ==> !index_matches(i, pattern@),
        decreases chunks@.len() - idx,
    {
        let c = chunks[idx];
        match scan_chunk(pattern, c.0, c.1) {
            Option::Some(kv) => {
                proof {
                    assert(chunk_in_range(chunks@[idx as int], start, end));
                    let i = choose|i: u64|
                        c.0 <= i < c.1 && #[trigger] index_matches(i, pattern@) && kv.0@ == hex_of(
                            seed_of(i),
                        ) && kv.1@ == v4r2_address_of(seed_of(i));
                    assert(start <= i < end && index_matches(i, pattern@) && kv.0@ == hex_of(
                        seed_of(i),
                    ) && kv.1@ == v4r2_address_of(seed_of(i)));
                }
                return Option::Some(kv);
            },
            Option::None => {},
        }
        idx = idx + 1;
    }
    proof {
        assert forall|i: u64| start <= i < end implies !#[trigger] index_matches(i, pattern@) by {
            assert(covered(chunks@, i));
            let j = choose|j: int|
                0 <= j < chunks@.len() && (#[trigger] chunks@[j]).0 <= i < chunks@[j].1;
            assert(0 <= j < idx);
        }
    }
    Option::None
}

/// Validate the configuration, then search.
///
/// An empty pattern, an empty range and a zero thread count are
/// configuration errors, reported in that order before any work begins.
pub fn try_search_vanity(pattern: &str, start: u64, end: u64, threads: usize) -> (r: Result<
    Option<(String, String)>,
    ConfigError,
>)
    ensures
        match r {
            Result::Ok(opt) => pattern@.len() > 0 && start < end && threads >= 1 && search_post(
                result_view(opt),
                pattern@,
                start,
                end,
            ),
            Result::Err(e) => match e {
                ConfigError::EmptyPattern => pattern@.len() == 0,
                ConfigError::EmptyRange => pattern@.len() > 0 && start >= end,
                ConfigError::ZeroThreads => pattern@.len() > 0 && start < end && threads == 0,
            },
        },
{
    if pattern.is_empty() {
        Result::Err(ConfigError::EmptyPattern)
    } else if start >= end {
        Result::Err(ConfigError::EmptyRange)
    } else if threads == 0 {
        Result::Err(ConfigError::ZeroThreads)
    } else {
        Result::Ok(search_vanity(pattern, start, end, threads))
    }
}

/// A pattern holding a character from outside the URL-safe base64 alphabet
/// can never match: every address is a URL-safe base64 encoding.
pub proof fn lemma_foreign_char_never_matches(pattern: Seq<char>, j: int)
    requires
        0 <= j < pattern.len(),
        !is_b64url_char(pattern[j]),
    ensures
        forall|i: u64| !#[trigger] index_matches(i, pattern),
{
    assert forall|i: u64| !#[trigger] index_matches(i, pattern) by {
        let secret = seed_of(i);
        assert(v4r2_address_of(secret) == address_of_secret(
            secret,
            0,
            DEFAULT_SUBWALLET_ID as int,
            ChecksumScheme::Crc16,
        ));
        let digest = state_hash_of(public_key_of(secret), DEFAULT_SUBWALLET_ID as int);
        assert(address_chars(digest, 0, ChecksumScheme::Crc16) == base64url_of(
            framed_b(0, digest),
        ));
        lemma_foreign_char_no_prefix(pattern, j, framed_b(0, digest));
    }
}

/// Over a range without a matching index, the search can only report the
/// absence of a result: there are no false positives.
pub proof fn lemma_search_negative(
    r: Option<(Seq<char>, Seq<char>)>,
    pattern: Seq<char>,
    start: u64,
    end: u64,
)
    requires
        search_post(r, pattern, start, end),
        forall|i: u64| start <= i < end ==> !#[trigger] index_matches(i, pattern),
    ensures
        r is None,
{
}

/// A negative result is reproducible and the pool size is immaterial: any
/// two results that satisfy the search contract for the same pattern and
/// range agree on whether a match exists, and a hit always carries an
/// address that starts with the pattern.
pub proof fn lemma_search_outcome_agreement(
    r1: Option<(Seq<char>, Seq<char>)>,
    r2: Option<(Seq<char>, Seq<char>)>,
    pattern: Seq<char>,
    start: u64,
    end: u64,
)
    requires
        search_post(r1, pattern, start, end),
        search_post(r2, pattern, start, end),
    ensures
        r1 is Some <==> r2 is Some,
        r1 is Some ==> pattern.is_prefix_of(r1.unwrap().1),
        r2 is Some ==> pattern.is_prefix_of(r2.unwrap().1),
{
    if r1 is Some && r2 is None {
        let i = choose|i: u64|
            start <= i < end && #[trigger] index_matches(i, pattern) && r1.unwrap().0 == hex_of(
                seed_of(i),
            ) && r1.unwrap().1 == v4r2_address_of(seed_of(i));
        assert(!index_matches(i, pattern));
    }
    if r2 is Some && r1 is None {
        let i = choose|i: u64|
            start <= i < end && #[trigger] index_matches(i, pattern) && r2.unwrap().0 == hex_of(
                seed_of(i),
            ) && r2.unwrap().1 == v4r2_address_of(seed_of(i));
        assert(!index_matches(i, pattern));
    }
    if r1 is Some {
        let i = choose|i: u64|
            start <= i < end && #[trigger] index_matches(i, pattern) && r1.unwrap().0 == hex_of(
                seed_of(i),
            ) && r1.unwrap().1 == v4r2_address_of(seed_of(i));
        assert(pattern.is_prefix_of(r1.unwrap().1));
    }
    if r2 is Some {
        let i = choose|i: u64|
            start <= i < end && #[trigger] index_matches(i, pattern) && r2.unwrap().0 == hex_of(
                seed_of(i),
            ) && r2.unwrap().1 == v4r2_address_of(seed_of(i));
        assert(pattern.is_prefix_of(r2.unwrap().1));
    }
}

/// Round trip: any 32-byte key whose hex encoding equals the returned
/// private key derives exactly the returned address, and that address
/// starts with the pattern.
pub proof fn lemma_search_roundtrip(
    r: Option<(Seq<char>, Seq<char>)>,
    pattern: Seq<char>,
    start: u64,
    end: u64,
    secret: Seq<u8>,
)
    requires
        search_post(r, pattern, start, end),
        r is Some,
        hex_of(secret) == r.unwrap().0,
    ensures
        v4r2_address_of(secret) == r.unwrap().1,
        pattern.is_prefix_of(v4r2_address_of(secret)),
{
    let i = choose|i: u64|
        start <= i < end && #[trigger] index_matches(i, pattern) && r.unwrap().0 == hex_of(
            seed_of(i),
        ) && r.unwrap().1 == v4r2_address_of(seed_of(i));
    lemma_hex_of_injective(secret, seed_of(i));
}

/// The whole-keys-per-second rate of a progress sample.
pub open spec fn rate_of(checked: u64, elapsed_ms: u64) -> int {
    checked * 1000 / (if elapsed_ms == 0 {
        1int
    } else {
        elapsed_ms as int
    })
}

/// Throughput of a progress sample: keys per second, rounded down and
/// saturated; an elapsed time of zero counts as one millisecond.
pub fn keys_per_second(checked: u64, elapsed_ms: u64) -> (r: u64)
    ensures
        r == if rate_of(checked, elapsed_ms) > u64::MAX {
            u64::MAX as int
        } else {
            rate_of(checked, elapsed_ms)
        },
{
    let ms: u128 = if elapsed_ms == 0 {
        1
    } else {
        elapsed_ms as u128
    };
    let v: u128 = (checked as u128) * 1000 / ms;
    if v > 0xFFFF_FFFF_FFFF_FFFF {
        0xFFFF_FFFF_FFFF_FFFF
    } else {
        v as u64
    }
}

} // verus!
