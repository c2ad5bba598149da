//! Partitioning of the search range into randomly sized, shuffled chunks.
//!
//! `plan` splits the half-open range `[start, end)` into contiguous chunks
//! whose lengths are drawn uniformly from `[min_chunk, max_chunk]` (the last
//! one clipped to what remains), then shuffles their order.  The result is an
//! exact partition: the chunks are pairwise disjoint, they cover every index
//! of the range, and their lengths sum to `end - start`.

use vstd::prelude::*;

verus! {

/// The number of indices a chunk holds.
pub open spec fn chunk_len(c: (u64, u64)) -> int {
    c.1 - c.0
}

/// A chunk is a non-empty sub-range of `[start, end)`.
pub open spec fn chunk_in_range(c: (u64, u64), start: u64, end: u64) -> bool {
    start <= c.0 < c.1 <= end
}

/// Some chunk of the sequence holds the index `i`.
pub open spec fn covered(chunks: Seq<(u64, u64)>, i: u64) -> bool {
    exists|j: int| 0 <= j < chunks.len() && (#[trigger] chunks[j]).0 <= i < chunks[j].1
}

/// Every index of `[start, end)` lies in some chunk.
pub open spec fn chunks_cover(chunks: Seq<(u64, u64)>, start: u64, end: u64) -> bool {
    forall|i: u64| start <= i < end ==> #[trigger] covered(chunks, i)
}

/// Chunks at distinct positions never overlap.
pub open spec fn chunks_disjoint(chunks: Seq<(u64, u64)>) -> bool {
    forall|j1: int, j2: int|
        0 <= j1 < chunks.len() && 0 <= j2 < chunks.len() && j1 != j2 ==> ((#[trigger] chunks[j1]).1
            <= (#[trigger] chunks[j2]).0 || chunks[j2].1 <= chunks[j1].0)
}

/// Every chunk is a non-empty sub-range of `[start, end)` no longer than `max`.
pub open spec fn chunks_bounded(chunks: Seq<(u64, u64)>, start: u64, end: u64, max: u32) -> bool {
    &&& forall|j: int|
        0 <= j < chunks.len() ==> chunk_in_range(#[trigger] chunks[j], start, end)
    &&& forall|j: int| 0 <= j < chunks.len() ==> chunk_len(#[trigger] chunks[j]) <= max
}

/// At most one chunk (the clipped one) is shorter than `min`.
pub open spec fn at_most_one_short(chunks: Seq<(u64, u64)>, min: u32) -> bool {
    forall|j1: int, j2: int|
        0 <= j1 < chunks.len() && 0 <= j2 < chunks.len() && chunk_len(#[trigger] chunks[j1]) < min
            && chunk_len(#[trigger] chunks[j2]) < min ==> j1 == j2
}

/// The sum of the chunk lengths.
pub open spec fn total_len(chunks: Seq<(u64, u64)>) -> int
    decreases chunks.len(),
{
    if chunks.len() == 0 {
        0
    } else {
        chunk_len(chunks[0]) + total_len(chunks.drop_first())
    }
}

proof fn lemma_total_len_push(s: Seq<(u64, u64)>, c: (u64, u64))
    ensures
        total_len(s.push(c)) == total_len(s) + chunk_len(c),
    decreases s.len(),
{
    if s.len() == 0 {
        assert(s.push(c)[0] == c);
        assert(s.push(c).drop_first() =~= Seq::<(u64, u64)>::empty());
        assert(total_len(Seq::<(u64, u64)>::empty()) == 0);
        assert(total_len(s.push(c)) == chunk_len(c) + total_len(s.push(c).drop_first()));
    } else {
        assert(s.push(c)[0] == s[0]);
        assert(s.push(c).drop_first() =~= s.drop_first().push(c));
        lemma_total_len_push(s.drop_first(), c);
        assert(total_len(s.push(c)) == chunk_len(s[0]) + total_len(s.drop_first().push(c)));
        assert(total_len(s) == chunk_len(s[0]) + total_len(s.drop_first()));
    }
}

proof fn lemma_total_len_remove(s: Seq<(u64, u64)>, k: int)
    requires
        0 <= k < s.len(),
    ensures
        total_len(s) == total_len(s.remove(k)) + chunk_len(s[k]),
    decreases s.len(),
{
    if k == 0 {
        assert(s.remove(0) =~= s.drop_first());
    } else {
        lemma_total_len_remove(s.drop_first(), k - 1);
        assert(s.remove(k).drop_first() =~= s.drop_first().remove(k - 1));
    }
}

/// Two sequences holding the same multiset of chunks have the same total
/// length.
proof fn lemma_total_len_permutation(s1: Seq<(u64, u64)>, s2: Seq<(u64, u64)>)
    requires
        s1.to_multiset() == s2.to_multiset(),
    ensures
        total_len(s1) == total_len(s2),
    decreases s1.len(),
{
    broadcast use vstd::seq_lib::group_to_multiset_ensures;

    assert(s1.to_multiset().len() == s1.len());
    assert(s2.to_multiset().len() == s2.len());
    if s1.len() == 0 {
        assert(s2.len() == 0);
    } else {
        let c = s1[0];
        assert(s1.contains(c));
        assert(s2.to_multiset().count(c) > 0);
        assert(s2.contains(c));
        let k = choose|k: int| 0 <= k < s2.len() && s2[k] == c;
        lemma_total_len_remove(s2, k);
        lemma_total_len_remove(s1, 0);
        assert(s1.remove(0).to_multiset() =~= s2.remove(k).to_multiset());
        lemma_total_len_permutation(s1.remove(0), s2.remove(k));
    }
}

/// A permutation of an exact partition of `[start, end)` is again an exact
/// partition of `[start, end)`.
proof fn lemma_permutation_preserves_partition(
    s1: Seq<(u64, u64)>,
    s2: Seq<(u64, u64)>,
    start: u64,
    end: u64,
    min: u32,
    max: u32,
)
    requires
        s1.to_multiset() == s2.to_multiset(),
        chunks_bounded(s1, start, end, max),
        chunks_disjoint(s1),
        chunks_cover(s1, start, end),
        at_most_one_short(s1, min),
        total_len(s1) == end - start,
    ensures
        s2.len() == s1.len(),
        chunks_bounded(s2, start, end, max),
        chunks_disjoint(s2),
        chunks_cover(s2, start, end),
        at_most_one_short(s2, min),
        total_len(s2) == end - start,
{
    broadcast use vstd::seq_lib::group_to_multiset_ensures;

    lemma_total_len_permutation(s1, s2);
    assert(s1.to_multiset().len() == s1.len());
    assert(s2.to_multiset().len() == s2.len());
    // Membership carries over in both directions.
    assert forall|j: int| 0 <= j < s2.len() implies s1.contains(#[trigger] s2[j]) by {
        assert(s2.contains(s2[j]));
        assert(s1.to_multiset().count(s2[j]) > 0);
    }
    // Disjoint non-empty ranges are pairwise distinct values.
    assert forall|j1: int, j2: int|
        0 <= j1 < s1.len() && 0 <= j2 < s1.len() && j1 != j2 implies s1[j1] != s1[j2] by {
        assert(chunk_in_range(s1[j1], start, end));
    }
    s1.lemma_multiset_has_no_duplicates();
    s2.lemma_multiset_has_no_duplicates_conv();
    // Pairwise properties carry over through distinct source positions.
    assert forall|j1: int, j2: int|
        0 <= j1 < s2.len() && 0 <= j2 < s2.len() && j1 != j2 implies ((#[trigger] s2[j1]).1 <= (
    #[trigger] s2[j2]).0 || s2[j2].1 <= s2[j1].0) by {
        assert(s2[j1] != s2[j2]);
        let k1 = choose|k: int| 0 <= k < s1.len() && s1[k] == s2[j1];
        let k2 = choose|k: int| 0 <= k < s1.len() && s1[k] == s2[j2];
        assert(k1 != k2);
    }
    assert forall|j1: int, j2: int|
        0 <= j1 < s2.len() && 0 <= j2 < s2.len() && chunk_len(#[trigger] s2[j1]) < min && chunk_len(
            #[trigger] s2[j2],
        ) < min implies j1 == j2 by {
        if j1 != j2 {
            assert(s2[j1] != s2[j2]);
            let k1 = choose|k: int| 0 <= k < s1.len() && s1[k] == s2[j1];
            let k2 = choose|k: int| 0 <= k < s1.len() && s1[k] == s2[j2];
            assert(k1 != k2);
        }
    }
    assert forall|i: u64| start <= i < end implies #[trigger] covered(s2, i) by {
        assert(covered(s1, i));
        let j = choose|j: int| 0 <= j < s1.len() && (#[trigger] s1[j]).0 <= i < s1[j].1;
        assert(s1.contains(s1[j]));
        assert(s2.to_multiset().count(s1[j]) > 0);
        assert(s2.contains(s1[j]));
        let k = choose|k: int| 0 <= k < s2.len() && s2[k] == s1[j];
        assert(s2[k].0 <= i < s2[k].1);
    }
}

/// Configuration errors of the chunk planner, detected before any chunk is
/// drawn.
#[derive(Clone, Copy, PartialEq, Eq, Structural, Debug)]
pub enum PlanError {
    /// The range `[start, end)` holds no index.
    EmptyRange,
    /// The minimum chunk length is zero.
    ZeroMinChunk,
    /// The minimum chunk length exceeds the maximum.
    ChunkBoundsInverted,
}

/// Relies on rand: `random_range` over the inclusive range `min..=max`
/// returns a value within it (the range is non-empty because `min <= max`).
#[verifier::external_body]
fn random_chunk_len(min: u32, max: u32) -> (r: u32)
    requires
        min <= max,
    ensures
        min <= r <= max,
{
    rand::random_range(min..=max)
}

/// Relies on rand: `SliceRandom::shuffle` permutes the slice in place, so
/// the multiset of its elements is unchanged.
#[verifier::external_body]
fn shuffle_chunks(chunks: &mut Vec<(u64, u64)>)
    ensures
        final(chunks)@.to_multiset() == old(chunks)@.to_multiset(),
{
    let mut rng = rand::rng();
    <[(u64, u64)] as rand::seq::SliceRandom>::shuffle(chunks.as_mut_slice(), &mut rng);
}

/// Split `[start, end)` into randomly sized chunks and shuffle their order.
///
/// The chunks form an exact partition of the range: pairwise disjoint,
/// jointly covering, lengths summing to `end - start`, each at most
/// `max_chunk` long and all but at most one (the clipped remainder) at least
/// `min_chunk` long.
pub fn plan(start: u64, end: u64, min_chunk: u32, max_chunk: u32) -> (chunks: Vec<(u64, u64)>)
    requires
        start < end,
        1 <= min_chunk,
        min_chunk <= max_chunk,
    ensures
        chunks@.len() >= 1,
        chunks_bounded(chunks@, start, end, max_chunk),
        chunks_disjoint(chunks@),
        chunks_cover(chunks@, start, end),
        at_most_one_short(chunks@, min_chunk),
        total_len(chunks@) == end - start,
{
    let mut chunks: Vec<(u64, u64)> = Vec::new();
    let mut cur: u64 = start;
    while cur < end
        invariant
            start <= cur <= end,
            start < end,
            1 <= min_chunk <= max_chunk,
            cur == start <==> chunks@.len() == 0,
            chunks_bounded(chunks@, start, end, max_chunk),
            forall|j: int| 0 <= j < chunks@.len() ==> (#[trigger] chunks@[j]).1 <= cur,
            forall|j: int|
                0 <= j < chunks@.len() - 1 ==> chunk_len(#[trigger] chunks@[j]) >= min_chunk,
            chunks@.len() >= 1 && cur < end ==> chunk_len(chunks@[chunks@.len() - 1])
                >= min_chunk,
            chunks_disjoint(chunks@),
            chunks_cover(chunks@, start, cur),
            total_len(chunks@) == cur - start,
        decreases end - cur,
    {
        let want = random_chunk_len(min_chunk, max_chunk);
        let remain = end - cur;
        let len: u64 = if (want as u64) < remain {
            want as u64
        } else {
            remain
        };
        let next = cur + len;
        let ghost old_chunks = chunks@;
        chunks.push((cur, next));
        proof {
            lemma_total_len_push(old_chunks, (cur, next));
            assert forall|i: u64| start <= i < next implies #[trigger] covered(chunks@, i) by {
                if i < cur {
                    assert(covered(old_chunks, i));
                    let j = choose|j: int|
                        0 <= j < old_chunks.len() && (#[trigger] old_chunks[j]).0 <= i
                            < old_chunks[j].1;
                    assert(chunks@[j] == old_chunks[j]);
                } else {
                    assert(chunks@[chunks@.len() - 1] == (cur, next));
                }
            }
        }
        cur = next;
    }
    proof {
        // Only the clipped final chunk can be shorter than `min_chunk`.
        assert forall|j1: int, j2: int|
            0 <= j1 < chunks@.len() && 0 <= j2 < chunks@.len() && chunk_len(
                #[trigger] chunks@[j1],
            ) < min_chunk && chunk_len(#[trigger] chunks@[j2]) < min_chunk implies j1 == j2 by {
            assert(j1 == chunks@.len() - 1);
            assert(j2 == chunks@.len() - 1);
        }
    }
    let ghost before_shuffle = chunks@;
    shuffle_chunks(&mut chunks);
    proof {
        lemma_permutation_preserves_partition(
            before_shuffle,
            chunks@,
            start,
            end,
            min_chunk,
            max_chunk,
        );
    }
    chunks
}

/// Validate the planner configuration, then plan.
///
/// The planner refuses to start on an empty range, a zero minimum chunk
/// length or inverted bounds, reported in that order, rather than clamp
/// anything silently.
pub fn try_plan(start: u64, end: u64, min_chunk: u32, max_chunk: u32) -> (r: Result<
    Vec<(u64, u64)>,
    PlanError,
>)
    ensures
        match r {
            Result::Ok(chunks) => {
                &&& start < end
                &&& 1 <= min_chunk <= max_chunk
                &&& chunks@.len() >= 1
                &&& chunks_bounded(chunks@, start, end, max_chunk)
                &&& chunks_disjoint(chunks@)
                &&& chunks_cover(chunks@, start, end)
                &&& at_most_one_short(chunks@, min_chunk)
                &&& total_len(chunks@) == end - start
            },
            Result::Err(e) => match e {
                PlanError::EmptyRange => start >= end,
                PlanError::ZeroMinChunk => start < end && min_chunk == 0,
                PlanError::ChunkBoundsInverted => start < end && 1 <= min_chunk && min_chunk
                    > max_chunk,
            },
        },
{
    if start >= end {
        Result::Err(PlanError::EmptyRange)
    } else if min_chunk == 0 {
        Result::Err(PlanError::ZeroMinChunk)
    } else if min_chunk > max_chunk {
        Result::Err(PlanError::ChunkBoundsInverted)
    } else {
        Result::Ok(plan(start, end, min_chunk, max_chunk))
    }
}

} // verus!
