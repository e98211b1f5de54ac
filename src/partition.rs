//! Cutting a span of time into contiguous sub-ranges, so that a large listing
//! window can be fetched as several independent requests.

use vstd::prelude::*;

verus! {

/// A half-open span of instants `[start, end)`, in nanoseconds since the Unix epoch.
#[derive(Clone, Copy, Debug, PartialEq, Eq, Structural)]
pub struct DateRange {
    pub start: i64,
    pub end: i64,
}

/// How a span is cut into sub-ranges.
#[derive(Clone, Copy, Debug, PartialEq, Eq, Structural)]
pub enum DateChunkingType {
    /// Every chunk lasts this many nanoseconds; the last one is cut short at the end.
    ByDuration(i64),
    /// Every chunk lasts `(end - start) / n` nanoseconds, rounded up, so that at most
    /// `n` chunks come out; the last one is cut short at the end.
    ByNumber(u16),
}

/// A policy that makes progress on a non-empty span: a positive duration, or a
/// positive count. Any policy will do for an empty span.
pub open spec fn chunking_admissible(start: int, end: int, chunking: DateChunkingType) -> bool {
    start < end ==> match chunking {
        DateChunkingType::ByDuration(d) => d > 0,
        DateChunkingType::ByNumber(n) => n > 0,
    }
}

/// The length of every chunk but possibly the last.
pub open spec fn chunk_step(start: int, end: int, chunking: DateChunkingType) -> int {
    match chunking {
        DateChunkingType::ByDuration(d) => d as int,
        DateChunkingType::ByNumber(n) => (end - start + n - 1) / (n as int),
    }
}

/// The sub-ranges `[s, min(s + step, end))` that start at `start` and follow one
/// another until `end` is reached.
pub open spec fn chunks_from(start: int, end: int, step: int) -> Seq<(int, int)>
    decreases end - start,
{
    if start >= end || step <= 0 {
        seq![]
    } else {
        let next = if start + step < end { start + step } else { end };
        seq![(start, next)] + chunks_from(next, end, step)
    }
}

/// The bounds of each range, as integers.
pub open spec fn bounds_of(ranges: Seq<DateRange>) -> Seq<(int, int)> {
    ranges.map_values(|r: DateRange| (r.start as int, r.end as int))
}

/// The sub-ranges from `start` on tile `[start, end)`: each is non-empty and at
/// most one step long, each but the last is exactly one step long and ends where
/// the next begins, and the last ends at `end`.
proof fn lemma_chunks_tile(start: int, end: int, step: int)
    requires
        step > 0,
        start < end,
    ensures
        chunks_from(start, end, step).len() > 0,
        chunks_from(start, end, step)[0].0 == start,
        chunks_from(start, end, step).last().1 == end,
        forall|i: int|
            0 <= i < chunks_from(start, end, step).len() ==> {
                let c = #[trigger] chunks_from(start, end, step)[i];
                c.0 < c.1 && c.1 - c.0 <= step
            },
        forall|i: int|
            0 <= i < chunks_from(start, end, step).len() - 1 ==> {
                let c = #[trigger] chunks_from(start, end, step)[i];
                c.1 == chunks_from(start, end, step)[i + 1].0 && c.1 - c.0 == step
            },
    decreases end - start,
{
    let next = if start + step < end {
        start + step
    } else {
        end
    };
    let rest = chunks_from(next, end, step);
    let all = chunks_from(start, end, step);
    assert(all == seq![(start, next)] + rest);
    if next < end {
        lemma_chunks_tile(next, end, step);
        assert forall|i: int| 0 <= i < all.len() implies {
            let c = #[trigger] all[i];
            c.0 < c.1 && c.1 - c.0 <= step
        } by {
            if i > 0 {
                assert(all[i] == rest[i - 1]);
            }
        }
        assert forall|i: int| 0 <= i < all.len() - 1 implies {
            let c = #[trigger] all[i];
            c.1 == all[i + 1].0 && c.1 - c.0 == step
        } by {
            if i > 0 {
                assert(all[i] == rest[i - 1]);
                assert(all[i + 1] == rest[i]);
            }
        }
    } else {
        assert(rest.len() == 0);
    }
}

/// Where `k` steps from `start` reach `end`, at most `k` sub-ranges come out.
proof fn lemma_chunks_at_most(start: int, end: int, step: int, k: nat)
    requires
        step > 0,
        k >= 1,
        start + k * step >= end,
    ensures
        chunks_from(start, end, step).len() <= k,
    decreases k,
{
    if start < end {
        if start + step < end {
            assert(k * step == step + (k - 1) * step) by (nonlinear_arith);
            if k == 1 {
                assert(k * step == step) by (nonlinear_arith)
                    requires
                        k == 1,
                ;
            } else {
                lemma_chunks_at_most(start + step, end, step, (k - 1) as nat);
                assert(chunks_from(start, end, step).len() == 1 + chunks_from(
                    start + step,
                    end,
                    step,
                ).len());
            }
        } else {
            assert(chunks_from(end, end, step).len() == 0);
            assert(chunks_from(start, end, step).len() == 1);
        }
    }
}

/// Whole steps from `start` to `start + k * step` give exactly `k` sub-ranges.
proof fn lemma_chunks_count(start: int, step: int, k: nat)
    requires
        step > 0,
    ensures
        chunks_from(start, start + k * step, step).len() == k,
    decreases k,
{
    let end = start + k * step;
    if k > 0 {
        assert(k * step == step + (k - 1) * step) by (nonlinear_arith);
        assert((k - 1) * step >= 0) by (nonlinear_arith)
            requires
                k >= 1,
                step > 0,
        ;
        lemma_chunks_count(start + step, step, (k - 1) as nat);
        assert(start + step + (k - 1) * step == end);
    } else {
        assert(k * step == 0) by (nonlinear_arith)
            requires
                k == 0,
        ;
    }
}

/// The step of a count `k` on a span of `span` nanoseconds: at least one
/// nanosecond, and `k` steps cover the span.
proof fn lemma_count_step(span: int, k: int)
    requires
        span > 0,
        k > 0,
    ensures
        (span + k - 1) / k >= 1,
        k * ((span + k - 1) / k) >= span,
{
    let q = (span + k - 1) / k;
    let r = (span + k - 1) % k;
    vstd::arithmetic::div_mod::lemma_fundamental_div_mod(span + k - 1, k);
    assert(0 <= r < k) by {
        vstd::arithmetic::div_mod::lemma_mod_pos_bound(span + k - 1, k);
    }
    assert(span + k - 1 == k * q + r);
    assert(k * q >= span) by (nonlinear_arith)
        requires
            span + k - 1 == k * q + r,
            r < k,
    ;
    assert(q >= 1) by (nonlinear_arith)
        requires
            k * q >= span,
            span > 0,
            k > 0,
    ;
}

/// Cutting a non-empty span `[start, end)` under an admissible policy gives
/// non-empty sub-ranges: the first begins at `start`, the last ends at `end`, and
/// each ends where the next begins, so that together they cover the span with no
/// gap and no overlap. Every one but the last lasts exactly one step, and none lasts
/// longer.
pub proof fn lemma_split_covers_range(start: i64, end: i64, chunking_type: DateChunkingType)
    requires
        chunking_admissible(start as int, end as int, chunking_type),
        start < end,
    ensures
        ({
            let step = chunk_step(start as int, end as int, chunking_type);
            let c = chunks_from(start as int, end as int, step);
            &&& c.len() > 0
            &&& c[0].0 == start
            &&& c.last().1 == end
            &&& forall|i: int| 0 <= i < c.len() ==> #[trigger] c[i].0 < c[i].1 && c[i].1 - c[i].0 <= step
            &&& forall|i: int|
                0 <= i < c.len() - 1 ==> #[trigger] c[i].1 == c[i + 1].0 && c[i].1 - c[i].0 == step
        }),
{
    let step = chunk_step(start as int, end as int, chunking_type);
    if let DateChunkingType::ByNumber(n) = chunking_type {
        lemma_count_step(end - start, n as int);
    }
    lemma_chunks_tile(start as int, end as int, step);
}

/// Cut into `k` chunks, a non-empty span gives at most `k` sub-ranges, and exactly
/// `k`, all of the same length, where `k` divides its length.
pub proof fn lemma_split_by_count_len(start: i64, end: i64, k: u16)
    requires
        start < end,
        k > 0,
    ensures
        chunking_admissible(start as int, end as int, DateChunkingType::ByNumber(k)),
        chunks_from(
            start as int,
            end as int,
            chunk_step(start as int, end as int, DateChunkingType::ByNumber(k)),
        ).len() <= k,
        (end - start) % (k as int) == 0 ==> chunks_from(
            start as int,
            end as int,
            chunk_step(start as int, end as int, DateChunkingType::ByNumber(k)),
        ).len() == k,
{
    let span = end - start;
    let kk = k as int;
    let step = chunk_step(start as int, end as int, DateChunkingType::ByNumber(k));
    lemma_count_step(span, kk);
    assert(start + (k as nat) * step >= end);
    lemma_chunks_at_most(start as int, end as int, step, k as nat);
    if span % kk == 0 {
        let q = span / kk;
        vstd::arithmetic::div_mod::lemma_fundamental_div_mod(span, kk);
        assert(span == kk * q);
        vstd::arithmetic::div_mod::lemma_fundamental_div_mod_converse(span + kk - 1, kk, q, kk - 1);
        assert(step == q);
        assert((k as nat) * step == span);
        lemma_chunks_count(start as int, step, k as nat);
    }
}

/// Cuts `[start, end)` into contiguous sub-ranges as the chunking policy says;
/// an empty or reversed span gives no sub-range.
pub fn split_date_range(start: i64, end: i64, chunking_type: DateChunkingType) -> (chunks: Vec<
    DateRange,
>)
    requires
        chunking_admissible(start as int, end as int, chunking_type),
    ensures
        bounds_of(chunks@) == chunks_from(
            start as int,
            end as int,
            chunk_step(start as int, end as int, chunking_type),
        ),
        chunking_type matches DateChunkingType::ByNumber(n) ==> chunks@.len() <= n,
{
    let mut chunks: Vec<DateRange> = Vec::new();
    if start >= end {
        return chunks;
    }
    let span: i128 = end as i128 - start as i128;
    let step: i128 = match chunking_type {
        DateChunkingType::ByDuration(d) => d as i128,
        DateChunkingType::ByNumber(n) => {
            proof {
                lemma_count_step(span as int, n as int);
            }
            (span + n as i128 - 1) / (n as i128)
        },
    };
    let ghost whole = chunks_from(start as int, end as int, step as int);
    let mut current: i64 = start;
    while current < end
        invariant
            start <= current <= end,
            step > 0,
            bounds_of(chunks@) + chunks_from(current as int, end as int, step as int) == whole,
        decreases end - current,
    {
        let next: i64 = if (end as i128) - (current as i128) <= step {
            end
        } else {
            (current as i128 + step) as i64
        };
        let ghost before = bounds_of(chunks@);
        chunks.push(DateRange { start: current, end: next });
        proof {
            assert(bounds_of(chunks@) == before.push((current as int, next as int)));
            assert(chunks_from(current as int, end as int, step as int) == seq![
                (current as int, next as int),
            ] + chunks_from(next as int, end as int, step as int));
            assert(before + chunks_from(current as int, end as int, step as int) == before.push(
                (current as int, next as int),
            ) + chunks_from(next as int, end as int, step as int));
        }
        current = next;
    }
    proof {
        assert(bounds_of(chunks@) + seq![] == bounds_of(chunks@));
        if let DateChunkingType::ByNumber(n) = chunking_type {
            lemma_split_by_count_len(start, end, n);
        }
    }
    chunks
}

/// A listing window: either end may be open.
#[derive(Clone, Copy, Debug, PartialEq, Eq, Structural)]
pub struct TimeWindow {
    pub start: Option<i64>,
    pub end: Option<i64>,
}

/// A closed window, cut by a policy under which it makes progress.
pub open spec fn window_cuttable(window: TimeWindow, chunking: DateChunkingType) -> bool {
    match (window.start, window.end) {
        (Some(s), Some(e)) => chunking_admissible(s as int, e as int, chunking),
        _ => true,
    }
}

/// The windows to list: one with both ends is cut into contiguous sub-ranges as the
/// policy says, and one with an open end is listed whole.
pub fn listing_windows(window: TimeWindow, chunking: DateChunkingType) -> (windows: Vec<TimeWindow>)
    requires
        window_cuttable(window, chunking),
    ensures
        match (window.start, window.end) {
            (Some(s), Some(e)) => {
                let chunks = chunks_from(s as int, e as int, chunk_step(s as int, e as int, chunking));
                &&& windows@.len() == chunks.len()
                &&& forall|i: int|
                    0 <= i < chunks.len() ==> (#[trigger] windows@[i]).start == Some(
                        chunks[i].0 as i64,
                    ) && windows@[i].end == Some(chunks[i].1 as i64)
            },
            _ => windows@ == seq![window],
        },
{
    match (window.start, window.end) {
        (Some(s), Some(e)) => {
            let ranges = split_date_range(s, e, chunking);
            let ghost chunks = chunks_from(s as int, e as int, chunk_step(s as int, e as int, chunking));
            let mut windows: Vec<TimeWindow> = Vec::new();
            let mut i: usize = 0;
            while i < ranges.len()
                invariant
                    i <= ranges@.len(),
                    bounds_of(ranges@) == chunks,
                    windows@.len() == i,
                    forall|j: int|
                        0 <= j < i ==> (#[trigger] windows@[j]).start == Some(chunks[j].0 as i64)
                            && windows@[j].end == Some(chunks[j].1 as i64),
                decreases ranges@.len() - i,
            {
                assert(bounds_of(ranges@)[i as int] == (ranges@[i as int].start as int, ranges@[i as int].end as int));
                windows.push(TimeWindow { start: Some(ranges[i].start), end: Some(ranges[i].end) });
                i = i + 1;
            }
            windows
        },
        _ => {
            let mut windows: Vec<TimeWindow> = Vec::new();
            windows.push(window);
            windows
        },
    }
}

} // verus!
