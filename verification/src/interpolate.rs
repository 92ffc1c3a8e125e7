//! Piecewise-linear interpolation of clock offsets onto timestamps, with a
//! monotone cursor.
//!
//! A stream's clock offsets form a non-decreasing table of
//! `(collection_time, offset_value)` pairs.  For a timestamp `t`, the
//! interpolator finds the surrounding pair of offsets with a cursor that
//! only moves forward across a stream's non-decreasing timestamps, and adds
//! the linearly interpolated offset to `t`.  Before the first offset the
//! first offset's value is added unchanged; past the last offset (or when
//! the surrounding collection times coincide) the earlier offset's value is
//! added unchanged.

use crate::chunk_structs::ClockOffsetChunk;
use crate::fp::{f64_is_finite, f64_le, f64_lt, fp64_add, fp64_div, fp64_lt, fp64_mul, fp64_sub,
    spec_fp64_add, spec_fp64_div, spec_fp64_mul, spec_fp64_sub, F64_ONE_BITS, F64_ZERO_BITS};
use vstd::prelude::*;

verus! {

/// Advances the cursor while the next offset's collection time is still
/// before `ts`.
pub open spec fn spec_advance_cursor(offsets: Seq<ClockOffsetChunk>, idx: nat, ts: u64) -> nat
    decreases offsets.len() - idx,
{
    if idx + 1 < offsets.len() && f64_lt(offsets[idx as int + 1].collection_time, ts) {
        spec_advance_cursor(offsets, idx + 1, ts)
    } else {
        idx
    }
}

/// The interpolated timestamp and the new cursor.  With no offsets the
/// timestamp and cursor are unchanged; before the first offset the first
/// offset's value is added; otherwise the cursor advances and the offset is
/// interpolated linearly between the surrounding pair, or taken from the
/// earlier one when the pair's collection times do not properly increase.
pub open spec fn spec_interpolate(offsets: Seq<ClockOffsetChunk>, idx: nat, ts: u64) -> (
    u64,
    nat,
) {
    if offsets.len() == 0 {
        (ts, idx)
    } else if f64_lt(ts, offsets[0].collection_time) {
        (spec_fp64_add(ts, offsets[0].offset_value), idx)
    } else {
        let idx2 = spec_advance_cursor(offsets, idx, ts);
        let last = offsets[offsets.len() - 1];
        let prev = if idx2 < offsets.len() {
            offsets[idx2 as int]
        } else {
            last
        };
        let next = if idx2 + 1 < offsets.len() {
            offsets[idx2 as int + 1]
        } else {
            last
        };
        let dt = spec_fp64_sub(next.collection_time, prev.collection_time);
        let interp = if f64_lt(F64_ZERO_BITS, dt) {
            let x = spec_fp64_div(spec_fp64_sub(ts, prev.collection_time), dt);
            spec_fp64_add(
                spec_fp64_mul(prev.offset_value, spec_fp64_sub(F64_ONE_BITS, x)),
                spec_fp64_mul(next.offset_value, x),
            )
        } else {
            prev.offset_value
        };
        (spec_fp64_add(ts, interp), idx2)
    }
}

/// The cursor never moves backward, and never past the last offset unless it
/// already was.
pub proof fn lemma_advance_cursor_bounds(offsets: Seq<ClockOffsetChunk>, idx: nat, ts: u64)
    ensures
        idx <= spec_advance_cursor(offsets, idx, ts),
        spec_advance_cursor(offsets, idx, ts) == idx || spec_advance_cursor(offsets, idx, ts)
            < offsets.len(),
    decreases offsets.len() - idx,
{
    if idx + 1 < offsets.len() && f64_lt(offsets[idx as int + 1].collection_time, ts) {
        lemma_advance_cursor_bounds(offsets, idx + 1, ts);
    }
}

/// Adds the interpolated clock offset for `ts` to `ts`, per
/// [`spec_interpolate`], advancing the cursor `offset_index` monotonically.
pub fn interpolate_and_add_offsets(
    ts: u64,
    stream_offsets: &[ClockOffsetChunk],
    offset_index: &mut usize,
) -> (r: u64)
    ensures
        r == spec_interpolate(stream_offsets@, *old(offset_index) as nat, ts).0,
        *final(offset_index) as nat == spec_interpolate(
            stream_offsets@,
            *old(offset_index) as nat,
            ts,
        ).1,
        *old(offset_index) <= *final(offset_index),
        *final(offset_index) == *old(offset_index) || *final(offset_index)
            < stream_offsets@.len(),
        stream_offsets@.len() == 0 ==> r == ts && *final(offset_index) == *old(offset_index),
        offsets_sorted(stream_offsets@) && offsets_finite(stream_offsets@)
            && stream_offsets@.len() > 0 && *old(offset_index) < stream_offsets@.len() && f64_lt(
            stream_offsets@[stream_offsets@.len() - 1].collection_time,
            ts,
        ) ==> r == spec_fp64_add(ts, stream_offsets@[stream_offsets@.len() - 1].offset_value)
            && *final(offset_index) == stream_offsets@.len() - 1,
        stream_offsets@.len() == 2 && stream_offsets@[0].collection_time == F64_ZERO_BITS
            && f64_is_finite(stream_offsets@[1].collection_time) && f64_lt(
            F64_ZERO_BITS,
            stream_offsets@[1].collection_time,
        ) && f64_is_finite(ts) && f64_le(F64_ZERO_BITS, ts) && f64_le(
            ts,
            stream_offsets@[1].collection_time,
        ) && *old(offset_index) == 0 ==> r == spec_fp64_add(
            ts,
            spec_fp64_add(
                spec_fp64_mul(
                    stream_offsets@[0].offset_value,
                    spec_fp64_sub(
                        F64_ONE_BITS,
                        spec_fp64_div(ts, stream_offsets@[1].collection_time),
                    ),
                ),
                spec_fp64_mul(
                    stream_offsets@[1].offset_value,
                    spec_fp64_div(ts, stream_offsets@[1].collection_time),
                ),
            ),
        ),
{
    let n = stream_offsets.len();
    if n == 0 {
        return ts;
    }
    if fp64_lt(ts, stream_offsets[0].collection_time) {
        proof {
            if offsets_sorted(stream_offsets@) && offsets_finite(stream_offsets@) && f64_lt(
                stream_offsets@[n as int - 1].collection_time,
                ts,
            ) {
                lemma_sorted_le(stream_offsets@, 0, n as int - 1);
            }
        }
        return fp64_add(ts, stream_offsets[0].offset_value);
    }
    let ghost idx0 = *offset_index as nat;
    let mut idx: usize = *offset_index;
    while idx < n - 1 && fp64_lt(stream_offsets[idx + 1].collection_time, ts)
        invariant
            n == stream_offsets@.len(),
            n >= 1,
            idx0 <= idx as nat,
            idx as nat == idx0 || idx < n,
            spec_advance_cursor(stream_offsets@, idx as nat, ts) == spec_advance_cursor(
                stream_offsets@,
                idx0,
                ts,
            ),
        decreases n - idx,
    {
        idx = idx + 1;
    }
    proof {
        assert(spec_advance_cursor(stream_offsets@, idx as nat, ts) == idx as nat);
    }
    let prev: ClockOffsetChunk = if idx < n {
        stream_offsets[idx]
    } else {
        stream_offsets[n - 1]
    };
    let next: ClockOffsetChunk = if idx < n - 1 {
        stream_offsets[idx + 1]
    } else {
        stream_offsets[n - 1]
    };
    *offset_index = idx;
    let dt = fp64_sub(next.collection_time, prev.collection_time);
    let interp: u64 = if fp64_lt(crate::fp::F64_ZERO_BITS, dt) {
        let x = fp64_div(fp64_sub(ts, prev.collection_time), dt);
        fp64_add(
            fp64_mul(prev.offset_value, fp64_sub(F64_ONE_BITS, x)),
            fp64_mul(next.offset_value, x),
        )
    } else {
        prev.offset_value
    };
    let r = fp64_add(ts, interp);
    proof {
        if offsets_sorted(stream_offsets@) && offsets_finite(stream_offsets@) && idx0 < n
            && f64_lt(stream_offsets@[n as int - 1].collection_time, ts) {
            assert forall|j: int|
                idx0 + 1 <= j < stream_offsets@.len() implies f64_lt(
                (#[trigger] stream_offsets@[j]).collection_time,
                ts,
            ) by {
                lemma_sorted_le(stream_offsets@, j, n as int - 1);
            }
            lemma_advance_to_end(stream_offsets@, idx0, ts);
            assert(idx == n - 1);
            assert(prev == stream_offsets@[n as int - 1]);
            assert(next == stream_offsets@[n as int - 1]);
            assert(dt == F64_ZERO_BITS);
            assert(interp == prev.offset_value);
        }
        if stream_offsets@.len() == 2 && stream_offsets@[0].collection_time == F64_ZERO_BITS
            && f64_is_finite(stream_offsets@[1].collection_time) && f64_lt(
            F64_ZERO_BITS,
            stream_offsets@[1].collection_time,
        ) && f64_is_finite(ts) && f64_le(F64_ZERO_BITS, ts) && f64_le(
            ts,
            stream_offsets@[1].collection_time,
        ) && idx0 == 0 {
            assert(!f64_lt(stream_offsets@[1].collection_time, ts));
            assert(spec_advance_cursor(stream_offsets@, 0, ts) == 0);
            assert(idx == 0);
            assert(prev == stream_offsets@[0]);
            assert(next == stream_offsets@[1]);
            assert(dt == stream_offsets@[1].collection_time);
            assert(f64_lt(F64_ZERO_BITS, dt));
        }
    }
    r
}

/// Law: with an empty offset table the timestamp and the cursor are
/// unchanged, for every timestamp and cursor.
pub proof fn lemma_interpolate_empty(idx: nat, ts: u64)
    ensures
        spec_interpolate(Seq::<ClockOffsetChunk>::empty(), idx, ts) == (ts, idx),
{
}

/// Law: for a timestamp before the first offset's collection time, the first
/// offset's value is added and the cursor is unchanged, for every cursor.
pub proof fn lemma_interpolate_before_range(offsets: Seq<ClockOffsetChunk>, idx: nat, ts: u64)
    requires
        offsets.len() > 0,
        f64_lt(ts, offsets[0].collection_time),
    ensures
        spec_interpolate(offsets, idx, ts) == (
            spec_fp64_add(ts, offsets[0].offset_value),
            idx,
        ),
{
}

/// Non-decreasing collection times, pairwise.
pub open spec fn offsets_sorted(offsets: Seq<ClockOffsetChunk>) -> bool {
    forall|i: int|
        0 <= i && i + 1 < offsets.len() ==> f64_le(
            (#[trigger] offsets[i]).collection_time,
            offsets[i + 1].collection_time,
        )
}

/// All collection times finite.
pub open spec fn offsets_finite(offsets: Seq<ClockOffsetChunk>) -> bool {
    forall|i: int| 0 <= i < offsets.len() ==> f64_is_finite((#[trigger] offsets[i]).collection_time)
}

/// In a sorted table, every collection time is at most the one at a later
/// index.
proof fn lemma_sorted_le(offsets: Seq<ClockOffsetChunk>, i: int, j: int)
    requires
        offsets_sorted(offsets),
        offsets_finite(offsets),
        0 <= i <= j < offsets.len(),
    ensures
        f64_le(offsets[i].collection_time, offsets[j].collection_time),
    decreases j - i,
{
    if i < j {
        lemma_sorted_le(offsets, i, j - 1);
    }
}

/// When every later collection time is before `ts`, the cursor advances all
/// the way to the last offset.
proof fn lemma_advance_to_end(offsets: Seq<ClockOffsetChunk>, idx: nat, ts: u64)
    requires
        idx < offsets.len(),
        forall|j: int|
            idx + 1 <= j < offsets.len() ==> f64_lt((#[trigger] offsets[j]).collection_time, ts),
    ensures
        spec_advance_cursor(offsets, idx, ts) == offsets.len() - 1,
    decreases offsets.len() - idx,
{
    if idx + 1 < offsets.len() {
        lemma_advance_to_end(offsets, idx + 1, ts);
    }
}

} // verus!
