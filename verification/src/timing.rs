//! Presentation timestamp synthesis.
//!
//! A decoded unit may come out of the decoder without a presentation
//! timestamp.  Handing it onward without one would make downstream muxers
//! reject it, so the transcoder synthesizes the monotonic fallback
//! "previous timestamp plus one", saturated at the top of the 64-bit range.
//! This module defines that rule, its extension to a whole sequence of
//! decoded units, and the monotonicity law it guarantees.

use vstd::prelude::*;

verus! {

/// The timestamp given to one decoded unit: its own when it has one, else
/// the previous timestamp plus one (saturated).
pub open spec fn synth_pts_one(prev: int, src: Option<i64>) -> int {
    match src {
        Option::Some(p) => p as int,
        Option::None => if prev >= i64::MAX {
            i64::MAX as int
        } else {
            prev + 1
        },
    }
}

/// The timestamps given to a sequence of decoded units, each synthesis
/// continuing from the previous unit's timestamp.
pub open spec fn synth_pts_seq(prev: int, srcs: Seq<Option<i64>>) -> Seq<int>
    decreases srcs.len(),
{
    if srcs.len() == 0 {
        Seq::empty()
    } else {
        seq![synth_pts_one(prev, srcs[0])] + synth_pts_seq(
            synth_pts_one(prev, srcs[0]),
            srcs.skip(1),
        )
    }
}

/// The timestamp emitted just before position `i`: the timestamp of unit
/// `i - 1`, or the starting timestamp when `i` is the first position.
pub open spec fn emitted_before(prev: int, srcs: Seq<Option<i64>>, i: int) -> int {
    if i <= 0 {
        prev
    } else {
        synth_pts_seq(prev, srcs)[i - 1]
    }
}

/// Executable form of `synth_pts_one`, on the transcoder's running
/// timestamp.
pub fn synth_next_pts(last_pts: i64, src: Option<i64>) -> (r: i64)
    ensures
        r as int == synth_pts_one(last_pts as int, src),
{
    match src {
        Option::Some(p) => p,
        Option::None => if last_pts == i64::MAX {
            i64::MAX
        } else {
            last_pts + 1
        },
    }
}

pub proof fn lemma_synth_pts_seq_len(prev: int, srcs: Seq<Option<i64>>)
    ensures
        synth_pts_seq(prev, srcs).len() == srcs.len(),
    decreases srcs.len(),
{
    if srcs.len() > 0 {
        lemma_synth_pts_seq_len(synth_pts_one(prev, srcs[0]), srcs.skip(1));
    }
}

/// Unfolding of `synth_pts_seq` at one position: the timestamp emitted at
/// position `i` is the one-step synthesis from the timestamp emitted just
/// before it.
pub proof fn lemma_synth_pts_seq_index(prev: int, srcs: Seq<Option<i64>>, i: int)
    requires
        0 <= i < srcs.len(),
    ensures
        synth_pts_seq(prev, srcs).len() == srcs.len(),
        synth_pts_seq(prev, srcs)[i] == synth_pts_one(emitted_before(prev, srcs, i), srcs[i]),
    decreases i,
{
    lemma_synth_pts_seq_len(prev, srcs);
    let e0 = synth_pts_one(prev, srcs[0]);
    let rest = srcs.skip(1);
    lemma_synth_pts_seq_len(e0, rest);
    if i > 0 {
        lemma_synth_pts_seq_index(e0, rest, i - 1);
        assert(rest[i - 1] == srcs[i]);
        assert(synth_pts_seq(prev, srcs)[i] == synth_pts_seq(e0, rest)[i - 1]);
        if i == 1 {
            assert(emitted_before(e0, rest, 0) == emitted_before(prev, srcs, 1));
        } else {
            assert(synth_pts_seq(prev, srcs)[i - 1] == synth_pts_seq(e0, rest)[i - 2]);
            assert(emitted_before(e0, rest, i - 1) == emitted_before(prev, srcs, i));
        }
    }
}

/// Monotonicity of synthesized timestamps.  Starting from timestamp `prev`,
/// as long as every unit that carries its own timestamp does not step
/// backwards (it is at least the timestamp emitted just before it), the
/// emitted timestamps never decrease; and a unit without a timestamp is
/// given one strictly greater than its predecessor's, as long as the
/// predecessor's is below the saturation point `i64::MAX`.  So a
/// decoder-side timestamp gap produces neither ties nor decreases.
pub proof fn lemma_synth_pts_monotone(prev: int, srcs: Seq<Option<i64>>)
    requires
        i64::MIN <= prev <= i64::MAX,
        forall|i: int|
            0 <= i < srcs.len() ==> (#[trigger] srcs[i] matches Some(p) ==> p as int
                >= emitted_before(prev, srcs, i)),
    ensures
        forall|i: int|
            0 <= i < srcs.len() ==> #[trigger] synth_pts_seq(prev, srcs)[i] >= emitted_before(
                prev,
                srcs,
                i,
            ),
        forall|i: int|
            0 <= i < srcs.len() && srcs[i] is None && emitted_before(prev, srcs, i) < i64::MAX
                ==> #[trigger] synth_pts_seq(prev, srcs)[i] > emitted_before(prev, srcs, i),
        forall|i: int|
            0 <= i < srcs.len() ==> i64::MIN <= #[trigger] synth_pts_seq(prev, srcs)[i]
                <= i64::MAX,
    decreases srcs.len(),
{
    lemma_synth_pts_seq_len(prev, srcs);
    if srcs.len() > 0 {
        let e0 = synth_pts_one(prev, srcs[0]);
        let rest = srcs.skip(1);
        let out = synth_pts_seq(prev, srcs);
        let out_rest = synth_pts_seq(e0, rest);
        lemma_synth_pts_seq_len(e0, rest);
        assert(out == seq![e0] + out_rest);
        assert(e0 <= i64::MAX);
        assert forall|i: int|
            0 <= i < rest.len() implies (#[trigger] rest[i] matches Some(p) ==> p as int
            >= emitted_before(e0, rest, i)) by {
            assert(rest[i] == srcs[i + 1]);
            assert(emitted_before(e0, rest, i) == emitted_before(prev, srcs, i + 1));
        }
        lemma_synth_pts_monotone(e0, rest);
        assert(i64::MIN <= e0);
        assert forall|i: int| 0 <= i < srcs.len() implies #[trigger] synth_pts_seq(prev, srcs)[i]
            >= emitted_before(prev, srcs, i) && i64::MIN <= synth_pts_seq(prev, srcs)[i]
            <= i64::MAX by {
            if i > 0 {
                assert(out[i] == out_rest[i - 1]);
                assert(emitted_before(prev, srcs, i) == emitted_before(e0, rest, i - 1));
            }
        }
        assert forall|i: int|
            0 <= i < srcs.len() && srcs[i] is None && emitted_before(prev, srcs, i)
                < i64::MAX implies #[trigger] synth_pts_seq(prev, srcs)[i] > emitted_before(
            prev,
            srcs,
            i,
        ) by {
            if i > 0 {
                assert(rest[i - 1] == srcs[i]);
                assert(out[i] == out_rest[i - 1]);
                assert(emitted_before(prev, srcs, i) == emitted_before(e0, rest, i - 1));
            }
        }
    }
}

} // verus!
