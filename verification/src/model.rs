//! Mathematical model of the evaluator: lane vectors as sequences of
//! unbounded integers, the elementwise update that a feature toggle
//! performs, the value a full recomputation yields, and the score formula
//! of the forward pass.

use crate::arith::div_trunc;
use crate::arith::screlu_spec;
use crate::arith::QA;
use crate::arith::QB;
use crate::arith::SCALE;
use vstd::prelude::*;

verus! {

/// A lane vector of quantised integers, widened to unbounded integers.
pub open spec fn to_ints(s: Seq<i16>) -> Seq<int> {
    s.map_values(|x: i16| x as int)
}

/// Elementwise sum of a lane vector and a weight column.
pub open spec fn add_lanes(v: Seq<int>, c: Seq<int>) -> Seq<int> {
    Seq::new(v.len(), |i: int| v[i] + c[i])
}

/// Elementwise difference of a lane vector and a weight column.
pub open spec fn sub_lanes(v: Seq<int>, c: Seq<int>) -> Seq<int> {
    Seq::new(v.len(), |i: int| v[i] - c[i])
}

/// The lane vector a full recomputation yields: the bias plus the columns
/// of every feature in `feats`, added in order.
pub open spec fn full_value(bias: Seq<int>, cols: Seq<Seq<int>>, feats: Seq<int>) -> Seq<int>
    decreases feats.len(),
{
    if feats.len() == 0 {
        bias
    } else {
        add_lanes(full_value(bias, cols, feats.drop_last()), cols[feats.last()])
    }
}

/// One incremental update: `true` activates the feature with the given
/// index, `false` deactivates it.
pub open spec fn apply_op(v: Seq<int>, cols: Seq<Seq<int>>, op: (bool, int)) -> Seq<int> {
    if op.0 {
        add_lanes(v, cols[op.1])
    } else {
        sub_lanes(v, cols[op.1])
    }
}

/// The lane vector after a whole sequence of incremental updates.
pub open spec fn apply_ops(v: Seq<int>, cols: Seq<Seq<int>>, ops: Seq<(bool, int)>) -> Seq<int>
    decreases ops.len(),
{
    if ops.len() == 0 {
        v
    } else {
        apply_op(apply_ops(v, cols, ops.drop_last()), cols, ops.last())
    }
}

/// `feats` with its first occurrence of `x` taken out.
pub open spec fn remove_first(feats: Seq<int>, x: int) -> Seq<int> {
    feats.remove(feats.index_of(x))
}

/// The active feature list after a sequence of updates: an activation
/// appends its feature, a deactivation takes one occurrence out.
pub open spec fn result_feats(feats: Seq<int>, ops: Seq<(bool, int)>) -> Seq<int>
    decreases ops.len(),
{
    if ops.len() == 0 {
        feats
    } else {
        let mid = result_feats(feats, ops.drop_last());
        if ops.last().0 {
            mid.push(ops.last().1)
        } else {
            remove_first(mid, ops.last().1)
        }
    }
}

/// The caller discipline of the update protocol: a feature is only
/// deactivated while it is active.
pub open spec fn ops_valid(feats: Seq<int>, ops: Seq<(bool, int)>) -> bool
    decreases ops.len(),
{
    if ops.len() == 0 {
        true
    } else {
        ops_valid(feats, ops.drop_last()) && (ops.last().0 || result_feats(
            feats,
            ops.drop_last(),
        ).contains(ops.last().1))
    }
}

/// Sum over the first `n` lanes of the activated lane values times their
/// output weights, the weights read from offset `off`.
pub open spec fn half_sum(vals: Seq<i16>, w: Seq<i16>, off: int, n: nat) -> int
    decreases n,
{
    if n == 0 {
        0
    } else {
        half_sum(vals, w, off, (n - 1) as nat) + screlu_spec(vals[n - 1] as int) * (w[off + n
            - 1] as int)
    }
}

/// The raw network output before dequantisation: both perspectives folded
/// against their halves of the output-weight vector.
pub open spec fn net_sum(us: Seq<i16>, them: Seq<i16>, w: Seq<i16>, h: nat) -> int {
    half_sum(us, w, 0, h) + half_sum(them, w, h as int, h)
}

/// The score of the forward pass: the raw sum dequantised by `QA`, offset
/// by the output bias, scaled by `SCALE` and dequantised by `QA * QB`,
/// every division truncating toward zero.
pub open spec fn score_spec(us: Seq<i16>, them: Seq<i16>, w: Seq<i16>, out_b: int, h: nat) -> int {
    let raw = (SCALE as int) * (div_trunc(net_sum(us, them, w, h), QA as int) + out_b);
    div_trunc(raw, (QA as int) * (QB as int))
}

/// The output-weight vector with its side-to-move and other-side halves
/// exchanged.
pub open spec fn swap_halves(w: Seq<i16>, h: nat) -> Seq<i16> {
    w.subrange(h as int, 2 * h as int) + w.subrange(0, h as int)
}

} // verus!
