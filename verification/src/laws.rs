//! The correctness laws of the incremental update protocol and of the
//! forward pass, proved over the mathematical model: an activation
//! followed by its deactivation is a round trip, any valid sequence of
//! incremental updates equals a fresh recomputation of the resulting
//! feature set in any order, and the forward pass is symmetric under
//! exchanging the perspectives together with the output-weight halves.
//!
//! The laws connect to the engine through its contracts:
//! `Accumulator::add_feature` and `Accumulator::remove_feature` state
//! their effect as exactly one `add_lanes` or `sub_lanes` step of the
//! model, `Accumulator::new` and `Accumulator::reset` yield the bias
//! (the empty-set recomputation), and `Network::evaluate` is pinned to
//! `score_spec`.

use crate::arith::clamp_spec;
use crate::arith::screlu_spec;
use crate::arith::QA;
use crate::model::add_lanes;
use crate::model::apply_ops;
use crate::model::full_value;
use crate::model::half_sum;
use crate::model::net_sum;
use crate::model::ops_valid;
use crate::model::remove_first;
use crate::model::result_feats;
use crate::model::score_spec;
use crate::model::sub_lanes;
use crate::model::swap_halves;
use crate::model::to_ints;
use vstd::prelude::*;

verus! {

broadcast use vstd::seq_lib::group_to_multiset_ensures;

/// Adding a column to a lane vector and subtracting it again is the
/// identity, and so is subtracting first and adding back.
pub proof fn lemma_add_remove_inverse(v: Seq<int>, c: Seq<int>)
    ensures
        sub_lanes(add_lanes(v, c), c) == v,
        add_lanes(sub_lanes(v, c), c) == v,
{
    assert(sub_lanes(add_lanes(v, c), c) =~= v);
    assert(add_lanes(sub_lanes(v, c), c) =~= v);
}

/// Two lane vectors with equal widened views are equal.
pub proof fn lemma_to_ints_injective(a: Seq<i16>, b: Seq<i16>)
    requires
        to_ints(a) == to_ints(b),
    ensures
        a == b,
{
    assert(a.len() == to_ints(a).len());
    assert(b.len() == to_ints(b).len());
    assert forall|i: int| 0 <= i < a.len() implies a[i] == b[i] by {
        assert(to_ints(a)[i] == a[i] as int);
        assert(to_ints(b)[i] == b[i] as int);
    }
    assert(a =~= b);
}

/// Law: activating a feature and immediately deactivating it returns an
/// accumulator's lanes to their prior exact state.
pub proof fn lemma_add_remove_roundtrip(
    before: Seq<i16>,
    col: Seq<i16>,
    mid: Seq<i16>,
    after: Seq<i16>,
)
    requires
        to_ints(mid) == add_lanes(to_ints(before), to_ints(col)),
        to_ints(after) == sub_lanes(to_ints(mid), to_ints(col)),
    ensures
        after == before,
{
    lemma_add_remove_inverse(to_ints(before), to_ints(col));
    lemma_to_ints_injective(after, before);
}

/// Adding two columns commutes.
proof fn lemma_add_lanes_comm(v: Seq<int>, a: Seq<int>, b: Seq<int>)
    ensures
        add_lanes(add_lanes(v, a), b) == add_lanes(add_lanes(v, b), a),
{
    assert(add_lanes(add_lanes(v, a), b) =~= add_lanes(add_lanes(v, b), a));
}

/// A full recomputation may pull any one feature of the list out in
/// front: its column is added on top of the recomputation of the rest.
proof fn lemma_full_value_remove_index(bias: Seq<int>, cols: Seq<Seq<int>>, feats: Seq<int>, i: int)
    requires
        0 <= i < feats.len(),
    ensures
        full_value(bias, cols, feats) == add_lanes(
            full_value(bias, cols, feats.remove(i)),
            cols[feats[i]],
        ),
    decreases feats.len(),
{
    let x = feats.last();
    let d = feats.drop_last();
    if i == feats.len() - 1 {
        assert(feats.remove(i) =~= d);
    } else {
        assert(feats.remove(i) =~= d.remove(i).push(x));
        assert(feats.remove(i).drop_last() =~= d.remove(i));
        assert(full_value(bias, cols, feats.remove(i)) == add_lanes(
            full_value(bias, cols, d.remove(i)),
            cols[x],
        ));
        lemma_full_value_remove_index(bias, cols, d, i);
        lemma_add_lanes_comm(full_value(bias, cols, d.remove(i)), cols[feats[i]], cols[x]);
    }
}

/// Law: a full recomputation does not depend on the order the active
/// features are enumerated in; any two enumerations of the same feature
/// multiset yield the same lane vector.
pub proof fn lemma_full_value_permutation(
    bias: Seq<int>,
    cols: Seq<Seq<int>>,
    f1: Seq<int>,
    f2: Seq<int>,
)
    requires
        f1.to_multiset() == f2.to_multiset(),
    ensures
        full_value(bias, cols, f1) == full_value(bias, cols, f2),
    decreases f1.len(),
{
    if f1.len() == 0 {
        assert(f2.len() == f2.to_multiset().len());
        assert(f2.len() == 0);
    } else {
        let x = f1.last();
        let d = f1.drop_last();
        assert(f1 =~= d.push(x));
        assert(f1.to_multiset() == d.to_multiset().insert(x));
        assert(f2.to_multiset().count(x) > 0);
        assert(f2.contains(x));
        let i = choose|i: int| 0 <= i < f2.len() && f2[i] == x;
        assert(f2.remove(i).to_multiset() == f2.to_multiset().remove(x));
        assert(d.to_multiset() =~= f2.remove(i).to_multiset());
        lemma_full_value_permutation(bias, cols, d, f2.remove(i));
        lemma_full_value_remove_index(bias, cols, f2, i);
    }
}

/// Law: for any starting feature list and any valid sequence of
/// activations and deactivations, applying the updates to the
/// recomputed starting value yields exactly the recomputation of the
/// resulting feature list; together with `lemma_full_value_permutation`,
/// incremental maintenance equals a fresh reset followed by re-adding
/// the resulting feature set, in any order, integer-exactly.
pub proof fn lemma_incremental_full_equivalence(
    bias: Seq<int>,
    cols: Seq<Seq<int>>,
    feats: Seq<int>,
    ops: Seq<(bool, int)>,
)
    requires
        ops_valid(feats, ops),
    ensures
        apply_ops(full_value(bias, cols, feats), cols, ops) == full_value(
            bias,
            cols,
            result_feats(feats, ops),
        ),
    decreases ops.len(),
{
    if ops.len() > 0 {
        let rest = ops.drop_last();
        let op = ops.last();
        let x = op.1;
        lemma_incremental_full_equivalence(bias, cols, feats, rest);
        let mid = result_feats(feats, rest);
        if op.0 {
            assert(mid.push(x).drop_last() =~= mid);
            assert(full_value(bias, cols, mid.push(x)) == add_lanes(
                full_value(bias, cols, mid),
                cols[x],
            ));
        } else {
            assert(mid.contains(x));
            let i = mid.index_of(x);
            assert(0 <= i < mid.len() && mid[i] == x);
            lemma_full_value_remove_index(bias, cols, mid, i);
            lemma_add_remove_inverse(full_value(bias, cols, remove_first(mid, x)), cols[x]);
        }
    }
}

/// Clamping at the boundaries: a lane at or above `QA` contributes the
/// full `QA` squared, a lane at or below zero contributes nothing, and
/// between the two the lane is squared unclipped.
pub proof fn lemma_screlu_boundary(x: int)
    ensures
        x >= QA as int ==> screlu_spec(x) == (QA as int) * (QA as int),
        x <= 0 ==> screlu_spec(x) == 0,
        0 <= x <= QA as int ==> screlu_spec(x) == x * x,
{
    assert(clamp_spec(0) == 0);
}

/// The two halves of a fold agree when the weights agree at the shifted
/// offsets.
proof fn lemma_half_sum_shift(
    vals: Seq<i16>,
    w1: Seq<i16>,
    off1: int,
    w2: Seq<i16>,
    off2: int,
    n: nat,
)
    requires
        forall|k: int| 0 <= k < n ==> w1[off1 + k] == #[trigger] w2[off2 + k],
    ensures
        half_sum(vals, w1, off1, n) == half_sum(vals, w2, off2, n),
    decreases n,
{
    if n > 0 {
        lemma_half_sum_shift(vals, w1, off1, w2, off2, (n - 1) as nat);
        assert(w1[off1 + (n - 1)] == w2[off2 + (n - 1)]);
    }
}

/// Law: evaluating with the two perspectives exchanged and the
/// side-to-move and other-side output-weight halves exchanged
/// correspondingly yields the identical score; the two halves play
/// symmetric roles around the shared output bias and scales, which is
/// this model's side-to-move framing convention.
pub proof fn lemma_evaluate_symmetry(us: Seq<i16>, them: Seq<i16>, w: Seq<i16>, out_b: int, h: nat)
    requires
        w.len() == 2 * h,
    ensures
        score_spec(them, us, swap_halves(w, h), out_b, h) == score_spec(us, them, w, out_b, h),
{
    let sw = swap_halves(w, h);
    assert forall|k: int| 0 <= k < h implies w[h + k] == #[trigger] sw[0 + k] by {}
    assert forall|k: int| 0 <= k < h implies w[0 + k] == #[trigger] sw[h as int + k] by {}
    lemma_half_sum_shift(them, w, h as int, sw, 0, h);
    lemma_half_sum_shift(us, w, 0, sw, h as int, h);
    assert(net_sum(them, us, sw, h) == net_sum(us, them, w, h));
}

} // verus!
