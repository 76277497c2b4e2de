//! The evaluation engine: the read-only quantised weight store
//! (`Network`), the per-perspective incremental accumulator
//! (`Accumulator`), and the integer-exact forward pass.

use crate::arith::div_trunc_i64;
use crate::arith::i16_from_le;
use crate::arith::i16_le_spec;
use crate::arith::screlu;
use crate::arith::FEATURE_MAX;
use crate::arith::HIDDEN_MAX;
use crate::arith::QA;
use crate::arith::QB;
use crate::arith::SCALE;
use crate::model::add_lanes;
use crate::model::half_sum;
use crate::model::net_sum;
use crate::model::score_spec;
use crate::model::sub_lanes;
use crate::model::to_ints;
use vstd::prelude::*;

verus! {

/// The error kinds of the engine.
#[derive(Clone, Copy, Debug, PartialEq, Eq, Structural)]
pub enum NnueError {
    /// A weight blob's byte length, or a supplied dimension, does not
    /// match the expected fixed-size layout.
    InvalidFormat,
    /// A feature index outside `[0, feature count)` was passed to an
    /// incremental update.
    IndexOutOfRange,
}

/// The dimension constraints a weight store upholds: every feature column
/// as long as the bias vector, the output-weight vector twice as long,
/// and both dimensions within the fixed bounds.
pub open spec fn dims_ok(cols: Seq<Seq<i16>>, bias: Seq<i16>, out_w: Seq<i16>) -> bool {
    &&& bias.len() <= HIDDEN_MAX as nat
    &&& cols.len() <= FEATURE_MAX as nat
    &&& (forall|f: int| 0 <= f < cols.len() ==> (#[trigger] cols[f]).len() == bias.len())
    &&& out_w.len() == 2 * bias.len()
}

/// Expected byte length of a weight blob: `features` columns of `hidden`
/// words, a bias vector of `hidden` words, an output vector of
/// `2 * hidden` words and one output-bias word, two bytes per word.
pub open spec fn blob_len(features: nat, hidden: nat) -> nat {
    (features * hidden + 3 * hidden + 1) * 2
}

/// The signed 16-bit value stored at word position `k` of a
/// little-endian blob.
pub open spec fn word_at(bytes: Seq<u8>, k: int) -> int {
    i16_le_spec(bytes[2 * k], bytes[2 * k + 1])
}

/// Decodes the word at position `k` of a little-endian blob.
fn read_word(bytes: &Vec<u8>, k: usize) -> (r: i16)
    requires
        2 * (k as int) + 1 < bytes@.len(),
    ensures
        r as int == word_at(bytes@, k as int),
{
    let n: usize = bytes.len();
    assert(2 * (k as int) + 1 < n as int);
    i16_from_le(bytes[2 * k], bytes[2 * k + 1])
}

/// The quantised, immutable parameter set of the network.
pub struct Network {
    /// One weight column per input feature, each of hidden-layer width.
    pub(crate) feature_weights: Vec<Vec<i16>>,
    /// Bias vector of the hidden layer, of hidden-layer width.
    pub(crate) feature_bias: Vec<i16>,
    /// Output-layer weights: a side-to-move half then an other-side half.
    pub(crate) output_weights: Vec<i16>,
    /// Scalar output bias.
    pub(crate) output_bias: i16,
}

impl Network {
    /// The per-feature weight columns.
    pub closed spec fn cols(&self) -> Seq<Seq<i16>> {
        self.feature_weights@.map_values(|c: Vec<i16>| c@)
    }

    /// The hidden-layer bias vector.
    pub closed spec fn bias(&self) -> Seq<i16> {
        self.feature_bias@
    }

    /// The output-layer weight vector, of length twice the hidden width.
    pub closed spec fn out_w(&self) -> Seq<i16> {
        self.output_weights@
    }

    /// The output-layer bias scalar.
    pub closed spec fn out_b(&self) -> int {
        self.output_bias as int
    }

    /// The hidden-layer width.
    pub open spec fn hidden(&self) -> nat {
        self.bias().len()
    }

    /// The number of distinct input features.
    pub open spec fn features(&self) -> nat {
        self.cols().len()
    }

    /// Well-formedness: the dimensions are consistent and bounded.
    pub open spec fn wf(&self) -> bool {
        dims_ok(self.cols(), self.bias(), self.out_w())
    }

    /// The hidden-layer width.
    pub fn hidden_size(&self) -> (r: usize)
        ensures
            r as nat == self.hidden(),
    {
        self.feature_bias.len()
    }

    /// The number of distinct input features.
    pub fn feature_count(&self) -> (r: usize)
        ensures
            r as nat == self.features(),
    {
        self.feature_weights.len()
    }

    /// Read-only access to the weight column of one input feature.
    pub fn feature_column(&self, feature_idx: usize) -> (r: &Vec<i16>)
        requires
            feature_idx < self.features(),
        ensures
            r@ == self.cols()[feature_idx as int],
    {
        proof {
            assert(self.cols()[feature_idx as int] == self.feature_weights@[feature_idx as int]@);
        }
        &self.feature_weights[feature_idx]
    }

    /// Read-only access to the hidden-layer bias vector.
    pub fn feature_bias(&self) -> (r: &Vec<i16>)
        ensures
            r@ == self.bias(),
    {
        &self.feature_bias
    }

    /// Read-only access to the output-layer weight vector.
    pub fn output_weights(&self) -> (r: &Vec<i16>)
        ensures
            r@ == self.out_w(),
    {
        &self.output_weights
    }

    /// The output-layer bias scalar.
    pub fn output_bias(&self) -> (r: i16)
        ensures
            r as int == self.out_b(),
    {
        self.output_bias
    }

    /// Builds a weight store from already-decoded parts, rejecting
    /// inconsistent or oversized dimensions.
    pub fn from_parts(
        feature_weights: Vec<Vec<i16>>,
        feature_bias: Vec<i16>,
        output_weights: Vec<i16>,
        output_bias: i16,
    ) -> (r: Result<Network, NnueError>)
        ensures
            match r {
                Ok(net) => {
                    &&& dims_ok(
                        feature_weights@.map_values(|c: Vec<i16>| c@),
                        feature_bias@,
                        output_weights@,
                    )
                    &&& net.wf()
                    &&& net.cols() == feature_weights@.map_values(|c: Vec<i16>| c@)
                    &&& net.bias() == feature_bias@
                    &&& net.out_w() == output_weights@
                    &&& net.out_b() == output_bias as int
                },
                Err(e) => {
                    &&& e == NnueError::InvalidFormat
                    &&& !dims_ok(
                        feature_weights@.map_values(|c: Vec<i16>| c@),
                        feature_bias@,
                        output_weights@,
                    )
                },
            },
    {
        let ghost gcols = feature_weights@.map_values(|c: Vec<i16>| c@);
        let h = feature_bias.len();
        if h > HIDDEN_MAX {
            return Err(NnueError::InvalidFormat);
        }
        if feature_weights.len() > FEATURE_MAX {
            return Err(NnueError::InvalidFormat);
        }
        if output_weights.len() != 2 * h {
            return Err(NnueError::InvalidFormat);
        }
        let mut f: usize = 0;
        while f < feature_weights.len()
            invariant
                0 <= f <= feature_weights.len(),
                gcols == feature_weights@.map_values(|c: Vec<i16>| c@),
                h == feature_bias.len(),
                forall|k: int| 0 <= k < f ==> (#[trigger] gcols[k]).len() == h as nat,
            decreases feature_weights.len() - f,
        {
            assert(gcols[f as int] == feature_weights@[f as int]@);
            if feature_weights[f].len() != h {
                return Err(NnueError::InvalidFormat);
            }
            assert(gcols[f as int].len() == h as nat);
            f += 1;
        }
        assert(output_weights@.len() == 2 * h);
        Ok(
            Network {
                feature_weights,
                feature_bias,
                output_weights,
                output_bias,
            },
        )
    }

    /// The forward pass at full accumulation width: each perspective's
    /// lanes are activated, folded against its half of the output
    /// weights, and the sum is dequantised.
    fn evaluate_wide(&self, us: &Accumulator, them: &Accumulator) -> (score: i64)
        requires
            self.wf(),
            us@.len() == self.hidden(),
            them@.len() == self.hidden(),
        ensures
            score as int == score_spec(us@, them@, self.out_w(), self.out_b(), self.hidden()),
    {
        let h = self.feature_bias.len();
        let mut output: i64 = 0;

        // Side-To-Move Accumulator -> Output.
        let mut i: usize = 0;
        while i < h
            invariant
                0 <= i <= h,
                h <= HIDDEN_MAX,
                h == self.hidden(),
                us@.len() == h,
                self.out_w().len() == 2 * h,
                self.output_weights@ == self.out_w(),
                us.vals@ == us@,
                output as int == half_sum(us@, self.out_w(), 0, i as nat),
                -(i as int) * 2130739200 <= output as int <= (i as int) * 2130739200,
            decreases h - i,
        {
            let s: i32 = screlu(us.vals[i]);
            let w: i16 = self.output_weights[i];
            proof {
                assert(-2130739200 <= (s as int) * (w as int) <= 2130739200) by (nonlinear_arith)
                    requires
                        0 <= s as int <= 65025,
                        -32768 <= w as int <= 32767,
                ;
            }
            let term: i64 = (s as i64) * (w as i64);
            output = output + term;
            i += 1;
        }

        // Not-Side-To-Move Accumulator -> Output.
        let mut j: usize = 0;
        while j < h
            invariant
                0 <= j <= h,
                h <= HIDDEN_MAX,
                h == self.hidden(),
                them@.len() == h,
                us@.len() == h,
                self.out_w().len() == 2 * h,
                self.output_weights@ == self.out_w(),
                them.vals@ == them@,
                output as int == half_sum(us@, self.out_w(), 0, h as nat) + half_sum(
                    them@,
                    self.out_w(),
                    h as int,
                    j as nat,
                ),
                -((h + j) as int) * 2130739200 <= output as int <= ((h + j) as int) * 2130739200,
            decreases h - j,
        {
            let s: i32 = screlu(them.vals[j]);
            let w: i16 = self.output_weights[h + j];
            proof {
                assert(-2130739200 <= (s as int) * (w as int) <= 2130739200) by (nonlinear_arith)
                    requires
                        0 <= s as int <= 65025,
                        -32768 <= w as int <= 32767,
                ;
            }
            let term: i64 = (s as i64) * (w as i64);
            output = output + term;
            j += 1;
        }
        assert(output as int == net_sum(us@, them@, self.out_w(), self.hidden()));

        // Normalize output and add bias.
        let q: i64 = div_trunc_i64(output, QA as i64);
        let raw: i64 = (SCALE as i64) * (q + self.output_bias as i64);
        let final_eval: i64 = div_trunc_i64(raw, (QA as i64) * (QB as i64));
        final_eval
    }

    /// Calculates the output of the network, starting from the already
    /// calculated hidden layer (done efficiently during incremental
    /// updates).
    pub fn evaluate(&self, us: &Accumulator, them: &Accumulator) -> (score: i32)
        requires
            self.wf(),
            us@.len() == self.hidden(),
            them@.len() == self.hidden(),
            i32::MIN <= score_spec(us@, them@, self.out_w(), self.out_b(), self.hidden())
                <= i32::MAX,
        ensures
            score as int == score_spec(us@, them@, self.out_w(), self.out_b(), self.hidden()),
    {
        let wide = self.evaluate_wide(us, them);
        wide as i32
    }

    /// Forward pass that reports, instead of presupposing, whether the
    /// score fits the 32-bit result type.
    pub fn try_evaluate(&self, us: &Accumulator, them: &Accumulator) -> (r: Option<i32>)
        requires
            self.wf(),
            us@.len() == self.hidden(),
            them@.len() == self.hidden(),
        ensures
            match r {
                Some(score) => score as int == score_spec(
                    us@,
                    them@,
                    self.out_w(),
                    self.out_b(),
                    self.hidden(),
                ),
                None => !(i32::MIN <= score_spec(us@, them@, self.out_w(), self.out_b(), self.hidden()) <= i32::MAX),
            },
    {
        let wide = self.evaluate_wide(us, them);
        if (i32::MIN as i64) <= wide && wide <= (i32::MAX as i64) {
            Some(wide as i32)
        } else {
            None
        }
    }

    /// Loads a weight store from its fixed-layout little-endian blob:
    /// the feature-weight columns, the hidden-layer bias, the output
    /// weights, then the output bias, in that order with no padding. A
    /// blob whose byte length is not exactly the expected total is
    /// rejected whole; nothing is constructed from it.
    pub fn from_bytes(bytes: &Vec<u8>, features: usize, hidden: usize) -> (r: Result<
        Network,
        NnueError,
    >)
        requires
            features <= FEATURE_MAX,
            hidden <= HIDDEN_MAX,
        ensures
            match r {
                Ok(net) => {
                    &&& bytes@.len() == blob_len(features as nat, hidden as nat)
                    &&& net.wf()
                    &&& net.features() == features
                    &&& net.hidden() == hidden
                    &&& forall|f: int, i: int|
                        0 <= f < features && 0 <= i < hidden ==> (#[trigger] net.cols()[f][i]) as int
                            == word_at(bytes@, f * (hidden as int) + i)
                    &&& forall|i: int|
                        0 <= i < hidden ==> (#[trigger] net.bias()[i]) as int == word_at(
                            bytes@,
                            (features as int) * (hidden as int) + i,
                        )
                    &&& forall|i: int|
                        0 <= i < 2 * hidden ==> (#[trigger] net.out_w()[i]) as int == word_at(
                            bytes@,
                            (features as int) * (hidden as int) + (hidden as int) + i,
                        )
                    &&& net.out_b() == word_at(
                        bytes@,
                        (features as int) * (hidden as int) + 3 * (hidden as int),
                    )
                },
                Err(e) => {
                    &&& e == NnueError::InvalidFormat
                    &&& bytes@.len() != blob_len(features as nat, hidden as nat)
                },
            },
    {
        proof {
            assert(0 <= (features as int) * (hidden as int) <= 1048576 * 1048576)
                by (nonlinear_arith)
                requires
                    0 <= features as int <= 1048576,
                    0 <= hidden as int <= 1048576,
            ;
        }
        let fw: u64 = (features as u64) * (hidden as u64);
        let expected: u64 = (fw + 3 * (hidden as u64) + 1) * 2;
        let blen: usize = bytes.len();
        if (blen as u64) != expected {
            return Err(NnueError::InvalidFormat);
        }
        let ghost words: int = (features as int) * (hidden as int) + 3 * (hidden as int) + 1;
        assert(blob_len(features as nat, hidden as nat) == 2 * words);
        assert(bytes@.len() == 2 * words);

        let mut feature_weights: Vec<Vec<i16>> = Vec::new();
        let mut f: usize = 0;
        while f < features
            invariant
                0 <= f <= features,
                features <= FEATURE_MAX,
                hidden <= HIDDEN_MAX,
                words == (features as int) * (hidden as int) + 3 * (hidden as int) + 1,
                blen == bytes@.len(),
                bytes@.len() == 2 * words,
                feature_weights@.len() == f,
                forall|ff: int| 0 <= ff < f ==> (#[trigger] feature_weights@[ff]@).len() == hidden,
                forall|ff: int, i: int|
                    0 <= ff < f && 0 <= i < hidden ==> (#[trigger] feature_weights@[ff]@[i]) as int
                        == word_at(bytes@, ff * (hidden as int) + i),
            decreases features - f,
        {
            let mut col: Vec<i16> = Vec::new();
            let mut i: usize = 0;
            while i < hidden
                invariant
                    0 <= i <= hidden,
                    0 <= f < features,
                    features <= FEATURE_MAX,
                    hidden <= HIDDEN_MAX,
                    words == (features as int) * (hidden as int) + 3 * (hidden as int) + 1,
                    blen == bytes@.len(),
                    bytes@.len() == 2 * words,
                    col@.len() == i,
                    forall|k: int|
                        0 <= k < i ==> (#[trigger] col@[k]) as int == word_at(
                            bytes@,
                            (f as int) * (hidden as int) + k,
                        ),
                decreases hidden - i,
            {
                proof {
                    assert((f as int) * (hidden as int) + (i as int) < (features as int) * (
                    hidden as int)) by (nonlinear_arith)
                        requires
                            0 <= f as int,
                            (f as int) < (features as int),
                            0 <= i as int,
                            (i as int) < (hidden as int),
                    ;
                    assert(0 <= (f as int) * (hidden as int)) by (nonlinear_arith)
                        requires
                            0 <= f as int,
                            0 <= hidden as int,
                    ;
                }
                let k: usize = f * hidden + i;
                col.push(read_word(bytes, k));
                i += 1;
            }
            feature_weights.push(col);
            f += 1;
        }

        proof {
            assert(0 <= (features as int) * (hidden as int)) by (nonlinear_arith)
                requires
                    0 <= features as int,
                    0 <= hidden as int,
            ;
        }
        let base_b: usize = features * hidden;
        let mut feature_bias: Vec<i16> = Vec::new();
        let mut i: usize = 0;
        while i < hidden
            invariant
                0 <= i <= hidden,
                hidden <= HIDDEN_MAX,
                base_b as int == (features as int) * (hidden as int),
                words == base_b as int + 3 * (hidden as int) + 1,
                blen == bytes@.len(),
                bytes@.len() == 2 * words,
                feature_bias@.len() == i,
                forall|k: int|
                    0 <= k < i ==> (#[trigger] feature_bias@[k]) as int == word_at(
                        bytes@,
                        base_b as int + k,
                    ),
            decreases hidden - i,
        {
            feature_bias.push(read_word(bytes, base_b + i));
            i += 1;
        }

        let base_w: usize = base_b + hidden;
        let two_h: usize = 2 * hidden;
        let mut output_weights: Vec<i16> = Vec::new();
        let mut j: usize = 0;
        while j < two_h
            invariant
                0 <= j <= two_h,
                hidden <= HIDDEN_MAX,
                two_h == 2 * hidden,
                base_b as int == (features as int) * (hidden as int),
                base_w == base_b as int + hidden as int,
                words == base_b as int + 3 * (hidden as int) + 1,
                blen == bytes@.len(),
                bytes@.len() == 2 * words,
                output_weights@.len() == j,
                forall|k: int|
                    0 <= k < j ==> (#[trigger] output_weights@[k]) as int == word_at(
                        bytes@,
                        base_w as int + k,
                    ),
            decreases two_h - j,
        {
            output_weights.push(read_word(bytes, base_w + j));
            j += 1;
        }

        let output_bias: i16 = read_word(bytes, base_w + two_h);
        let net = Network { feature_weights, feature_bias, output_weights, output_bias };
        proof {
            assert forall|ff: int| 0 <= ff < features implies (#[trigger] net.cols()[ff]).len()
                == hidden by {
                assert(net.cols()[ff] == net.feature_weights@[ff]@);
            }
            assert forall|ff: int, i: int| 0 <= ff < features && 0 <= i < hidden implies (
            #[trigger] net.cols()[ff][i]) as int == word_at(
                bytes@,
                ff * (hidden as int) + i,
            ) by {
                assert(net.cols()[ff] == net.feature_weights@[ff]@);
            }
        }
        Ok(net)
    }
}

/// Cached hidden-layer state for one side-of-the-board perspective,
/// updated incrementally as features toggle.
pub struct Accumulator {
    /// One quantised value per hidden-layer lane.
    pub(crate) vals: Vec<i16>,
}

impl View for Accumulator {
    type V = Seq<i16>;

    closed spec fn view(&self) -> Seq<i16> {
        self.vals@
    }
}

impl Accumulator {
    /// Initialised with bias so we can just efficiently
    /// operate on it afterwards.
    pub fn new(net: &Network) -> (r: Accumulator)
        ensures
            r@ == net.bias(),
    {
        let mut vals: Vec<i16> = Vec::new();
        let mut i: usize = 0;
        while i < net.feature_bias.len()
            invariant
                0 <= i <= net.feature_bias.len(),
                vals@ == net.feature_bias@.take(i as int),
            decreases net.feature_bias.len() - i,
        {
            vals.push(net.feature_bias[i]);
            assert(vals@ =~= net.feature_bias@.take(i + 1));
            i += 1;
        }
        assert(vals@ =~= net.feature_bias@);
        Accumulator { vals }
    }

    /// Reinitialises the accumulator to the network's bias vector, as
    /// when a perspective is established afresh.
    pub fn reset(&mut self, net: &Network)
        ensures
            final(self)@ == net.bias(),
    {
        *self = Accumulator::new(net);
    }

    /// Read-only access to the lane values.
    pub fn values(&self) -> (r: &Vec<i16>)
        ensures
            r@ == self@,
    {
        &self.vals
    }

    /// Add a feature to an accumulator: every lane gains the feature's
    /// weight-column entry.
    pub fn add_feature(&mut self, feature_idx: usize, net: &Network)
        requires
            feature_idx < net.features(),
            old(self)@.len() == net.cols()[feature_idx as int].len(),
            forall|i: int|
                0 <= i < old(self)@.len() ==> i16::MIN <= #[trigger] old(self)@[i] + net.cols()[feature_idx as int][i] <= i16::MAX,
        ensures
            final(self)@.len() == old(self)@.len(),
            to_ints(final(self)@) == add_lanes(
                to_ints(old(self)@),
                to_ints(net.cols()[feature_idx as int]),
            ),
    {
        let ghost col = net.cols()[feature_idx as int];
        assert(col == net.feature_weights@[feature_idx as int]@);
        let deltas = &net.feature_weights[feature_idx];
        let n = self.vals.len();
        let mut i: usize = 0;
        while i < n
            invariant
                0 <= i <= n,
                n == self.vals.len(),
                n == old(self)@.len(),
                deltas@ == col,
                n == col.len(),
                forall|k: int|
                    0 <= k < old(self)@.len() ==> i16::MIN <= #[trigger] old(self)@[k] + col[k] <= i16::MAX,
                forall|k: int| 0 <= k < i ==> self.vals@[k] as int == old(self)@[k] + col[k],
                forall|k: int| i <= k < n ==> self.vals@[k] == old(self)@[k],
            decreases n - i,
        {
            assert(self.vals@[i as int] == old(self)@[i as int]);
            assert(i16::MIN <= old(self)@[i as int] + col[i as int] <= i16::MAX);
            let v = self.vals[i] + deltas[i];
            self.vals.set(i, v);
            i += 1;
        }
        assert(to_ints(self@) =~= add_lanes(to_ints(old(self)@), to_ints(col)));
    }

    /// Remove a feature from an accumulator: every lane loses the
    /// feature's weight-column entry.
    pub fn remove_feature(&mut self, feature_idx: usize, net: &Network)
        requires
            feature_idx < net.features(),
            old(self)@.len() == net.cols()[feature_idx as int].len(),
            forall|i: int|
                0 <= i < old(self)@.len() ==> i16::MIN <= #[trigger] old(self)@[i] - net.cols()[feature_idx as int][i] <= i16::MAX,
        ensures
            final(self)@.len() == old(self)@.len(),
            to_ints(final(self)@) == sub_lanes(
                to_ints(old(self)@),
                to_ints(net.cols()[feature_idx as int]),
            ),
    {
        let ghost col = net.cols()[feature_idx as int];
        assert(col == net.feature_weights@[feature_idx as int]@);
        let deltas = &net.feature_weights[feature_idx];
        let n = self.vals.len();
        let mut i: usize = 0;
        while i < n
            invariant
                0 <= i <= n,
                n == self.vals.len(),
                n == old(self)@.len(),
                deltas@ == col,
                n == col.len(),
                forall|k: int|
                    0 <= k < old(self)@.len() ==> i16::MIN <= #[trigger] old(self)@[k] - col[k] <= i16::MAX,
                forall|k: int| 0 <= k < i ==> self.vals@[k] as int == old(self)@[k] - col[k],
                forall|k: int| i <= k < n ==> self.vals@[k] == old(self)@[k],
            decreases n - i,
        {
            assert(self.vals@[i as int] == old(self)@[i as int]);
            assert(i16::MIN <= old(self)@[i as int] - col[i as int] <= i16::MAX);
            let v = self.vals[i] - deltas[i];
            self.vals.set(i, v);
            i += 1;
        }
        assert(to_ints(self@) =~= sub_lanes(to_ints(old(self)@), to_ints(col)));
    }

    /// Fallible activation: rejects an out-of-range feature index with
    /// `IndexOutOfRange` instead of requiring the caller to rule it out.
    pub fn checked_add_feature(&mut self, feature_idx: usize, net: &Network) -> (r: Result<
        (),
        NnueError,
    >)
        requires
            net.wf(),
            old(self)@.len() == net.hidden(),
            feature_idx < net.features() ==> forall|i: int|
                0 <= i < old(self)@.len() ==> i16::MIN <= #[trigger] old(self)@[i] + net.cols()[feature_idx as int][i] <= i16::MAX,
        ensures
            final(self)@.len() == old(self)@.len(),
            feature_idx < net.features() ==> r == Ok::<(), NnueError>(()) && to_ints(final(self)@)
                == add_lanes(to_ints(old(self)@), to_ints(net.cols()[feature_idx as int])),
            feature_idx >= net.features() ==> r == Err::<(), NnueError>(NnueError::IndexOutOfRange)
                && final(self)@ == old(self)@,
    {
        if feature_idx < net.feature_weights.len() {
            self.add_feature(feature_idx, net);
            Ok(())
        } else {
            Err(NnueError::IndexOutOfRange)
        }
    }

    /// Fallible deactivation: rejects an out-of-range feature index with
    /// `IndexOutOfRange` instead of requiring the caller to rule it out.
    pub fn checked_remove_feature(&mut self, feature_idx: usize, net: &Network) -> (r: Result<
        (),
        NnueError,
    >)
        requires
            net.wf(),
            old(self)@.len() == net.hidden(),
            feature_idx < net.features() ==> forall|i: int|
                0 <= i < old(self)@.len() ==> i16::MIN <= #[trigger] old(self)@[i] - net.cols()[feature_idx as int][i] <= i16::MAX,
        ensures
            final(self)@.len() == old(self)@.len(),
            feature_idx < net.features() ==> r == Ok::<(), NnueError>(()) && to_ints(final(self)@)
                == sub_lanes(to_ints(old(self)@), to_ints(net.cols()[feature_idx as int])),
            feature_idx >= net.features() ==> r == Err::<(), NnueError>(NnueError::IndexOutOfRange)
                && final(self)@ == old(self)@,
    {
        if feature_idx < net.feature_weights.len() {
            self.remove_feature(feature_idx, net);
            Ok(())
        } else {
            Err(NnueError::IndexOutOfRange)
        }
    }
}

} // verus!
