//! A single unit: a weight vector, a bias, and an activation.

use vstd::prelude::*;
use crate::error::NetworkError;
use crate::rng::gen_range_bits;
use crate::rng::sample_indices;
use crate::scalar::Activation;
use crate::scalar::ONE_BITS;
use crate::scalar::NEG_ONE_BITS;
use crate::scalar::ZERO_BITS;
use crate::scalar::act_of;
use crate::scalar::add_of;
use crate::scalar::canonical;
use crate::scalar::in_range_bits;
use crate::scalar::apply_activation;
use crate::scalar::mul_of;
use crate::scalar::scalar_add;
use crate::scalar::scalar_mul;
use crate::scalar::valid_range_bits;

verus! {

/// One unit of a layer.  The weights are scalar encodings; their count
/// is fixed at construction.
#[derive(Clone, Debug)]
pub struct Neuron {
    weights: Vec<u64>,
    bias: u64,
    activation_function: Activation,
}

/// The mathematical content of a [`Neuron`].
#[verifier::ext_equal]
pub struct NeuronV {
    pub weights: Seq<u64>,
    pub bias: u64,
    pub activation_function: Activation,
}

impl View for Neuron {
    type V = NeuronV;

    closed spec fn view(&self) -> NeuronV {
        NeuronV {
            weights: self.weights@,
            bias: self.bias,
            activation_function: self.activation_function,
        }
    }
}

/// A unit always has at least one weight.
pub open spec fn neuron_wf(n: NeuronV) -> bool {
    n.weights.len() >= 1
}

/// The left fold that sums the first `i` products `w[k] * x[k]`,
/// starting from zero, exactly as the unit computes it.
pub open spec fn dot_prefix(w: Seq<u64>, x: Seq<u64>, i: int) -> u64
    decreases i,
{
    if i <= 0 {
        ZERO_BITS
    } else {
        add_of(dot_prefix(w, x, i - 1), mul_of(w[i - 1], x[i - 1]))
    }
}

/// What a unit returns on an input of its arity: the activation,
/// applied to the weighted sum of the inputs plus the bias.
pub open spec fn unit_eval(n: NeuronV, x: Seq<u64>) -> u64 {
    act_of(n.activation_function, add_of(dot_prefix(n.weights, x, n.weights.len() as int), n.bias))
}

/// Every entry of `deltas` lies in the half-open range `[lo, hi)`.
pub open spec fn all_in_range(deltas: Seq<u64>, lo: u64, hi: u64) -> bool {
    forall|i: int| 0 <= i < deltas.len() ==> in_range_bits(#[trigger] deltas[i], lo, hi)
}

/// `chosen` lists `count` distinct positions below `len`.
pub open spec fn distinct_positions(chosen: Seq<int>, count: int, len: int) -> bool {
    &&& chosen.len() == count
    &&& forall|i: int| 0 <= i < chosen.len() ==> 0 <= #[trigger] chosen[i] < len
    &&& forall|i: int, j: int| 0 <= i < j < chosen.len() ==> chosen[i] != chosen[j]
}

/// `after` comes from `before` by adding the perturbation `deltas[i]`
/// at position `chosen[i]`, for each `i`, and touching no other
/// position.
pub open spec fn perturbed(
    before: Seq<u64>,
    after: Seq<u64>,
    chosen: Seq<int>,
    deltas: Seq<u64>,
) -> bool {
    &&& after.len() == before.len()
    &&& deltas.len() == chosen.len()
    &&& forall|k: int| 0 <= k < before.len() && !chosen.contains(k) ==> after[k] == before[k]
    &&& forall|i: int|
        0 <= i < chosen.len() ==> after[#[trigger] chosen[i]] == add_of(
            before[chosen[i]],
            deltas[i],
        )
}

impl Neuron {
    /// Builds a unit with `number_of_inputs` weights drawn uniformly
    /// from [-1, 1) and a bias of 1.0.  A unit without inputs is
    /// refused.
    pub fn new(number_of_inputs: usize, activation_function: Activation) -> (r: Result<
        Neuron,
        NetworkError,
    >)
        ensures
            r is Ok <==> number_of_inputs >= 1,
            r matches Ok(n) ==> {
                &&& neuron_wf(n@)
                &&& n@.weights.len() == number_of_inputs
                &&& n@.bias == ONE_BITS
                &&& n@.activation_function == activation_function
                &&& all_in_range(n@.weights, NEG_ONE_BITS, ONE_BITS)
            },
            r matches Err(e) ==> e == NetworkError::InvalidConfiguration,
    {
        if number_of_inputs < 1 {
            return Err(NetworkError::InvalidConfiguration);
        }
        let mut weights: Vec<u64> = Vec::new();
        for i in 0..number_of_inputs
            invariant
                weights@.len() == i,
                all_in_range(weights@, NEG_ONE_BITS, ONE_BITS),
        {
            weights.push(gen_range_bits(NEG_ONE_BITS, ONE_BITS));
        }
        Ok(Neuron { weights, bias: ONE_BITS, activation_function })
    }

    /// How many weights, and so how many inputs, this unit has.
    pub fn input_count(&self) -> (n: usize)
        ensures
            n == self@.weights.len(),
    {
        self.weights.len()
    }

    /// The weight at `i`, as a scalar encoding.
    pub fn weight_at(&self, i: usize) -> (w: u64)
        requires
            i < self@.weights.len(),
        ensures
            w == self@.weights[i as int],
    {
        self.weights[i]
    }

    /// The bias, as a scalar encoding.
    pub fn bias(&self) -> (b: u64)
        ensures
            b == self@.bias,
    {
        self.bias
    }

    /// This unit's activation.
    pub fn activation(&self) -> (a: Activation)
        ensures
            a == self@.activation_function,
    {
        self.activation_function
    }

    /// An independent copy with the same weights, bias and activation.
    pub fn duplicate(&self) -> (r: Neuron)
        ensures
            r@ == self@,
    {
        let mut weights: Vec<u64> = Vec::new();
        let n = self.weights.len();
        for i in 0..n
            invariant
                n == self.weights@.len(),
                weights@ =~= self.weights@.subrange(0, i as int),
        {
            weights.push(self.weights[i]);
        }
        proof {
            assert(weights@ =~= self.weights@);
        }
        let r = Neuron {
            weights,
            bias: self.bias,
            activation_function: self.activation_function,
        };
        proof {
            assert(r@ =~= self@);
        }
        r
    }

    /// The unit's activation on an input vector of its arity: the
    /// weighted sum of the inputs plus the bias, passed through the
    /// activation.  An input of any other length is a mismatch.
    pub fn process(&self, input: &Vec<u64>) -> (r: Result<u64, NetworkError>)
        ensures
            r is Ok <==> input@.len() == self@.weights.len(),
            r matches Ok(v) ==> v == unit_eval(self@, input@),
            r matches Err(e) ==> e == NetworkError::DimensionMismatch,
    {
        if self.weights.len() != input.len() {
            return Err(NetworkError::DimensionMismatch);
        }
        let mut acc: u64 = ZERO_BITS;
        let n = self.weights.len();
        for i in 0..n
            invariant
                n == self.weights@.len(),
                n == input@.len(),
                acc == dot_prefix(self@.weights, input@, i as int),
        {
            let m = canonical(scalar_mul(self.weights[i], input[i]));
            acc = canonical(scalar_add(acc, m));
        }
        let pre = canonical(scalar_add(acc, self.bias));
        Ok(apply_activation(self.activation_function, pre))
    }

    /// Adds an independent uniform sample from the given range to each
    /// of `amount_of_weights` distinct weight positions, drawn without
    /// replacement; every other position keeps its exact encoding, and
    /// the bias and activation stay untouched.  A count of zero, or one
    /// beyond the number of weights, is refused and changes nothing.
    pub fn randomize_weights(&mut self, amount_of_weights: usize, lo: u64, hi: u64) -> (r: Result<
        (),
        NetworkError,
    >)
        requires
            valid_range_bits(lo, hi),
        ensures
            r is Ok <==> 1 <= amount_of_weights <= old(self)@.weights.len(),
            r matches Err(e) ==> e == NetworkError::InvalidConfiguration && final(self)@ == old(
                self,
            )@,
            r is Ok ==> exists|chosen: Seq<int>, deltas: Seq<u64>|
                {
                    &&& distinct_positions(
                        chosen,
                        amount_of_weights as int,
                        old(self)@.weights.len() as int,
                    )
                    &&& all_in_range(deltas, lo, hi)
                    &&& #[trigger] perturbed(
                        old(self)@.weights,
                        final(self)@.weights,
                        chosen,
                        deltas,
                    )
                },
            final(self)@.weights.len() == old(self)@.weights.len(),
            final(self)@.bias == old(self)@.bias,
            final(self)@.activation_function == old(self)@.activation_function,
    {
        if amount_of_weights < 1 || amount_of_weights > self.weights.len() {
            return Err(NetworkError::InvalidConfiguration);
        }
        let ghost before = self@.weights;
        let chosen = sample_indices(self.weights.len(), amount_of_weights);
        let ghost chosen_positions = chosen@.map_values(|v: usize| v as int);
        let ghost mut deltas: Seq<u64> = Seq::empty();
        let n = chosen.len();
        for i in 0..n
            invariant
                n == chosen@.len(),
                valid_range_bits(lo, hi),
                chosen_positions == chosen@.map_values(|v: usize| v as int),
                deltas.len() == i,
                all_in_range(deltas, lo, hi),
                self.weights@.len() == before.len(),
                self@.bias == old(self)@.bias,
                self@.activation_function == old(self)@.activation_function,
                forall|i2: int| 0 <= i2 < chosen@.len() ==> #[trigger] chosen@[i2] < before.len(),
                forall|i2: int, j2: int|
                    0 <= i2 < j2 < chosen@.len() ==> chosen@[i2] != chosen@[j2],
                forall|k: int|
                    0 <= k < before.len() && !chosen_positions.subrange(0, i as int).contains(k)
                        ==> self.weights@[k] == before[k],
                forall|i2: int|
                    0 <= i2 < i ==> self.weights@[#[trigger] chosen_positions[i2]] == add_of(
                        before[chosen_positions[i2]],
                        deltas[i2],
                    ),
        {
            let idx = chosen[i];
            let noise = gen_range_bits(lo, hi);
            proof {
                assert(chosen_positions[i as int] == idx as int);
                assert(!chosen_positions.subrange(0, i as int).contains(idx as int)) by {
                    if chosen_positions.subrange(0, i as int).contains(idx as int) {
                        let w = choose|w: int|
                            0 <= w < i && chosen_positions.subrange(0, i as int)[w] == idx as int;
                        assert(chosen@[w] == chosen@[i as int]);
                    }
                }
                assert(self.weights@[idx as int] == before[idx as int]);
            }
            let bumped = canonical(scalar_add(self.weights[idx], noise));
            let ghost w_pre = self.weights@;
            self.weights.set(idx, bumped);
            proof {
                deltas = deltas.push(noise);
                assert(self.weights@[idx as int] == add_of(before[idx as int], noise));
                assert forall|i2: int| 0 <= i2 < i + 1 implies self.weights@[
                    #[trigger] chosen_positions[i2]
                ] == add_of(before[chosen_positions[i2]], deltas[i2]) by {
                    if i2 == i {
                        assert(deltas[i2] == noise);
                    } else {
                        assert(chosen_positions[i2] != idx as int) by {
                            assert(chosen@[i2] != chosen@[i as int]);
                        }
                        assert(self.weights@[chosen_positions[i2]] == w_pre[chosen_positions[i2]]);
                    }
                }
                assert forall|k: int|
                    0 <= k < before.len() && !chosen_positions.subrange(0, i + 1).contains(k)
                        implies self.weights@[k] == before[k] by {
                    assert(chosen_positions.subrange(0, i + 1)[i as int] == idx as int);
                    assert(k != idx as int);
                    assert(!chosen_positions.subrange(0, i as int).contains(k)) by {
                        if chosen_positions.subrange(0, i as int).contains(k) {
                            let w = choose|w: int|
                                0 <= w < i && chosen_positions.subrange(0, i as int)[w] == k;
                            assert(chosen_positions.subrange(0, i + 1)[w] == k);
                        }
                    }
                    assert(w_pre[k] == before[k]);
                }
            }
        }
        proof {
            assert(chosen_positions.subrange(0, n as int) =~= chosen_positions);
            assert(distinct_positions(
                chosen_positions,
                amount_of_weights as int,
                old(self)@.weights.len() as int,
            ));
            assert(all_in_range(deltas, lo, hi));
            assert(perturbed(old(self)@.weights, self@.weights, chosen_positions, deltas));
        }
        Ok(())
    }

    /// Adds one uniform sample from the given range to the bias; the
    /// weights and activation stay untouched.
    pub fn randomize_bias(&mut self, lo: u64, hi: u64)
        requires
            valid_range_bits(lo, hi),
        ensures
            exists|d: u64|
                in_range_bits(d, lo, hi) && final(self)@.bias == add_of(old(self)@.bias, d),
            final(self)@.weights == old(self)@.weights,
            final(self)@.activation_function == old(self)@.activation_function,
    {
        let noise = gen_range_bits(lo, hi);
        let bumped = canonical(scalar_add(self.bias, noise));
        self.bias = bumped;
        proof {
            assert(in_range_bits(noise, lo, hi) && self@.bias == add_of(old(self)@.bias, noise));
        }
    }
}

} // verus!
