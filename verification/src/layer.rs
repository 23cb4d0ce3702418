//! A layer: an ordered collection of units sharing one input arity.

use vstd::prelude::*;
use crate::error::NetworkError;
use crate::neuron::Neuron;
use crate::neuron::NeuronV;
use crate::neuron::all_in_range;
use crate::neuron::distinct_positions;
use crate::neuron::neuron_wf;
use crate::neuron::perturbed;
use crate::neuron::unit_eval;
use crate::scalar::Activation;
use crate::scalar::NEG_ONE_BITS;
use crate::scalar::ONE_BITS;
use crate::scalar::add_of;
use crate::scalar::in_range_bits;
use crate::scalar::valid_range_bits;

verus! {

/// One layer of a network.
#[derive(Clone, Debug)]
pub struct NeuralLayer {
    neurons: Vec<Neuron>,
}

/// The mathematical content of a [`NeuralLayer`].
#[verifier::ext_equal]
pub struct LayerV {
    pub neurons: Seq<NeuronV>,
}

impl View for NeuralLayer {
    type V = LayerV;

    closed spec fn view(&self) -> LayerV {
        LayerV { neurons: self.neurons@.map_values(|n: Neuron| n@) }
    }
}

/// The input arity a layer's units share: the weight count of its
/// first unit.
pub open spec fn layer_arity(l: LayerV) -> nat {
    l.neurons[0].weights.len()
}

/// A layer holds at least one unit, and every unit has the layer's
/// arity.
pub open spec fn layer_wf(l: LayerV) -> bool {
    &&& l.neurons.len() >= 1
    &&& forall|i: int|
        0 <= i < l.neurons.len() ==> neuron_wf(#[trigger] l.neurons[i]) && l.neurons[
            i
        ].weights.len() == layer_arity(l)
}

/// What a layer returns on an input of its arity: each unit's
/// activation on the shared input, in unit order.
pub open spec fn layer_eval(l: LayerV, x: Seq<u64>) -> Seq<u64> {
    Seq::new(l.neurons.len(), |i: int| unit_eval(l.neurons[i], x))
}

/// How a mutation step changes one unit: `count` of its weights gain
/// independent perturbations at distinct positions, each drawn from
/// `[lo, hi)`, the rest keep their encodings, and the bias gains one
/// perturbation from the same range.
pub open spec fn unit_mutated(before: NeuronV, after: NeuronV, count: int, lo: u64, hi: u64) -> bool {
    &&& exists|chosen: Seq<int>, deltas: Seq<u64>|
        {
            &&& distinct_positions(chosen, count, before.weights.len() as int)
            &&& all_in_range(deltas, lo, hi)
            &&& #[trigger] perturbed(before.weights, after.weights, chosen, deltas)
        }
    &&& exists|d: u64| in_range_bits(d, lo, hi) && after.bias == add_of(before.bias, d)
    &&& after.activation_function == before.activation_function
}

/// A mutated unit keeps its weight count and its activation.
pub proof fn lemma_unit_mutated_keeps_shape(
    before: NeuronV,
    after: NeuronV,
    count: int,
    lo: u64,
    hi: u64,
)
    requires
        unit_mutated(before, after, count, lo, hi),
    ensures
        after.weights.len() == before.weights.len(),
        after.activation_function == before.activation_function,
{
    let (chosen, deltas) = choose|chosen: Seq<int>, deltas: Seq<u64>|
        {
            &&& distinct_positions(chosen, count, before.weights.len() as int)
            &&& all_in_range(deltas, lo, hi)
            &&& #[trigger] perturbed(before.weights, after.weights, chosen, deltas)
        };
    assert(perturbed(before.weights, after.weights, chosen, deltas));
}

impl NeuralLayer {
    /// Builds `number_of_neurons` units, each with `number_of_inputs`
    /// freshly drawn weights and the given activation.  A layer
    /// without units, or units without inputs, is refused.
    pub fn new(
        number_of_neurons: usize,
        number_of_inputs: usize,
        activation_function: Activation,
    ) -> (r: Result<NeuralLayer, NetworkError>)
        ensures
            r is Ok <==> number_of_neurons >= 1 && number_of_inputs >= 1,
            r matches Ok(l) ==> {
                &&& layer_wf(l@)
                &&& l@.neurons.len() == number_of_neurons
                &&& layer_arity(l@) == number_of_inputs
                &&& forall|i: int|
                    0 <= i < l@.neurons.len() ==> (#[trigger] l@.neurons[i]).weights.len()
                        == number_of_inputs && l@.neurons[i].bias == ONE_BITS && l@.neurons[
                        i
                    ].activation_function == activation_function && all_in_range(
                        l@.neurons[i].weights,
                        NEG_ONE_BITS,
                        ONE_BITS,
                    )
            },
            r matches Err(e) ==> e == NetworkError::InvalidConfiguration,
    {
        if number_of_neurons < 1 || number_of_inputs < 1 {
            return Err(NetworkError::InvalidConfiguration);
        }
        let mut neurons: Vec<Neuron> = Vec::new();
        for i in 0..number_of_neurons
            invariant
                number_of_inputs >= 1,
                neurons@.len() == i,
                forall|j: int|
                    0 <= j < i ==> (#[trigger] neurons@[j]@).weights.len() == number_of_inputs
                        && neurons@[j]@.bias == ONE_BITS && neurons@[j]@.activation_function
                        == activation_function && all_in_range(
                        neurons@[j]@.weights,
                        NEG_ONE_BITS,
                        ONE_BITS,
                    ),
        {
            let n = match Neuron::new(number_of_inputs, activation_function) {
                Ok(n) => n,
                Err(e) => {
                    proof {
                        assert(false);
                    }
                    return Err(e);
                },
            };
            neurons.push(n);
        }
        let l = NeuralLayer { neurons };
        proof {
            assert(forall|i: int|
                0 <= i < l@.neurons.len() ==> #[trigger] l@.neurons[i] == neurons@[i]@);
        }
        Ok(l)
    }

    /// How many units this layer holds.
    pub fn neuron_count(&self) -> (n: usize)
        ensures
            n == self@.neurons.len(),
    {
        self.neurons.len()
    }

    /// The arity the layer's units share.
    pub fn input_count(&self) -> (n: usize)
        requires
            self@.neurons.len() >= 1,
        ensures
            n == layer_arity(self@),
    {
        self.neurons[0].input_count()
    }

    /// A read-only view of one unit.
    pub fn neuron_at(&self, i: usize) -> (n: &Neuron)
        requires
            i < self@.neurons.len(),
        ensures
            n@ == self@.neurons[i as int],
    {
        &self.neurons[i]
    }

    /// An independent copy with the same units.
    pub fn duplicate(&self) -> (r: NeuralLayer)
        ensures
            r@ == self@,
    {
        let mut neurons: Vec<Neuron> = Vec::new();
        let n = self.neurons.len();
        for i in 0..n
            invariant
                n == self.neurons@.len(),
                neurons@.len() == i,
                forall|j: int| 0 <= j < i ==> #[trigger] neurons@[j]@ == self.neurons@[j]@,
        {
            neurons.push(self.neurons[i].duplicate());
        }
        let r = NeuralLayer { neurons };
        proof {
            assert(r@.neurons =~= self@.neurons);
            assert(r@ =~= self@);
        }
        r
    }

    /// The ordered outputs of every unit on the shared input.  An
    /// input whose length is not the layer's arity is a mismatch.
    pub fn process(&self, input: &Vec<u64>) -> (r: Result<Vec<u64>, NetworkError>)
        requires
            layer_wf(self@),
        ensures
            r is Ok <==> input@.len() == layer_arity(self@),
            r matches Ok(v) ==> v@ == layer_eval(self@, input@) && v@.len() == self@.neurons.len(),
            r matches Err(e) ==> e == NetworkError::DimensionMismatch,
    {
        if input.len() != self.neurons[0].input_count() {
            return Err(NetworkError::DimensionMismatch);
        }
        let mut out: Vec<u64> = Vec::new();
        let n = self.neurons.len();
        for i in 0..n
            invariant
                layer_wf(self@),
                n == self.neurons@.len(),
                input@.len() == layer_arity(self@),
                out@.len() == i,
                forall|j: int| 0 <= j < i ==> #[trigger] out@[j] == unit_eval(self@.neurons[j], input@),
        {
            proof {
                assert(self.neurons@[i as int]@ == self@.neurons[i as int]);
            }
            let v = match self.neurons[i].process(input) {
                Ok(v) => v,
                Err(e) => {
                    proof {
                        assert(false);
                    }
                    return Err(e);
                },
            };
            out.push(v);
        }
        proof {
            assert(out@ =~= layer_eval(self@, input@));
        }
        Ok(out)
    }

    /// The mutation step for the unit at `i`: perturbs a quarter of
    /// its weights, rounded up, and its bias, each by an independent
    /// uniform sample from the given range.  No other unit changes.
    pub fn perturb_neuron(&mut self, i: usize, lo: u64, hi: u64)
        requires
            layer_wf(old(self)@),
            i < old(self)@.neurons.len(),
            valid_range_bits(lo, hi),
        ensures
            final(self)@.neurons.len() == old(self)@.neurons.len(),
            forall|j: int|
                0 <= j < old(self)@.neurons.len() && j != i ==> final(self)@.neurons[j] == old(
                    self,
                )@.neurons[j],
            unit_mutated(
                old(self)@.neurons[i as int],
                final(self)@.neurons[i as int],
                (old(self)@.neurons[i as int].weights.len() + 3) as int / 4,
                lo,
                hi,
            ),
    {
        let w_len = self.neurons[i].input_count();
        let count = w_len / 4 + if w_len % 4 != 0 {
            1
        } else {
            0
        };
        proof {
            assert(self@.neurons[i as int].weights.len() >= 1);
            assert(count == (w_len + 3) as int / 4);
            assert(1 <= count <= w_len);
        }
        let ghost pre_units = self.neurons@;
        let mut unit = self.neurons.remove(i);
        let outcome = unit.randomize_weights(count, lo, hi);
        proof {
            assert(outcome is Ok);
        }
        unit.randomize_bias(lo, hi);
        self.neurons.insert(i, unit);
        proof {
            assert forall|j: int| 0 <= j < pre_units.len() && j != i implies self.neurons@[j]
                == pre_units[j] by {
                if j < i {
                    assert(self.neurons@[j] == pre_units.remove(i as int)[j]);
                } else {
                    assert(self.neurons@[j] == pre_units.remove(i as int)[j - 1]);
                }
            }
            assert(self.neurons@[i as int] == unit);
            assert(self.neurons@.len() == pre_units.len());
            assert forall|j: int| 0 <= j < pre_units.len() && j != i implies self@.neurons[j]
                == old(self)@.neurons[j] by {
                assert(self.neurons@[j] == pre_units[j]);
            }
            assert(self@.neurons[i as int] == unit@);
            assert(unit_mutated(
                old(self)@.neurons[i as int],
                self@.neurons[i as int],
                (old(self)@.neurons[i as int].weights.len() + 3) as int / 4,
                lo,
                hi,
            ));
        }
    }
}

} // verus!
