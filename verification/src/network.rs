//! The network: a chain of layers, its forward pass, and the
//! hill-climbing search that tunes it.

use vstd::prelude::*;
use vstd::string::StringExecFns;
use crate::decimal::dec_str;
use crate::decimal::push_decimal;
use crate::error::NetworkError;
use crate::layer::LayerV;
use crate::layer::NeuralLayer;
use crate::layer::layer_arity;
use crate::layer::layer_eval;
use crate::layer::layer_wf;
use crate::layer::lemma_unit_mutated_keeps_shape;
use crate::layer::unit_mutated;
use crate::neuron::all_in_range;
use crate::rng::sample_indices;
use crate::scalar::Activation;
use crate::scalar::NEG_ONE_BITS;
use crate::scalar::NEG_THREE_QUARTERS_BITS;
use crate::scalar::ONE_BITS;
use crate::scalar::THREE_QUARTERS_BITS;
use crate::scalar::ZERO_BITS;
use crate::scalar::abs_bits;
use crate::scalar::add_of;
use crate::scalar::canonical;
use crate::scalar::key_of;
use crate::scalar::loss_key;
use crate::scalar::scalar_abs;
use crate::scalar::scalar_add;
use crate::scalar::scalar_sub;
use crate::scalar::sub_of;
use crate::scalar::valid_range_bits;

verus! {

/// A feedforward network.  Layer `0` reads the network input; each
/// later layer reads the previous layer's outputs.
#[derive(Clone, Debug)]
pub struct NeuralNetwork {
    total_inputs: usize,
    layers: Vec<NeuralLayer>,
}

/// The mathematical content of a [`NeuralNetwork`].
#[verifier::ext_equal]
pub struct NetworkV {
    pub total_inputs: nat,
    pub layers: Seq<LayerV>,
}

impl View for NeuralNetwork {
    type V = NetworkV;

    closed spec fn view(&self) -> NetworkV {
        NetworkV {
            total_inputs: self.total_inputs as nat,
            layers: self.layers@.map_values(|l: NeuralLayer| l@),
        }
    }
}

/// How many units the first `k` layers hold together.
pub open spec fn units_prefix(layers: Seq<LayerV>, k: int) -> int
    decreases k,
{
    if k <= 0 {
        0
    } else {
        units_prefix(layers, k - 1) + layers[k - 1].neurons.len()
    }
}

/// How many units the whole network holds, over all layers.
pub open spec fn total_units(n: NetworkV) -> int {
    units_prefix(n.layers, n.layers.len() as int)
}

/// The unit count of the last layer: the width of the network's
/// output.
pub open spec fn last_count(n: NetworkV) -> nat {
    n.layers[n.layers.len() - 1].neurons.len()
}

/// Well-formedness: at least one input and one layer, every layer
/// well formed, the first layer's arity the network's input count,
/// every later layer's arity the unit count of the layer before it,
/// and a unit total that a `usize` can hold.
pub open spec fn network_wf(n: NetworkV) -> bool {
    &&& n.total_inputs >= 1
    &&& n.layers.len() >= 1
    &&& forall|i: int| 0 <= i < n.layers.len() ==> layer_wf(#[trigger] n.layers[i])
    &&& layer_arity(n.layers[0]) == n.total_inputs
    &&& forall|i: int|
        1 <= i < n.layers.len() ==> layer_arity(#[trigger] n.layers[i]) == n.layers[
            i - 1
        ].neurons.len()
    &&& total_units(n) <= usize::MAX
}

/// The value vector after the first `k` layers, starting from the
/// input `x`.
pub open spec fn eval_layers(layers: Seq<LayerV>, x: Seq<u64>, k: int) -> Seq<u64>
    decreases k,
{
    if k <= 0 {
        x
    } else {
        layer_eval(layers[k - 1], eval_layers(layers, x, k - 1))
    }
}

/// What the network returns on an input of its arity: the input fed
/// through every layer in order.
pub open spec fn net_eval(n: NetworkV, x: Seq<u64>) -> Seq<u64> {
    eval_layers(n.layers, x, n.layers.len() as int)
}

/// Two networks of one shape: the same input count, layer for layer
/// the same unit count, and unit for unit the same activation.
pub open spec fn same_shape(a: NetworkV, b: NetworkV) -> bool {
    &&& a.total_inputs == b.total_inputs
    &&& a.layers.len() == b.layers.len()
    &&& forall|i: int|
        0 <= i < a.layers.len() ==> (#[trigger] a.layers[i]).neurons.len() == b.layers[
            i
        ].neurons.len()
    &&& forall|i: int, j: int|
        0 <= i < a.layers.len() && 0 <= j < a.layers[i].neurons.len() ==> (#[trigger] a.layers[
            i
        ].neurons[j]).activation_function == b.layers[i].neurons[j].activation_function
}

/// The summed absolute difference over the first `k` positions,
/// folded left from zero exactly as the loss is computed.
pub open spec fn loss_prefix(a: Seq<u64>, b: Seq<u64>, k: int) -> u64
    decreases k,
{
    if k <= 0 {
        ZERO_BITS
    } else {
        add_of(loss_prefix(a, b, k - 1), abs_bits(sub_of(a[k - 1], b[k - 1])))
    }
}

/// The loss of an output `a` against a target `b` of the same length:
/// the sum of the absolute differences, position by position.
pub open spec fn loss_of(a: Seq<u64>, b: Seq<u64>) -> u64 {
    loss_prefix(a, b, a.len() as int)
}

/// The summed absolute difference of two equally long vectors, as the
/// optimizer scores a network's output against its target.  Vectors
/// of different lengths are a mismatch.
pub fn offset(a: &Vec<u64>, b: &Vec<u64>) -> (r: Result<u64, NetworkError>)
    ensures
        r is Ok <==> a@.len() == b@.len(),
        r matches Ok(v) ==> v == loss_of(a@, b@),
        r matches Err(e) ==> e == NetworkError::DimensionMismatch,
{
    if a.len() != b.len() {
        return Err(NetworkError::DimensionMismatch);
    }
    let mut acc: u64 = ZERO_BITS;
    let n = a.len();
    for k in 0..n
        invariant
            n == a@.len(),
            n == b@.len(),
            acc == loss_prefix(a@, b@, k as int),
    {
        let d = canonical(scalar_sub(a[k], b[k]));
        let m = scalar_abs(d);
        acc = canonical(scalar_add(acc, m));
    }
    Ok(acc)
}

/// Unit counts over layer prefixes grow with the prefix.
proof fn lemma_units_prefix_mono(layers: Seq<LayerV>, k1: int, k2: int)
    requires
        0 <= k1 <= k2,
    ensures
        units_prefix(layers, k1) <= units_prefix(layers, k2),
    decreases k2 - k1,
{
    if k1 < k2 {
        lemma_units_prefix_mono(layers, k1, k2 - 1);
    }
}

/// Two layer sequences with the same unit count per layer have the
/// same unit count over every prefix.
proof fn lemma_units_prefix_same(a: Seq<LayerV>, b: Seq<LayerV>, k: int)
    requires
        a.len() == b.len(),
        forall|i: int| 0 <= i < a.len() ==> (#[trigger] a[i]).neurons.len() == b[i].neurons.len(),
        k <= a.len(),
    ensures
        units_prefix(a, k) == units_prefix(b, k),
    decreases k,
{
    if k > 0 {
        lemma_units_prefix_same(a, b, k - 1);
    }
}

/// In a well-formed network each layer prefix holds at least one unit
/// per layer, so in particular at least one unit overall.
proof fn lemma_units_prefix_at_least(n: NetworkV, k: int)
    requires
        network_wf(n),
        0 <= k <= n.layers.len(),
    ensures
        units_prefix(n.layers, k) >= k,
    decreases k,
{
    if k > 0 {
        lemma_units_prefix_at_least(n, k - 1);
    }
}

/// The length of every valid evaluation: after `k` of the layers the
/// value vector is as wide as layer `k - 1`, and the width expected
/// by layer `k` matches it in a well-formed network.
proof fn lemma_eval_layers_len(n: NetworkV, x: Seq<u64>, k: int)
    requires
        network_wf(n),
        x.len() == n.total_inputs,
        0 <= k <= n.layers.len(),
    ensures
        eval_layers(n.layers, x, k).len() == if k == 0 {
            n.total_inputs
        } else {
            n.layers[k - 1].neurons.len()
        },
        k < n.layers.len() ==> eval_layers(n.layers, x, k).len() == layer_arity(n.layers[k]),
    decreases k,
{
    if k > 0 {
        lemma_eval_layers_len(n, x, k - 1);
    }
}

/// The width of a network's answer equals the unit count of its last
/// layer, for every well-formed network and every input of its arity.
pub proof fn lemma_evaluate_length(n: NetworkV, x: Seq<u64>)
    requires
        network_wf(n),
        x.len() == n.total_inputs,
    ensures
        net_eval(n, x).len() == last_count(n),
{
    lemma_eval_layers_len(n, x, n.layers.len() as int);
}

/// A network built to a blueprint answers, on every input of its
/// arity, with as many values as the blueprint's last entry asks for.
pub proof fn lemma_blueprint_output_width(n: NetworkV, blueprint: Seq<usize>, x: Seq<u64>)
    requires
        network_wf(n),
        blueprint.len() >= 1,
        n.layers.len() == blueprint.len(),
        forall|i: int|
            0 <= i < n.layers.len() ==> (#[trigger] n.layers[i]).neurons.len() == blueprint[i],
        x.len() == n.total_inputs,
    ensures
        net_eval(n, x).len() == blueprint[blueprint.len() - 1],
{
    lemma_evaluate_length(n, x);
}

/// Evaluation is a function of the network's state and the input
/// alone: two results of evaluating one network on one input are one
/// value.  (The forward pass neither mutates the network nor draws on
/// anything else, so repeated calls return identical output.)
pub proof fn lemma_evaluate_deterministic(n: NetworkV, x: Seq<u64>, r1: Seq<u64>, r2: Seq<u64>)
    requires
        r1 == net_eval(n, x),
        r2 == net_eval(n, x),
    ensures
        r1 == r2,
{
}

/// A copy with the same content has the same loss against every
/// training example: the loss is a function of the network's content,
/// the input and the target alone.
pub proof fn lemma_equal_views_equal_loss(a: NetworkV, b: NetworkV, x: Seq<u64>, t: Seq<u64>)
    requires
        a == b,
    ensures
        loss_of(net_eval(a, x), t) == loss_of(net_eval(b, x), t),
{
}

/// The network's shape line over its first `k` layers: each layer's
/// arity in decimal, each followed by one space.
pub open spec fn shape_prefix(n: NetworkV, k: int) -> Seq<char>
    decreases k,
{
    if k <= 0 {
        Seq::empty()
    } else {
        shape_prefix(n, k - 1) + dec_str(layer_arity(n.layers[k - 1]) as int) + seq![' ']
    }
}

/// The network's shape line: layer by layer, the arity its units
/// share, in decimal, each followed by one space.
pub open spec fn shape_str(n: NetworkV) -> Seq<char> {
    shape_prefix(n, n.layers.len() as int)
}

/// How one mutation step changes a network: unit `j` of layer `k`
/// undergoes the unit mutation for a quarter of its weights, rounded
/// up, with noise from `[lo, hi)`, and every other unit of every
/// layer keeps its exact content.
pub open spec fn mutated_at(a: NetworkV, b: NetworkV, k: int, j: int, lo: u64, hi: u64) -> bool {
    &&& b.total_inputs == a.total_inputs
    &&& b.layers.len() == a.layers.len()
    &&& forall|k2: int| 0 <= k2 < a.layers.len() && k2 != k ==> b.layers[k2] == a.layers[k2]
    &&& b.layers[k].neurons.len() == a.layers[k].neurons.len()
    &&& forall|j2: int|
        0 <= j2 < a.layers[k].neurons.len() && j2 != j ==> b.layers[k].neurons[j2] == a.layers[
            k
        ].neurons[j2]
    &&& unit_mutated(
        a.layers[k].neurons[j],
        b.layers[k].neurons[j],
        (a.layers[k].neurons[j].weights.len() + 3) as int / 4,
        lo,
        hi,
    )
}

/// Networks of one shape with a third network: shape agreement
/// carries over.
pub proof fn lemma_same_shape_trans(a: NetworkV, b: NetworkV, c: NetworkV)
    requires
        same_shape(a, b),
        same_shape(b, c),
    ensures
        same_shape(a, c),
{
}

/// How many units a blueprint prefix asks for.
pub open spec fn blueprint_units(blueprint: Seq<usize>, k: int) -> int
    decreases k,
{
    if k <= 0 {
        0
    } else {
        blueprint_units(blueprint, k - 1) + blueprint[k - 1]
    }
}

impl NeuralNetwork {
    /// Builds a network from a blueprint of unit counts, one per
    /// layer, threading each layer's unit count forward as the next
    /// layer's arity.  Without an activation the logistic sigmoid is
    /// used.  An empty blueprint, a zero entry, or a zero input count
    /// is refused.
    pub fn new(
        layer_blueprint: Vec<usize>,
        total_inputs: usize,
        activation_function: Option<Activation>,
    ) -> (r: Result<NeuralNetwork, NetworkError>)
        requires
            blueprint_units(layer_blueprint@, layer_blueprint@.len() as int) <= usize::MAX,
        ensures
            r is Ok <==> layer_blueprint@.len() >= 1 && total_inputs >= 1 && (forall|i: int|
                0 <= i < layer_blueprint@.len() ==> #[trigger] layer_blueprint@[i] >= 1),
            r matches Ok(n) ==> {
                &&& network_wf(n@)
                &&& n@.total_inputs == total_inputs
                &&& n@.layers.len() == layer_blueprint@.len()
                &&& forall|i: int|
                    0 <= i < n@.layers.len() ==> (#[trigger] n@.layers[i]).neurons.len()
                        == layer_blueprint@[i]
                &&& forall|i: int, j: int|
                    0 <= i < n@.layers.len() && 0 <= j < n@.layers[i].neurons.len() ==> {
                        &&& (#[trigger] n@.layers[i].neurons[j]).activation_function == (
                        match activation_function {
                            Some(a) => a,
                            None => Activation::Sigmoid,
                        })
                        &&& n@.layers[i].neurons[j].bias == ONE_BITS
                        &&& all_in_range(n@.layers[i].neurons[j].weights, NEG_ONE_BITS, ONE_BITS)
                    }
            },
            r matches Err(e) ==> e == NetworkError::InvalidConfiguration,
    {
        if layer_blueprint.len() < 1 {
            return Err(NetworkError::InvalidConfiguration);
        }
        if total_inputs < 1 {
            return Err(NetworkError::InvalidConfiguration);
        }
        let mut all_positive = true;
        let blen = layer_blueprint.len();
        for i in 0..blen
            invariant
                blen == layer_blueprint@.len(),
                all_positive <==> (forall|j: int|
                    0 <= j < i ==> #[trigger] layer_blueprint@[j] >= 1),
        {
            if layer_blueprint[i] < 1 {
                all_positive = false;
            }
        }
        if !all_positive {
            return Err(NetworkError::InvalidConfiguration);
        }
        let act = match activation_function {
            Some(a) => a,
            None => Activation::Sigmoid,
        };
        let mut layers: Vec<NeuralLayer> = Vec::new();
        let mut number_of_inputs = total_inputs;
        for i in 0..blen
            invariant
                blen == layer_blueprint@.len(),
                total_inputs >= 1,
                forall|j: int| 0 <= j < blen ==> #[trigger] layer_blueprint@[j] >= 1,
                layers@.len() == i,
                number_of_inputs == if i == 0 {
                    total_inputs as int
                } else {
                    layer_blueprint@[i - 1] as int
                },
                forall|j: int|
                    0 <= j < i ==> layer_wf(#[trigger] layers@[j]@) && layers@[j]@.neurons.len()
                        == layer_blueprint@[j],
                i >= 1 ==> layer_arity(layers@[0]@) == total_inputs,
                forall|j: int|
                    1 <= j < i ==> layer_arity(#[trigger] layers@[j]@) == layer_blueprint@[j - 1],
                forall|j: int, k: int|
                    0 <= j < i && 0 <= k < layers@[j]@.neurons.len() ==> {
                        &&& (#[trigger] layers@[j]@.neurons[k]).activation_function == act
                        &&& layers@[j]@.neurons[k].bias == ONE_BITS
                        &&& all_in_range(layers@[j]@.neurons[k].weights, NEG_ONE_BITS, ONE_BITS)
                    },
        {
            let number_of_neurons = layer_blueprint[i];
            let layer = match NeuralLayer::new(number_of_neurons, number_of_inputs, act) {
                Ok(l) => l,
                Err(e) => {
                    proof {
                        assert(false);
                    }
                    return Err(e);
                },
            };
            layers.push(layer);
            number_of_inputs = number_of_neurons;
        }
        let n = NeuralNetwork { total_inputs, layers };
        proof {
            assert(forall|i: int|
                0 <= i < n@.layers.len() ==> #[trigger] n@.layers[i] == layers@[i]@);
            assert forall|k: int| 0 <= k <= blen implies units_prefix(n@.layers, k)
                == blueprint_units(layer_blueprint@, k) by {
                lemma_prefix_matches_blueprint(n@.layers, layer_blueprint@, k);
            }
            assert(network_wf(n@));
        }
        Ok(n)
    }

    /// How many inputs this network reads.
    pub fn input_arity(&self) -> (n: usize)
        ensures
            n == self@.total_inputs,
    {
        self.total_inputs
    }

    /// How many layers this network holds.
    pub fn layer_count(&self) -> (n: usize)
        ensures
            n == self@.layers.len(),
    {
        self.layers.len()
    }

    /// A read-only view of one layer.
    pub fn layer_at(&self, i: usize) -> (l: &NeuralLayer)
        requires
            i < self@.layers.len(),
        ensures
            l@ == self@.layers[i as int],
    {
        &self.layers[i]
    }

    /// An independent copy: a fresh network with the same content,
    /// sharing no unit with this one.
    pub fn duplicate(&self) -> (r: NeuralNetwork)
        ensures
            r@ == self@,
    {
        let mut layers: Vec<NeuralLayer> = Vec::new();
        let n = self.layers.len();
        for i in 0..n
            invariant
                n == self.layers@.len(),
                layers@.len() == i,
                forall|j: int| 0 <= j < i ==> #[trigger] layers@[j]@ == self.layers@[j]@,
        {
            layers.push(self.layers[i].duplicate());
        }
        let r = NeuralNetwork { total_inputs: self.total_inputs, layers };
        proof {
            assert(r@.layers =~= self@.layers);
            assert(r@ =~= self@);
        }
        r
    }

    /// The network's answer on an input of its arity: the input fed
    /// through every layer in order.  An input of any other length is
    /// a mismatch.
    #[verifier::rlimit(30)]
    pub fn process(&self, input: &Vec<u64>) -> (r: Result<Vec<u64>, NetworkError>)
        requires
            network_wf(self@),
        ensures
            r is Ok <==> input@.len() == self@.total_inputs,
            r matches Ok(v) ==> v@ == net_eval(self@, input@) && v@.len() == last_count(self@),
            r matches Err(e) ==> e == NetworkError::DimensionMismatch,
    {
        if input.len() != self.total_inputs {
            return Err(NetworkError::DimensionMismatch);
        }
        let mut cur: Vec<u64> = Vec::new();
        let ilen = input.len();
        for k in 0..ilen
            invariant
                ilen == input@.len(),
                cur@ =~= input@.subrange(0, k as int),
        {
            cur.push(input[k]);
        }
        proof {
            assert(cur@ =~= input@);
        }
        let n = self.layers.len();
        for k in 0..n
            invariant
                network_wf(self@),
                n == self.layers@.len(),
                input@.len() == self@.total_inputs,
                cur@ == eval_layers(self@.layers, input@, k as int),
        {
            proof {
                lemma_eval_layers_len(self@, input@, k as int);
                assert(self.layers@[k as int]@ == self@.layers[k as int]);
            }
            let next = match self.layers[k].process(&cur) {
                Ok(v) => v,
                Err(e) => {
                    proof {
                        assert(false);
                    }
                    return Err(e);
                },
            };
            cur = next;
        }
        proof {
            lemma_eval_layers_len(self@, input@, n as int);
        }
        Ok(cur)
    }

    /// How many units the network holds, over all layers.
    pub fn total_neurons(&self) -> (n: usize)
        requires
            network_wf(self@),
        ensures
            n == total_units(self@),
            n >= 1,
    {
        let mut acc: usize = 0;
        let n = self.layers.len();
        for k in 0..n
            invariant
                network_wf(self@),
                n == self.layers@.len(),
                acc == units_prefix(self@.layers, k as int),
        {
            proof {
                lemma_units_prefix_mono(self@.layers, k + 1, n as int);
                assert(self.layers@[k as int]@ == self@.layers[k as int]);
            }
            acc = acc + self.layers[k].neuron_count();
        }
        proof {
            lemma_units_prefix_at_least(self@, 1);
            lemma_units_prefix_mono(self@.layers, 1, n as int);
        }
        acc
    }

    /// The network's shape, one layer per entry: the arity the
    /// layer's units share, in decimal, each followed by a space.
    pub fn shape_string(&self) -> (s: String)
        requires
            network_wf(self@),
        ensures
            s@ == shape_str(self@),
    {
        let mut s = String::new();
        let n = self.layers.len();
        for k in 0..n
            invariant
                network_wf(self@),
                n == self.layers@.len(),
                s@ == shape_prefix(self@, k as int),
        {
            proof {
                assert(self.layers@[k as int]@ == self@.layers[k as int]);
            }
            let arity = self.layers[k].input_count();
            push_decimal(&mut s, arity);
            s.append(" ");
            proof {
                reveal_strlit(" ");
                assert(s@ =~= shape_prefix(self@, k as int + 1));
            }
        }
        s
    }

    /// The mutation step for one unit, addressed by its position in
    /// the stable layer-major flattening of the network: a quarter of
    /// that unit's weights, rounded up, and its bias each gain an
    /// independent uniform sample from the given range.  Every other
    /// unit, and the network's whole shape, stay as they were.
    pub fn perturb_unit(&mut self, flat: usize, lo: u64, hi: u64)
        requires
            network_wf(old(self)@),
            flat < total_units(old(self)@),
            valid_range_bits(lo, hi),
        ensures
            network_wf(final(self)@),
            same_shape(old(self)@, final(self)@),
            exists|k: int, j: int|
                {
                    &&& 0 <= k < old(self)@.layers.len()
                    &&& units_prefix(old(self)@.layers, k) <= flat
                    &&& j == flat - units_prefix(old(self)@.layers, k)
                    &&& j < old(self)@.layers[k].neurons.len()
                    &&& #[trigger] mutated_at(old(self)@, final(self)@, k, j, lo, hi)
                },
    {
        let mut k: usize = 0;
        let mut remaining: usize = flat;
        let n = self.layers.len();
        loop
            invariant
                network_wf(self@),
                self@ == old(self)@,
                valid_range_bits(lo, hi),
                n == self@.layers.len(),
                k < n,
                flat < total_units(self@),
                units_prefix(self@.layers, k as int) <= flat,
                remaining == flat - units_prefix(self@.layers, k as int),
            decreases n - k,
        {
            proof {
                assert(self.layers@[k as int]@ == self@.layers[k as int]);
            }
            let c = self.layers[k].neuron_count();
            if remaining < c {
                let ghost pre_prefix = units_prefix(self@.layers, k as int);
                self.mutate_layer_unit(k, remaining, lo, hi);
                proof {
                    assert(units_prefix(old(self)@.layers, k as int) == pre_prefix);
                    assert(remaining as int == flat - pre_prefix);
                    assert(mutated_at(
                        old(self)@,
                        self@,
                        k as int,
                        remaining as int,
                        lo,
                        hi,
                    ));
                }
                return ;
            }
            remaining = remaining - c;
            k = k + 1;
            proof {
                assert(units_prefix(self@.layers, k as int) == units_prefix(
                    self@.layers,
                    k as int - 1,
                ) + c);
                if k as int == self@.layers.len() {
                    assert(total_units(self@) <= flat);
                    assert(false);
                }
            }
        }
    }

    /// The mutation step for unit `j` of layer `k`: see
    /// [`Self::perturb_unit`], which resolves a flat unit position to
    /// this pair.
    fn mutate_layer_unit(&mut self, k: usize, j: usize, lo: u64, hi: u64)
        requires
            network_wf(old(self)@),
            k < old(self)@.layers.len(),
            j < old(self)@.layers[k as int].neurons.len(),
            valid_range_bits(lo, hi),
        ensures
            network_wf(final(self)@),
            same_shape(old(self)@, final(self)@),
            mutated_at(old(self)@, final(self)@, k as int, j as int, lo, hi),
    {
        let ghost pre = self@;
        let ghost kk = k as int;
        let ghost jj = j as int;
        let mut layer = self.layers.remove(k);
        proof {
            assert(layer@ == pre.layers[kk]);
        }
        layer.perturb_neuron(j, lo, hi);
        self.layers.insert(k, layer);
        proof {
            let now = self@;
            assert(now.layers.len() == pre.layers.len());
            assert forall|k2: int| 0 <= k2 < pre.layers.len() && k2 != kk implies now.layers[k2]
                == pre.layers[k2] by {
                assert(self.layers@[k2]@ == now.layers[k2]);
            }
            assert(now.layers[kk] == layer@);
            assert(mutated_at(pre, now, kk, jj, lo, hi));
            lemma_unit_mutated_keeps_shape(
                pre.layers[kk].neurons[jj],
                now.layers[kk].neurons[jj],
                (pre.layers[kk].neurons[jj].weights.len() + 3) as int / 4,
                lo,
                hi,
            );
            assert forall|k2: int| 0 <= k2 < now.layers.len() implies layer_wf(
                #[trigger] now.layers[k2],
            ) by {
                if k2 == kk {
                    assert forall|j2: int| 0 <= j2 < now.layers[k2].neurons.len() implies (
                    #[trigger] now.layers[k2].neurons[j2]).weights.len() == pre.layers[k2].neurons[
                        j2
                    ].weights.len() by {
                        if j2 != jj {
                            assert(now.layers[k2].neurons[j2] == pre.layers[k2].neurons[j2]);
                        }
                    }
                    assert(layer_arity(now.layers[k2]) == layer_arity(pre.layers[k2]));
                }
            }
            assert(same_shape(pre, now));
            lemma_units_prefix_same(pre.layers, now.layers, pre.layers.len() as int);
            assert(network_wf(now));
        }
    }

    /// The hill-climbing search, against one training example.
    ///
    /// Scores this network, then `amount_of_children` times copies
    /// the best network found so far, perturbs a quarter of the
    /// copy's units, rounded up, at distinct positions drawn without
    /// replacement — each perturbed unit gaining uniform noise from
    /// [-0.75, 0.75) on a quarter of its weights, rounded up, and on
    /// its bias — and keeps the copy exactly when its loss key is
    /// strictly smaller.  The winner never scores worse than this
    /// network, and with no children it is this network, unchanged.
    /// An input or target of the wrong length is a mismatch.
    pub fn evolve(self, input: &Vec<u64>, output: &Vec<u64>, amount_of_children: usize) -> (r:
        Result<NeuralNetwork, NetworkError>)
        requires
            network_wf(self@),
        ensures
            r is Ok <==> input@.len() == self@.total_inputs && output@.len() == last_count(self@),
            r matches Err(e) ==> e == NetworkError::DimensionMismatch,
            r matches Ok(n) ==> {
                &&& network_wf(n@)
                &&& same_shape(self@, n@)
                &&& key_of(loss_of(net_eval(n@, input@), output@)) <= key_of(
                    loss_of(net_eval(self@, input@), output@),
                )
                &&& amount_of_children == 0 ==> n@ == self@
            },
    {
        let ghost orig = self@;
        let base_out = match self.process(input) {
            Ok(v) => v,
            Err(e) => { return Err(e) },
        };
        let base_loss = match offset(&base_out, output) {
            Ok(v) => v,
            Err(e) => { return Err(e) },
        };
        let mut best = self;
        let mut best_key = loss_key(base_loss);
        for c in 0..amount_of_children
            invariant
                network_wf(best@),
                same_shape(orig, best@),
                input@.len() == orig.total_inputs,
                output@.len() == last_count(orig),
                best_key == key_of(loss_of(net_eval(best@, input@), output@)),
                best_key <= key_of(loss_of(net_eval(orig, input@), output@)),
                amount_of_children == 0 ==> best@ == orig,
        {
            let mut cand = best.duplicate();
            let total = cand.total_neurons();
            let picks = total / 4 + if total % 4 != 0 {
                1
            } else {
                0
            };
            proof {
                assert(1 <= picks <= total);
            }
            let picked = sample_indices(total, picks);
            let m = picked.len();
            for t in 0..m
                invariant
                    m == picked@.len(),
                    network_wf(cand@),
                    same_shape(orig, cand@),
                    total == total_units(cand@),
                    forall|i: int| 0 <= i < picked@.len() ==> #[trigger] picked@[i] < total,
            {
                let ghost mid = cand@;
                proof {
                    assert(valid_range_bits(NEG_THREE_QUARTERS_BITS, THREE_QUARTERS_BITS));
                }
                cand.perturb_unit(picked[t], NEG_THREE_QUARTERS_BITS, THREE_QUARTERS_BITS);
                proof {
                    lemma_same_shape_trans(orig, mid, cand@);
                    lemma_units_prefix_same(mid.layers, cand@.layers, mid.layers.len() as int);
                }
            }
            let out = match cand.process(input) {
                Ok(v) => v,
                Err(e) => {
                    proof {
                        assert(false);
                    }
                    return Err(e);
                },
            };
            proof {
                assert(last_count(cand@) == last_count(orig));
            }
            let cand_loss = match offset(&out, output) {
                Ok(v) => v,
                Err(e) => {
                    proof {
                        assert(false);
                    }
                    return Err(e);
                },
            };
            let ck = loss_key(cand_loss);
            if ck < best_key {
                best = cand;
                best_key = ck;
            }
        }
        Ok(best)
    }
}

/// Layer for layer, a built network holds as many units as its
/// blueprint asked for.
proof fn lemma_prefix_matches_blueprint(layers: Seq<LayerV>, blueprint: Seq<usize>, k: int)
    requires
        layers.len() == blueprint.len(),
        forall|i: int| 0 <= i < layers.len() ==> (#[trigger] layers[i]).neurons.len() == blueprint[i],
        k <= layers.len(),
    ensures
        units_prefix(layers, k) == blueprint_units(blueprint, k),
    decreases k,
{
    if k > 0 {
        lemma_prefix_matches_blueprint(layers, blueprint, k - 1);
    }
}

} // verus!
