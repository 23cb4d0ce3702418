use hillclimb_net::error::NetworkError;
use hillclimb_net::network::NeuralNetwork;
use hillclimb_net::network::offset;
use hillclimb_net::neuron::Neuron;
use hillclimb_net::scalar::Activation;

fn bits(values: &[f64]) -> Vec<u64> {
    values.iter().map(|v| v.to_bits()).collect()
}

fn loss_value(network: &NeuralNetwork, input: &Vec<u64>, target: &Vec<u64>) -> f64 {
    let out = network.process(input).unwrap();
    f64::from_bits(offset(&out, target).unwrap())
}

#[test]
fn perturbation_touches_at_most_count_positions() {
    let lo = (-0.75f64).to_bits();
    let hi = (0.75f64).to_bits();
    let mut unit = Neuron::new(8, Activation::Sigmoid).unwrap();
    let before: Vec<u64> = (0..8usize).map(|i| unit.weight_at(i)).collect();
    let old_bias = unit.bias();
    unit.randomize_weights(3, lo, hi).unwrap();
    let mut changed = 0;
    for (i, b) in before.iter().enumerate() {
        if unit.weight_at(i) != *b {
            changed += 1;
        }
    }
    assert!(changed <= 3);
    assert_eq!(unit.input_count(), 8);
    assert_eq!(unit.bias(), old_bias);
}

#[test]
fn perturbation_of_all_positions_is_bounded_noise() {
    let lo = (-0.75f64).to_bits();
    let hi = (0.75f64).to_bits();
    let mut unit = Neuron::new(4, Activation::Sigmoid).unwrap();
    let before: Vec<u64> = (0..4usize).map(|i| unit.weight_at(i)).collect();
    unit.randomize_weights(4, lo, hi).unwrap();
    for (i, b) in before.iter().enumerate() {
        let delta = f64::from_bits(unit.weight_at(i)) - f64::from_bits(*b);
        assert!(delta.abs() <= 0.7500001);
    }
}

#[test]
fn perturbation_rejects_bad_counts() {
    let lo = (-0.75f64).to_bits();
    let hi = (0.75f64).to_bits();
    let mut unit = Neuron::new(3, Activation::Sigmoid).unwrap();
    assert_eq!(
        unit.randomize_weights(0, lo, hi).unwrap_err(),
        NetworkError::InvalidConfiguration
    );
    assert_eq!(
        unit.randomize_weights(4, lo, hi).unwrap_err(),
        NetworkError::InvalidConfiguration
    );
}

#[test]
fn bias_perturbation_keeps_weights() {
    let lo = (-0.75f64).to_bits();
    let hi = (0.75f64).to_bits();
    let mut unit = Neuron::new(3, Activation::Sigmoid).unwrap();
    let before: Vec<u64> = (0..3usize).map(|i| unit.weight_at(i)).collect();
    let old_bias = f64::from_bits(unit.bias());
    unit.randomize_bias(lo, hi);
    let new_bias = f64::from_bits(unit.bias());
    assert!((new_bias - old_bias).abs() <= 0.7500001);
    for (i, b) in before.iter().enumerate() {
        assert_eq!(unit.weight_at(i), *b);
    }
}

#[test]
fn evolve_never_worsens_loss() {
    let input = bits(&[0.5, -0.25]);
    let target = bits(&[0.0, 1.0, 0.5]);
    let network = NeuralNetwork::new(vec![4, 3], 2, None).unwrap();
    let base = loss_value(&network, &input, &target);
    let evolved = network.evolve(&input, &target, 12).unwrap();
    let tuned = loss_value(&evolved, &input, &target);
    assert!(tuned <= base);
}

#[test]
fn evolve_with_zero_children_keeps_loss_exactly() {
    let input = bits(&[0.5, -0.25, 1.5]);
    let target = bits(&[1.0, 0.0]);
    let network = NeuralNetwork::new(vec![3, 2], 3, None).unwrap();
    let base_out = network.process(&input).unwrap();
    let base = loss_value(&network, &input, &target);
    let evolved = network.evolve(&input, &target, 0).unwrap();
    let out = evolved.process(&input).unwrap();
    assert_eq!(out, base_out);
    assert_eq!(loss_value(&evolved, &input, &target), base);
}

#[test]
fn evolve_keeps_shape() {
    let input = bits(&[0.1, 0.2]);
    let target = bits(&[0.3]);
    let network = NeuralNetwork::new(vec![5, 1], 2, None).unwrap();
    let shape = network.shape_string();
    let evolved = network.evolve(&input, &target, 6).unwrap();
    assert_eq!(evolved.shape_string(), shape);
    assert_eq!(evolved.input_arity(), 2);
}

#[test]
fn evolve_rejects_mismatched_examples() {
    let network = NeuralNetwork::new(vec![3, 2], 4, None).unwrap();
    assert_eq!(
        network.evolve(&bits(&[1.0]), &bits(&[0.0, 0.0]), 3).unwrap_err(),
        NetworkError::DimensionMismatch
    );
    let network = NeuralNetwork::new(vec![3, 2], 4, None).unwrap();
    assert_eq!(
        network
            .evolve(&bits(&[1.0, 2.0, 3.0, 4.0]), &bits(&[0.0, 0.0, 0.0]), 3)
            .unwrap_err(),
        NetworkError::DimensionMismatch
    );
}

#[test]
fn single_layer_network_evolves() {
    let input = bits(&[2.0]);
    let target = bits(&[0.25]);
    let network = NeuralNetwork::new(vec![1], 1, None).unwrap();
    assert_eq!(network.process(&input).unwrap().len(), 1);
    let base = loss_value(&network, &input, &target);
    let evolved = network.evolve(&input, &target, 8).unwrap();
    assert!(loss_value(&evolved, &input, &target) <= base);
    assert_eq!(evolved.shape_string(), "1 ");
}

#[test]
fn duplicate_is_independent() {
    let network = NeuralNetwork::new(vec![2, 2], 2, None).unwrap();
    let copy = network.duplicate();
    let input = bits(&[0.5, 0.5]);
    assert_eq!(network.process(&input).unwrap(), copy.process(&input).unwrap());
}
