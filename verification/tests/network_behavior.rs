use hillclimb_net::error::NetworkError;
use hillclimb_net::network::NeuralNetwork;
use hillclimb_net::network::offset;
use hillclimb_net::neuron::Neuron;
use hillclimb_net::scalar::Activation;
use hillclimb_net::scalar::sigmoid;

fn bits(values: &[f64]) -> Vec<u64> {
    values.iter().map(|v| v.to_bits()).collect()
}

#[test]
fn it_works() {
    let network = NeuralNetwork::new(vec![2, 4, 2], 5, Some(Activation::Sigmoid)).unwrap();
    println!("TEST-TEST-TEST-TEST-TEST-TEST-TEST-TEST-TEST-TEST-TEST-TEST-TEST-TEST-TEST-");
    assert_eq!(network.shape_string(), "5 2 4 ");
}

#[test]
fn shape_string_multi_digit() {
    let network = NeuralNetwork::new(vec![12, 3], 10, None).unwrap();
    assert_eq!(network.shape_string(), "10 12 ");
}

#[test]
fn construct_two_four_two() {
    let network = NeuralNetwork::new(vec![2, 4, 2], 5, None).unwrap();
    assert_eq!(network.input_arity(), 5);
    assert_eq!(network.layer_count(), 3);
    let out = network.process(&bits(&[0.1, 0.2, 0.3, 0.4, 0.5])).unwrap();
    assert_eq!(out.len(), 2);
    let first = network.layer_at(0);
    assert_eq!(first.neuron_count(), 2);
    assert_eq!(first.input_count(), 5);
    let unit = first.neuron_at(1);
    assert_eq!(unit.input_count(), 5);
    assert_eq!(unit.activation(), Activation::Sigmoid);
    assert_eq!(f64::from_bits(unit.bias()), 1.0);
    for i in 0..5usize {
        let w = f64::from_bits(unit.weight_at(i));
        assert!(-1.0 < w && w < 1.0);
    }
}

#[test]
fn output_length_is_last_blueprint_entry() {
    let network = NeuralNetwork::new(vec![4, 7, 3], 2, None).unwrap();
    let out = network.process(&bits(&[1.0, -1.0])).unwrap();
    assert_eq!(out.len(), 3);
}

#[test]
fn construct_rejects_bad_blueprints() {
    assert_eq!(
        NeuralNetwork::new(vec![], 3, None).unwrap_err(),
        NetworkError::InvalidConfiguration
    );
    assert_eq!(
        NeuralNetwork::new(vec![2, 0, 1], 3, None).unwrap_err(),
        NetworkError::InvalidConfiguration
    );
    assert_eq!(
        NeuralNetwork::new(vec![2, 1], 0, None).unwrap_err(),
        NetworkError::InvalidConfiguration
    );
}

#[test]
fn evaluate_is_deterministic() {
    let network = NeuralNetwork::new(vec![3, 2], 4, None).unwrap();
    let input = bits(&[0.25, -0.5, 0.75, 1.0]);
    let first = network.process(&input).unwrap();
    let second = network.process(&input).unwrap();
    assert_eq!(first, second);
}

#[test]
fn evaluate_rejects_wrong_arity() {
    let network = NeuralNetwork::new(vec![3, 2], 4, None).unwrap();
    assert_eq!(
        network.process(&bits(&[1.0, 2.0, 3.0])).unwrap_err(),
        NetworkError::DimensionMismatch
    );
    assert_eq!(
        network.process(&bits(&[1.0, 2.0, 3.0, 4.0, 5.0])).unwrap_err(),
        NetworkError::DimensionMismatch
    );
    assert_eq!(network.process(&bits(&[])).unwrap_err(), NetworkError::DimensionMismatch);
}

#[test]
fn unit_evaluates_default_sigmoid_formula() {
    let unit = Neuron::new(3, Activation::Sigmoid).unwrap();
    let one = (1.0f64).to_bits();
    let out = unit.process(&vec![one, one, one]).unwrap();
    let w0 = f64::from_bits(unit.weight_at(0));
    let w1 = f64::from_bits(unit.weight_at(1));
    let w2 = f64::from_bits(unit.weight_at(2));
    let b = f64::from_bits(unit.bias());
    assert_eq!(b, 1.0);
    let pre = (((0.0 + w0 * 1.0) + w1 * 1.0) + w2 * 1.0) + b;
    let expected = 1.0 - 1.0 / (1.0 + libm::exp(pre));
    assert_eq!(out, expected.to_bits());
}

#[test]
fn unit_rejects_wrong_arity_and_zero_inputs() {
    let unit = Neuron::new(2, Activation::Sigmoid).unwrap();
    assert_eq!(
        unit.process(&bits(&[1.0])).unwrap_err(),
        NetworkError::DimensionMismatch
    );
    assert_eq!(
        Neuron::new(0, Activation::Sigmoid).unwrap_err(),
        NetworkError::InvalidConfiguration
    );
}

#[test]
fn linear_unit_returns_weighted_sum() {
    let unit = Neuron::new(2, Activation::Linear).unwrap();
    let input = bits(&[0.5, -2.0]);
    let out = unit.process(&input).unwrap();
    let w0 = f64::from_bits(unit.weight_at(0));
    let w1 = f64::from_bits(unit.weight_at(1));
    let expected = (((0.0 + w0 * 0.5) + w1 * -2.0) + 1.0).to_bits();
    assert_eq!(out, expected);
}

#[test]
fn step_unit_returns_unit_values() {
    let unit = Neuron::new(2, Activation::Step).unwrap();
    let out = f64::from_bits(unit.process(&bits(&[100.0, 100.0])).unwrap());
    assert!(out == 1.0 || out == -1.0);
    let w0 = f64::from_bits(unit.weight_at(0));
    let w1 = f64::from_bits(unit.weight_at(1));
    let pre = (((0.0 + w0 * 100.0) + w1 * 100.0)) + 1.0;
    let expected = if pre < 0.0 { -1.0 } else { 1.0 };
    assert_eq!(out, expected);
}

#[test]
fn sigmoid_of_zero_is_one_half() {
    assert_eq!(sigmoid((0.0f64).to_bits()), (0.5f64).to_bits());
}

#[test]
fn offset_sums_absolute_differences() {
    let a = bits(&[1.0, -2.0, 3.0]);
    let b = bits(&[0.5, 1.0, 3.0]);
    let loss = f64::from_bits(offset(&a, &b).unwrap());
    assert_eq!(loss, 0.5 + 3.0 + 0.0);
    assert_eq!(
        offset(&a, &bits(&[1.0])).unwrap_err(),
        NetworkError::DimensionMismatch
    );
}
