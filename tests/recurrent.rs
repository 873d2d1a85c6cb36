use libnn::{
    ActivationFunctionType, CostFunctionType, DenseLayer, OutputLayer, RecurrentLayer, RecurrentNetwork,
    RecurrentTree, RecurrentTreeLayerDef, Scalar,
};
use std::cell::RefCell;

use rand::rngs::StdRng;
use rand::{Rng, SeedableRng};

/// The seed of the random draws, so that every run trains alike.
const SEED: u64 = 0;

/// Single-precision arithmetic for the engine.
#[derive(Clone, Copy, Debug, PartialEq, PartialOrd)]
struct F(f32);

impl Scalar for F {
    fn spec_of_count(n: usize) -> F {
        F(n as f32)
    }
    fn spec_plus(a: F, b: F) -> F {
        F(a.0 + b.0)
    }
    fn spec_minus(a: F, b: F) -> F {
        F(a.0 - b.0)
    }
    fn spec_times(a: F, b: F) -> F {
        F(a.0 * b.0)
    }
    fn spec_divided(a: F, b: F) -> F {
        F(a.0 / b.0)
    }
    fn spec_negated(a: F) -> F {
        F(-a.0)
    }
    fn spec_less_than(a: F, b: F) -> bool {
        a.0 < b.0
    }
    fn spec_at_most(a: F, b: F) -> bool {
        a.0 <= b.0
    }
    fn spec_exp(a: F) -> F {
        F(std::f32::consts::E.powf(a.0))
    }
    fn spec_tanh(a: F) -> F {
        F(a.0.tanh())
    }
    fn spec_cos(a: F) -> F {
        let x = a.0;
        if x >= -std::f32::consts::PI && x <= std::f32::consts::PI {
            F(fastapprox::fast::cos(x))
        } else {
            F(x.cos())
        }
    }
    fn spec_sin(a: F) -> F {
        let x = a.0;
        if x >= -std::f32::consts::PI && x <= std::f32::consts::PI {
            F(fastapprox::fast::sin(x))
        } else {
            F(x.sin())
        }
    }
    fn spec_sigmoid(a: F) -> F {
        F(1. / (1. + std::f32::consts::E.powf(-a.0)))
    }
    fn from_count(n: usize) -> F {
        F::spec_of_count(n)
    }
    fn plus(self, o: F) -> F {
        F::spec_plus(self, o)
    }
    fn minus(self, o: F) -> F {
        F::spec_minus(self, o)
    }
    fn times(self, o: F) -> F {
        F::spec_times(self, o)
    }
    fn divided(self, o: F) -> F {
        F::spec_divided(self, o)
    }
    fn negated(self) -> F {
        F::spec_negated(self)
    }
    fn less_than(self, o: F) -> bool {
        F::spec_less_than(self, o)
    }
    fn at_most(self, o: F) -> bool {
        F::spec_at_most(self, o)
    }
    fn exp(self) -> F {
        F::spec_exp(self)
    }
    fn tanh(self) -> F {
        F::spec_tanh(self)
    }
    fn cos(self) -> F {
        F::spec_cos(self)
    }
    fn sin(self) -> F {
        F::spec_sin(self)
    }
    fn sigmoid(self) -> F {
        F::spec_sigmoid(self)
    }
}

type Sequence = Vec<Vec<F>>;
type Targets = Vec<Option<Vec<F>>>;

fn build_test_network(
    rng: &RefCell<StdRng>,
    input_size: usize,
    output_size: usize,
    state_size: usize,
) -> RecurrentNetwork<F> {
    let init_recurrent_weights = |_output_ix: usize, _input_ix: usize| -> F { F(rng.borrow_mut().gen_range(-0.1..0.1)) };
    let init_recurrent_biases = |_output_ix: usize| -> F { F(0.) };

    let init_output_weights = |_output_ix: usize, _input_ix: usize| -> F { F(rng.borrow_mut().gen_range(-0.1..0.1)) };
    let init_output_biases = |_output_ix: usize| -> F { F(0.) };

    let recurrent_layer_def = vec![RecurrentTreeLayerDef {
        input_count: input_size + state_size,
        output_count: state_size,
        init_weights: init_recurrent_weights,
        init_biases: init_recurrent_biases,
        activation_fn: ActivationFunctionType::Identity,
    }];

    RecurrentNetwork {
        recurrent_layer: RecurrentLayer::new(
            output_size,
            input_size,
            recurrent_layer_def,
            &init_output_weights,
            &init_output_biases,
            ActivationFunctionType::Identity,
            state_size,
        ),
        output_layer: Box::new(OutputLayer::new(
            ActivationFunctionType::Identity,
            CostFunctionType::MeanSquaredError,
            &|_, _| F(1.),
            output_size,
            output_size,
        )),
        outputs: Vec::new(),
        recurrent_layer_outputs: Vec::new(),
    }
}

fn one(x: f32) -> Vec<F> {
    vec![F(x)]
}

fn random_value(rng: &RefCell<StdRng>) -> Vec<F> {
    one(rng.borrow_mut().gen_range(-1.0..1.0))
}

fn seeded() -> RefCell<StdRng> {
    RefCell::new(StdRng::seed_from_u64(SEED))
}

/// A random sequence whose target at each step is the value `lookback` steps earlier.
fn lookback_data(rng: &RefCell<StdRng>, min_len: usize, max_len: usize, lookback: usize) -> (Sequence, Targets) {
    let sequence_len = rng.borrow_mut().gen_range(min_len..max_len);
    let mut training_sequence = Vec::with_capacity(sequence_len);
    let mut expected_outputs = Vec::with_capacity(sequence_len);
    for i in 0..sequence_len {
        training_sequence.push(random_value(rng));
        if i < lookback {
            expected_outputs.push(None);
        } else {
            expected_outputs.push(Some(training_sequence[i - lookback].clone()));
        }
    }
    (training_sequence, expected_outputs)
}

/// This is as simple as it gets. Optimize the weights of the output tree towards zero for all inputs.
#[test]
fn rnn_sanity_output_zero() {
    let rng = seeded();
    let mut network = build_test_network(&rng, 1, 1, 1);
    let learning_rate = F(0.25);

    let training_sequence = vec![one(1.), one(0.5)];
    let expected_outputs = vec![Some(one(0.0)), Some(one(0.0))];

    let (initial_total_cost, _output_gradients) =
        network.forward_propagate(&training_sequence, Some(expected_outputs.as_slice()));

    let mut last_iter_cost = initial_total_cost;
    for _ in 0..100 {
        last_iter_cost = network.train_one_sequence(&training_sequence, &expected_outputs, learning_rate);
    }
    assert!(last_iter_cost.0 < 0.0001);
}

/// Output current value in the sequence
#[test]
fn rnn_sanity_output_identity() {
    let rng = seeded();
    let mut network = build_test_network(&rng, 1, 1, 1);
    let learning_rate = F(0.05);

    let gen_training_data = || -> (Sequence, Targets) {
        let training_sequence: Sequence = (0..4).map(|_| random_value(&rng)).collect();
        let expected_sequence = training_sequence.iter().map(|v| Some(v.clone())).collect();
        (training_sequence, expected_sequence)
    };

    let (training_sequence, expected_outputs) = gen_training_data();
    let (initial_total_cost, _output_gradients) =
        network.forward_propagate(&training_sequence, Some(expected_outputs.as_slice()));

    let mut last_iter_cost = initial_total_cost;
    for _ in 0..2000 {
        let (training_sequence, expected_outputs) = gen_training_data();
        last_iter_cost = network.train_one_sequence(&training_sequence, &expected_outputs, learning_rate);
    }
    assert!(last_iter_cost.0 < 0.001);
}

/// Output previous value in the sequence
#[test]
fn rnn_sanity_output_last_value() {
    let rng = seeded();
    let mut network = build_test_network(&rng, 1, 1, 4);
    let learning_rate = F(0.02);

    let (training_sequence, expected_outputs) = lookback_data(&rng, 3, 20, 1);
    let (initial_total_cost, _output_gradients) =
        network.forward_propagate(&training_sequence, Some(expected_outputs.as_slice()));

    let mut cost = initial_total_cost;
    for _ in 0..5000 {
        let (training_sequence, expected_outputs) = lookback_data(&rng, 3, 20, 1);
        cost = network.train_one_sequence(&training_sequence, &expected_outputs, learning_rate);
        if cost.0.is_nan() {
            panic!();
        }
    }
    assert!(cost.0 < 0.001);
}

/// Output value seen 2 steps ago
#[test]
fn rnn_sanity_output_2_steps_back() {
    let rng = seeded();
    let mut network = build_test_network(&rng, 1, 1, 4);
    let learning_rate = F(0.01);

    let (training_sequence, expected_outputs) = lookback_data(&rng, 3, 20, 2);
    let (initial_total_cost, _output_gradients) =
        network.forward_propagate(&training_sequence, Some(expected_outputs.as_slice()));

    let mut last_iter_cost = initial_total_cost;
    for _ in 0..5000 {
        let (training_sequence, expected_outputs) = lookback_data(&rng, 3, 20, 2);
        let new_cost = network.train_one_sequence(&training_sequence, &expected_outputs, learning_rate);
        if new_cost.0.is_nan() {
            panic!();
        }
        last_iter_cost = new_cost;
    }
    assert!(last_iter_cost.0 < 0.001);
}

fn identity_layer(neurons: usize, inputs: usize) -> DenseLayer<F> {
    DenseLayer::new(neurons, inputs, &|_, _| F(0.), &|_| F(0.), ActivationFunctionType::Identity)
}

fn copy_tree(layers: Vec<DenseLayer<F>>) -> RecurrentTree<F> {
    RecurrentTree {
        layers,
        neuron_gradients_by_layer_by_step_ix: Vec::new(),
        layer_outputs_by_layer_by_step_ix: Vec::new(),
    }
}

#[test]
fn two_layer_recurrent_sanity() {
    let rng = seeded();
    let input_size = 1;
    let state_size = 1;
    let learning_rate = F(0.05);
    let mut network = build_test_network(&rng, input_size, 1, state_size);

    // Wire the weights to copy the previous input through the state.
    let mut dense_layer_1 = identity_layer(1, input_size + state_size);
    dense_layer_1.weights[0][0] = F(0.);
    dense_layer_1.weights[0][1] = F(1.);
    let mut dense_layer_2 = identity_layer(1, state_size);
    dense_layer_2.weights[0][0] = F(1.);
    network.recurrent_layer.recurrent_tree = copy_tree(vec![dense_layer_1, dense_layer_2]);
    network.recurrent_layer.output_tree.weights[0][0] = F(1.);
    network.recurrent_layer.output_tree.weights[0][1] = F(0.);

    let output = network.predict(&[one(1.), one(0.4), one(-0.3), one(0.8)]).to_vec();
    assert_eq!(output, vec![one(0.), one(1.), one(0.4), one(-0.3)]);

    // The cost is zero whatever the inputs, so the weights stay as they are.
    for _ in 0..100 {
        let (training_sequence, expected_outputs) = lookback_data(&rng, 3, 20, 1);
        let cost = network.train_one_sequence(&training_sequence, &expected_outputs, learning_rate);
        assert_eq!(cost, F(0.));
    }

    // Change one weight and check that training recovers it.
    network.recurrent_layer.recurrent_tree.layers[1].weights[0][0] = F(-1.);
    let training_sequence = vec![one(-1.), one(1.), one(-1.), one(1.)];
    let expected_outputs = vec![None, Some(one(-1.)), Some(one(1.)), Some(one(-1.))];
    network.train_one_sequence(&training_sequence, &expected_outputs, learning_rate);

    let mut cost = F(0.);
    for _ in 0..100 {
        let (training_sequence, expected_outputs) = lookback_data(&rng, 3, 20, 1);
        cost = network.train_one_sequence(&training_sequence, &expected_outputs, learning_rate);
    }
    assert!(cost.0 < 0.0001);
}

#[test]
fn three_layer_recurrent_sanity() {
    let rng = seeded();
    let input_size = 1;
    let state_size = 1;
    let learning_rate = F(0.01);
    let mut network = build_test_network(&rng, input_size, 1, state_size);

    let mut dense_layer_1 = identity_layer(1, input_size + state_size);
    dense_layer_1.weights[0][0] = F(0.);
    dense_layer_1.weights[0][1] = F(1.);
    let mut dense_layer_2 = identity_layer(1, state_size);
    dense_layer_2.weights[0][0] = F(1.);
    let mut dense_layer_3 = identity_layer(1, state_size);
    dense_layer_3.weights[0][0] = F(1.);
    network.recurrent_layer.recurrent_tree = copy_tree(vec![dense_layer_1, dense_layer_2, dense_layer_3]);
    network.recurrent_layer.output_tree.weights[0][0] = F(1.);
    network.recurrent_layer.output_tree.weights[0][1] = F(0.);

    let output = network.predict(&[one(1.), one(0.4), one(-0.3), one(0.8)]).to_vec();
    assert_eq!(output, vec![one(0.), one(1.), one(0.4), one(-0.3)]);

    for _ in 0..100 {
        let (training_sequence, expected_outputs) = lookback_data(&rng, 13, 20, 1);
        let cost = network.train_one_sequence(&training_sequence, &expected_outputs, learning_rate);
        assert_eq!(cost, F(0.));
    }

    network.recurrent_layer.recurrent_tree.layers[1].weights[0][0] = F(0.2);

    let mut cost = F(0.);
    for _ in 0..200 {
        let (training_sequence, expected_outputs) = lookback_data(&rng, 13, 20, 1);
        cost = network.train_one_sequence(&training_sequence, &expected_outputs, learning_rate);
    }
    assert!(cost.0 < 0.0001);
}

#[test]
fn three_layer_recurrent_sanity_random_weights() {
    let rng = seeded();
    let input_size = 1;
    let state_size = 1;
    let mut network = build_test_network(&rng, input_size, 1, state_size);

    let random_layer = |neurons: usize, inputs: usize| {
        DenseLayer::new(
            neurons,
            inputs,
            &|_, _| F(rng.borrow_mut().gen_range(-0.2..0.2)),
            &|_| F(0.),
            ActivationFunctionType::Identity,
        )
    };
    network.recurrent_layer.recurrent_tree = copy_tree(vec![
        random_layer(1, input_size + state_size),
        random_layer(1, state_size),
        random_layer(1, state_size),
    ]);

    let mut good_cost_count = 0;
    let mut cost = F(0.);
    for i in 0..20000 {
        let learning_rate = if i < 10 {
            F(0.15)
        } else if i < 50 {
            F(0.1)
        } else if i < 500 {
            F(0.05)
        } else if i < 1000 {
            F(0.02)
        } else {
            F(0.01)
        };
        let (training_sequence, expected_outputs) = lookback_data(&rng, 4, 30, 1);
        cost = network.train_one_sequence(&training_sequence, &expected_outputs, learning_rate);
        if cost.0.is_nan() {
            panic!("Cost function explosion");
        }
        if cost.0 < 0.0001 {
            good_cost_count += 1;
        } else {
            good_cost_count = 0;
        }
        if good_cost_count == 20 {
            return;
        }
    }
    assert!(cost.0 < 0.0001);
}

#[test]
fn copy_wired_layer_predicts_previous_input() {
    let rng = seeded();
    let mut network = build_test_network(&rng, 1, 1, 1);
    let mut dense_layer = identity_layer(1, 2);
    dense_layer.weights[0][1] = F(1.);
    network.recurrent_layer.recurrent_tree = copy_tree(vec![dense_layer]);
    network.recurrent_layer.output_tree.weights[0][0] = F(1.);
    network.recurrent_layer.output_tree.weights[0][1] = F(0.);
    network.recurrent_layer.output_tree.biases[0] = F(0.);
    let sequence = vec![one(0.25), one(-0.75), one(3.5), one(1.125), one(-2.)];
    let first = network.predict(&sequence).to_vec();
    assert_eq!(first, vec![one(0.), one(0.25), one(-0.75), one(3.5), one(1.125)]);
    let again = network.predict(&sequence).to_vec();
    assert_eq!(first, again);
}

#[test]
fn train_one_sequence_cost_and_absent_targets() {
    let rng = seeded();
    let mut network = build_test_network(&rng, 1, 1, 1);
    let mut dense_layer = identity_layer(1, 2);
    dense_layer.weights[0][1] = F(1.);
    network.recurrent_layer.recurrent_tree = copy_tree(vec![dense_layer]);
    network.recurrent_layer.output_tree.weights[0][0] = F(1.);
    network.recurrent_layer.output_tree.weights[0][1] = F(0.);
    // Outputs are 0, 1, 2 for inputs 1, 2, 3.
    let sequence = vec![one(1.), one(2.), one(3.)];
    let targets = vec![None, Some(one(3.)), Some(one(0.))];
    let (total, gradients) = network.forward_propagate(&sequence, Some(targets.as_slice()));
    // Costs (3 - 1)^2 = 4 and (0 - 2)^2 = 4.
    assert_eq!(total, F(8.));
    assert_eq!(gradients, vec![one(0.), one(4.), one(-4.)]);
    let cost = network.train_one_sequence(&sequence, &targets, F(0.));
    assert_eq!(cost, F(8. / 3.));
}

#[test]
fn predict_leaves_parameters_alone() {
    let rng = seeded();
    let mut network = build_test_network(&rng, 1, 2, 3);
    let weights = network.recurrent_layer.output_tree.weights.clone();
    let tree_weights = network.recurrent_layer.recurrent_tree.all_layer_weights();
    let output_weights = network.output_layer.weights.clone();
    let sequence = vec![one(0.5), one(-0.25)];
    let first = network.predict(&sequence).to_vec();
    let second = network.predict(&sequence).to_vec();
    assert_eq!(first, second);
    assert_eq!(network.recurrent_layer.output_tree.weights, weights);
    assert_eq!(network.recurrent_layer.recurrent_tree.all_layer_weights(), tree_weights);
    assert_eq!(network.output_layer.weights, output_weights);
}

#[test]
fn recurrent_tree_accessors_and_reset() {
    let rng = seeded();
    let mut network = build_test_network(&rng, 2, 1, 3);
    let tree = &network.recurrent_layer.recurrent_tree;
    assert_eq!(tree.all_layer_biases(), vec![vec![F(0.); 3]]);
    assert_eq!(tree.first_layer_weights().len(), 3);
    assert_eq!(tree.first_layer_weights()[0].len(), 5);
    assert_eq!(tree.all_layer_weights()[0], *tree.first_layer_weights());
    let sequence = vec![vec![F(0.5), F(1.)], vec![F(-1.), F(0.25)]];
    network.predict(&sequence);
    assert_eq!(network.recurrent_layer.prev_states[0], vec![F(0.); 3]);
    assert_eq!(network.recurrent_layer.sequence_inputs[1], sequence[1]);
    assert_eq!(network.recurrent_layer.state, network.recurrent_layer.recurrent_tree.outputs().to_vec());
    network.recurrent_layer.reset();
    assert_eq!(network.recurrent_layer.state, vec![F(0.); 3]);
}
