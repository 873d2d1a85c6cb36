use libnn::{
    build_layer_outputs_buf, ActivationFunctionType, Ameo, CostFunctionType, DenseLayer, Gaussian,
    GrowingCosineUnit, Identity, LayerVizState, LeakyReLU, MeanSquaredError, MeanSquaredErrorMultiplied,
    Network, OutputLayer, ReLU, Scalar, Sigmoid, Swish, Tanh,
};
use rand::rngs::StdRng;
use rand::{Rng, SeedableRng};

/// The seed of the random draws, so that every run trains alike.
const SEED: u64 = 0;

/// Single-precision arithmetic for the engine.
#[derive(Clone, Copy, Debug, PartialEq, PartialOrd)]
struct F(f32);

impl Scalar for F {
    fn spec_of_count(n: usize) -> F {
        F(n as f32)
    }
    fn spec_plus(a: F, b: F) -> F {
        F(a.0 + b.0)
    }
    fn spec_minus(a: F, b: F) -> F {
        F(a.0 - b.0)
    }
    fn spec_times(a: F, b: F) -> F {
        F(a.0 * b.0)
    }
    fn spec_divided(a: F, b: F) -> F {
        F(a.0 / b.0)
    }
    fn spec_negated(a: F) -> F {
        F(-a.0)
    }
    fn spec_less_than(a: F, b: F) -> bool {
        a.0 < b.0
    }
    fn spec_at_most(a: F, b: F) -> bool {
        a.0 <= b.0
    }
    fn spec_exp(a: F) -> F {
        F(std::f32::consts::E.powf(a.0))
    }
    fn spec_tanh(a: F) -> F {
        F(a.0.tanh())
    }
    fn spec_cos(a: F) -> F {
        let x = a.0;
        if x >= -std::f32::consts::PI && x <= std::f32::consts::PI {
            F(fastapprox::fast::cos(x))
        } else {
            F(x.cos())
        }
    }
    fn spec_sin(a: F) -> F {
        let x = a.0;
        if x >= -std::f32::consts::PI && x <= std::f32::consts::PI {
            F(fastapprox::fast::sin(x))
        } else {
            F(x.sin())
        }
    }
    fn spec_sigmoid(a: F) -> F {
        F(1. / (1. + std::f32::consts::E.powf(-a.0)))
    }
    fn from_count(n: usize) -> F {
        F::spec_of_count(n)
    }
    fn plus(self, o: F) -> F {
        F::spec_plus(self, o)
    }
    fn minus(self, o: F) -> F {
        F::spec_minus(self, o)
    }
    fn times(self, o: F) -> F {
        F::spec_times(self, o)
    }
    fn divided(self, o: F) -> F {
        F::spec_divided(self, o)
    }
    fn negated(self) -> F {
        F::spec_negated(self)
    }
    fn less_than(self, o: F) -> bool {
        F::spec_less_than(self, o)
    }
    fn at_most(self, o: F) -> bool {
        F::spec_at_most(self, o)
    }
    fn exp(self) -> F {
        F::spec_exp(self)
    }
    fn tanh(self) -> F {
        F::spec_tanh(self)
    }
    fn cos(self) -> F {
        F::spec_cos(self)
    }
    fn sin(self) -> F {
        F::spec_sin(self)
    }
    fn sigmoid(self) -> F {
        F::spec_sigmoid(self)
    }
}

fn v(xs: &[f32]) -> Vec<F> {
    xs.iter().map(|&x| F(x)).collect()
}

fn m(rows: &[&[f32]]) -> Vec<Vec<F>> {
    rows.iter().map(|r| v(r)).collect()
}

fn sigmoid(x: f32) -> F {
    Sigmoid.get_output(F(x))
}

#[test]
fn test_dense_layer_forward_propagation() {
    let inputs = &v(&[1.2, -2.0]);

    let mut dense_layer = DenseLayer {
        weights: m(&[&[-1.2, 0.4], &[2.0, -1.0]]),
        biases: v(&[1.0, -2.0]),
        neuron_gradients: v(&[0.; 2]),
        activation_fn: ActivationFunctionType::Sigmoid,
        outputs_before_activation: v(&[0., 0.]),
        outputs: v(&[0., 0.]),
    };

    dense_layer.forward_propagate(inputs);
    let expected_outputs = vec![sigmoid(1.2 * -1.2 + -2. * 0.4 + 1.), sigmoid(1.2 * 2. + -2. * -1. + -2.)];
    assert_eq!(expected_outputs, dense_layer.outputs);
}

#[test]
fn test_output_layer_forward_propagation() {
    let inputs = &v(&[1.2, -2.0]);

    let mut output_layer = OutputLayer {
        weights: m(&[&[-1.2, 0.4], &[2.0, -1.0]]),
        neuron_gradients: v(&[0.; 2]),
        activation_fn: ActivationFunctionType::Sigmoid,
        outputs_before_activation: v(&[0., 0.]),
        outputs: v(&[0., 0.]),
        errors: v(&[0., 0.]),
        costs: v(&[0., 0.]),
        cost_fn: CostFunctionType::MeanSquaredError,
    };

    output_layer.forward_propagate(inputs);
    let expected_outputs = vec![sigmoid(1.2 * -1.2 + -2. * 0.4), sigmoid(1.2 * 2. + -2. * -1.)];
    assert_eq!(expected_outputs, output_layer.outputs);
}

fn sigmoid_network() -> Network<F> {
    Network {
        hidden_layers: vec![DenseLayer {
            weights: m(&[&[-1.2, 0.4], &[2.0, -1.0]]),
            biases: v(&[1.0, -2.0]),
            neuron_gradients: v(&[0.; 2]),
            activation_fn: ActivationFunctionType::Sigmoid,
            outputs_before_activation: v(&[0., 0.]),
            outputs: v(&[0., 0.]),
        }],
        outputs: Box::new(OutputLayer {
            weights: m(&[&[-1.2, 0.4], &[2.0, -1.0]]),
            neuron_gradients: v(&[0.; 2]),
            activation_fn: ActivationFunctionType::Sigmoid,
            outputs_before_activation: v(&[0., 0.]),
            outputs: v(&[0., 0.]),
            errors: v(&[0., 0.]),
            costs: v(&[0., 0.]),
            cost_fn: CostFunctionType::MeanSquaredError,
        }),
        learning_rate: F(0.2),
    }
}

#[test]
fn test_forward_propagation() {
    let mut network = sigmoid_network();

    let inputs = &v(&[1.2, -2.0]);
    network.forward_propagate(inputs);

    let a = sigmoid(1.2 * -1.2 + -2. * 0.4 + 1.).0;
    let b = sigmoid(1.2 * 2. + -2. * -1. + -2.).0;
    let expected_outputs = vec![sigmoid(a * -1.2 + b * 0.4), sigmoid(a * 2. + b * -1.)];
    assert_eq!(expected_outputs, network.outputs.outputs);
}

#[test]
fn test_error_computation() {
    let mut output_layer = OutputLayer {
        weights: m(&[&[-1.2, 0.4], &[2.0, -1.0]]),
        neuron_gradients: v(&[0.; 2]),
        activation_fn: ActivationFunctionType::Sigmoid,
        outputs_before_activation: v(&[0., 0.]),
        outputs: v(&[-0.2, 2.4]),
        errors: v(&[0., 0.]),
        costs: v(&[0., 0.]),
        cost_fn: CostFunctionType::MeanSquaredError,
    };

    let actual_values = &v(&[0.0, 1.0]);
    let expected_errors = [0.0 - -0.2, 1.0 - 2.4];
    let expected_costs = [expected_errors[0] * expected_errors[0], expected_errors[1] * expected_errors[1]];
    output_layer.compute_costs(actual_values);
    assert_eq!(output_layer.errors, v(&expected_errors));
    assert_eq!(output_layer.costs, v(&expected_costs));
}

#[test]
fn test_single_neuron_weight_updating() {
    let inputs = &v(&[0.4, -0.3]);
    let desired_outputs = &v(&[0.]);

    let mut output_layer = OutputLayer {
        weights: m(&[&[-0.2, 0.9]]),
        neuron_gradients: v(&[0.]),
        activation_fn: ActivationFunctionType::Sigmoid,
        outputs: v(&[0.0]),
        outputs_before_activation: v(&[0.]),
        errors: v(&[0.]),
        costs: v(&[0.]),
        cost_fn: CostFunctionType::MeanSquaredError,
    };

    output_layer.forward_propagate(inputs);
    output_layer.compute_costs(desired_outputs);
    let mut before_costs;

    for _ in 0..500 {
        before_costs = output_layer.costs.clone();

        output_layer.compute_gradients();
        output_layer.update_weights(inputs, F(0.5));

        output_layer.forward_propagate(inputs);
        output_layer.compute_costs(desired_outputs);
        assert!(before_costs[0] >= output_layer.costs[0]);
    }
}

#[test]
fn test_weight_updating() {
    let mut output_layer = OutputLayer {
        weights: m(&[&[-1.2, 0.4], &[2.0, -1.0]]),
        neuron_gradients: v(&[0.; 2]),
        activation_fn: ActivationFunctionType::Sigmoid,
        outputs: v(&[-0.2, 2.4]),
        outputs_before_activation: v(&[0., 0.]),
        errors: v(&[0., 0.]),
        costs: v(&[0., 0.]),
        cost_fn: CostFunctionType::MeanSquaredError,
    };

    let inputs = &v(&[0.2, -0.8]);
    let desired_outputs = &v(&[0.0, 1.0]);
    output_layer.forward_propagate(inputs);
    output_layer.compute_costs(desired_outputs);
    let mut before_costs;

    for _ in 0..100 {
        before_costs = output_layer.costs.clone();

        output_layer.compute_gradients();
        output_layer.update_weights(inputs, F(0.5));

        output_layer.forward_propagate(inputs);
        output_layer.compute_costs(desired_outputs);
        assert!(before_costs[0] > output_layer.costs[0]);
        assert!(before_costs[1] > output_layer.costs[1]);
    }
}

fn single_identity_neuron() -> DenseLayer<F> {
    DenseLayer {
        weights: m(&[&[1.0]]),
        biases: v(&[0.0]),
        neuron_gradients: v(&[0.]),
        activation_fn: ActivationFunctionType::Identity,
        outputs_before_activation: v(&[0.]),
        outputs: v(&[0.]),
    }
}

#[test]
fn test_hidden_layer_single_weight_updating() {
    let mut dense_layer = single_identity_neuron();

    let inputs = &v(&[1.]);
    dense_layer.forward_propagate(inputs);

    let output_weights = &m(&[&[1.]]);
    // An identity output neuron with expected output 0: error -1, gradient -2.
    let fake_output_gradients = &v(&[-2.]);

    dense_layer.compute_gradients(output_weights, fake_output_gradients);
    dense_layer.update_weights(inputs, F(0.5));

    assert!(dense_layer.weights[0][0] < F(1.));
}

#[test]
fn test_hidden_layer_single_neuron_bias_updating() {
    let mut dense_layer = single_identity_neuron();

    let inputs = &v(&[1.]);
    dense_layer.forward_propagate(inputs);

    let output_weights = &m(&[&[1.]]);
    let fake_output_gradients = &v(&[-2.]);

    dense_layer.compute_gradients(output_weights, fake_output_gradients);
    dense_layer.update_biases(F(0.5));

    assert!(dense_layer.biases[0] < F(0.));
}

#[test]
fn test_most_basic_full_neural_net_training() {
    const INPUT_COUNT: usize = 1;
    const OUTPUT_COUNT: usize = 1;
    let hidden_layer_neuron_count = 1;
    let learning_rate = F(0.005);
    let mut network: Network<F> = Network {
        hidden_layers: vec![DenseLayer::new(
            hidden_layer_neuron_count,
            INPUT_COUNT,
            &|_, _| F(1.),
            &|_| F(0.),
            ActivationFunctionType::Identity,
        )],
        outputs: Box::new(OutputLayer::new(
            ActivationFunctionType::Identity,
            CostFunctionType::MeanSquaredError,
            &|_, _| F(1.),
            hidden_layer_neuron_count,
            OUTPUT_COUNT,
        )),
        learning_rate,
    };

    let input = F(5.);
    let training_output = F(-5.);

    network.forward_propagate(&[input]);
    network.outputs.compute_costs(&[training_output]);
    let mut start_cost = network.outputs.costs[0];
    network.outputs.compute_gradients();
    // 5 * 1 * 1 = 5.
    assert_eq!(network.outputs.outputs_before_activation[0], F(5.));
    assert_eq!(network.outputs.outputs[0], F(5.));
    // The error is -10; the output gradient 2 * -10 * 1 = -20.
    assert_eq!(network.outputs.errors[0], F(-10.));
    assert_eq!(network.outputs.neuron_gradients[0], F(-20.));

    let output_weights = network.outputs.weights.clone();
    let output_gradients = network.outputs.neuron_gradients.clone();
    network.hidden_layers[0].compute_gradients(&output_weights, &output_gradients);

    network.outputs.update_weights(&[input], learning_rate);

    network.hidden_layers[0].update_weights(&[input], learning_rate);
    assert!(network.hidden_layers[0].weights[0][0] < F(1.));

    network.hidden_layers[0].update_biases(learning_rate);
    assert!(network.hidden_layers[0].biases[0] < F(0.));

    let mut end_cost = F(0.);
    while start_cost > end_cost {
        network.forward_propagate(&[input]);
        network.outputs.compute_costs(&[training_output]);
        end_cost = network.outputs.costs[0];
        assert!(end_cost < start_cost);
        start_cost = end_cost;

        network.train_one_example(&[input], &[training_output], learning_rate);
        network.forward_propagate(&[input]);
        network.outputs.compute_costs(&[training_output]);
        end_cost = network.outputs.costs[0];
        assert!(end_cost <= start_cost);
    }

    network.forward_propagate(&[input]);
    assert!((network.outputs.outputs[0].0 + 5.).abs() < 0.00001);
}

#[test]
fn test_learns_to_always_output_1() {
    const INPUT_COUNT: usize = 1;
    const OUTPUT_COUNT: usize = 1;
    let learning_rate = F(0.01);
    let rng = std::cell::RefCell::new(StdRng::seed_from_u64(SEED));

    let mut network: Network<F> = Network {
        hidden_layers: vec![DenseLayer::new(
            1,
            INPUT_COUNT,
            &|_, _| F(rng.borrow_mut().gen_range(-1.0..1.0)),
            &|_| F(0.),
            ActivationFunctionType::Identity,
        )],
        outputs: Box::new(OutputLayer::new(
            ActivationFunctionType::Identity,
            CostFunctionType::MeanSquaredError,
            &|_, _| F(rng.borrow_mut().gen_range(-1.0..1.)),
            1,
            OUTPUT_COUNT,
        )),
        learning_rate,
    };

    let mut rng = rng.borrow_mut();
    for _ in 0..100_000 {
        let example = F(rng.gen_range(-1.0..1.0));
        network.train_one_example(&[example], &[F(1.)], learning_rate);

        if network.hidden_layers[0].weights[0][0].0.is_nan() {
            panic!();
        }

        let cost = network.outputs.costs[0];
        if cost.0 > 100_000. {
            panic!("Cost fn explosion");
        }
    }

    let cost = network.outputs.costs[0];
    assert!(cost.0 < 0.0001);
}

#[test]
fn test_multiplies_inputs() {
    let rng = std::cell::RefCell::new(StdRng::seed_from_u64(SEED));
    let init_weights = |_output_ix: usize, _input_ix: usize| -> F { F(rng.borrow_mut().gen_range(-0.2..0.2)) };
    let init_biases = |_neuron_ix: usize| -> F { F(0.) };

    const INPUT_COUNT: usize = 2;
    const OUTPUT_COUNT: usize = 1;
    let learning_rate = F(0.5);
    let hidden_layer_neuron_count = 8;

    let mut network: Network<F> = Network {
        hidden_layers: vec![
            DenseLayer::new(
                hidden_layer_neuron_count,
                INPUT_COUNT,
                &init_weights,
                &init_biases,
                ActivationFunctionType::Sigmoid,
            ),
            DenseLayer::new(
                hidden_layer_neuron_count,
                hidden_layer_neuron_count,
                &init_weights,
                &init_biases,
                ActivationFunctionType::Tanh,
            ),
        ],
        outputs: Box::new(OutputLayer::new(
            ActivationFunctionType::Identity,
            CostFunctionType::MeanSquaredError,
            &init_weights,
            hidden_layer_neuron_count,
            OUTPUT_COUNT,
        )),
        learning_rate,
    };

    let mut rng = rng.borrow_mut();
    for _ in 0..100_000 {
        let example_1 = rng.gen_range(0.0..1.);
        let example_2 = rng.gen_range(0.0..1.);
        let expected_output = &[F(example_1 * example_2)];

        network.train_one_example(&[F(example_1), F(example_2)], expected_output, learning_rate);

        if network.outputs.costs[0].0 > 100_000. {
            panic!("Cost fn explosion");
        }
    }

    let out = |network: &mut Network<F>, a: f32, b: f32| network.compute(&[F(a), F(b)])[0].0;
    assert!(out(&mut network, 0.5, 0.0) < 0.01);
    assert!(out(&mut network, 1.0, 1.0) > 0.95);
    assert!((out(&mut network, 0.5, 0.5) - 0.25).abs() < 0.01);
    assert!((out(&mut network, 1.0, 0.2) - 0.2).abs() < 0.01);
    assert!(out(&mut network, 0.0, 0.0).abs() < 0.1);
    assert!((out(&mut network, 0.8, 0.8) - 0.64).abs() < 0.01);
    assert!((out(&mut network, 0.9, 0.9) - 0.81).abs() < 0.01);
}

#[test]
fn test_complex_network_application() {
    const INPUT_COUNT: usize = 2;
    const OUTPUT_COUNT: usize = 1;
    let learning_rate = F(1.);
    let hidden_layer_neuron_count = 1;

    let init_weights = |_: usize, _: usize| F(0.);
    let init_biases = |_: usize| F(0.);

    let mut network: Network<F> = Network {
        hidden_layers: vec![
            DenseLayer::new(
                hidden_layer_neuron_count,
                INPUT_COUNT,
                &init_weights,
                &init_biases,
                ActivationFunctionType::Sigmoid,
            ),
            DenseLayer::new(
                hidden_layer_neuron_count,
                hidden_layer_neuron_count,
                &|_, _| F(1.),
                &init_biases,
                ActivationFunctionType::ReLU,
            ),
        ],
        outputs: Box::new(OutputLayer::new(
            ActivationFunctionType::Tanh,
            CostFunctionType::MeanSquaredError,
            &|_, _| F(-2.),
            hidden_layer_neuron_count,
            OUTPUT_COUNT,
        )),
        learning_rate,
    };

    let inputs = [F(1.), F(0.)];
    let _outputs = network.compute(&inputs);

    assert_eq!(network.hidden_layers[0].outputs_before_activation[0], F(0.));
    assert_eq!(network.hidden_layers[0].outputs[0], F(0.5));

    assert_eq!(network.hidden_layers[1].outputs_before_activation[0], F(0.5));
    assert_eq!(network.hidden_layers[1].outputs[0], F(0.5));

    assert_eq!(network.outputs.outputs_before_activation[0], F(-2. * 0.5));
    assert_eq!(network.outputs.outputs[0], F((-1.0f32).tanh()));
}

#[test]
fn dense_forward_matches_closed_form() {
    let mut rng = StdRng::seed_from_u64(SEED);
    for _ in 0..50 {
        let weights: Vec<Vec<f32>> = (0..3).map(|_| (0..4).map(|_| rng.gen_range(-2.0..2.0)).collect()).collect();
        let biases: Vec<f32> = (0..3).map(|_| rng.gen_range(-1.0..1.0)).collect();
        let inputs: Vec<f32> = (0..4).map(|_| rng.gen_range(-1.0..1.0)).collect();
        let mut layer = DenseLayer::new(
            3,
            4,
            &|n, i| F(weights[n][i]),
            &|n| F(biases[n]),
            ActivationFunctionType::Tanh,
        );
        layer.forward_propagate(&v(&inputs));
        for n in 0..3 {
            let mut sum = 0.0f32;
            for i in 0..4 {
                sum += inputs[i] * weights[n][i];
            }
            let pre = sum + biases[n];
            assert_eq!(layer.outputs_before_activation[n], F(pre));
            assert_eq!(layer.outputs[n], F(pre.tanh()));
        }
    }
}

#[test]
fn compute_costs_scaled_errors() {
    let mut output_layer = OutputLayer::new(
        ActivationFunctionType::Identity,
        CostFunctionType::MeanSquaredErrorMultiplied(F(0.5)),
        &|_, _| F(1.),
        1,
        2,
    );
    output_layer.compute(&[F(3.)]);
    output_layer.compute_costs(&[F(1.), F(4.)]);
    assert_eq!(output_layer.errors, v(&[-2., 1.]));
    assert_eq!(output_layer.costs, v(&[2., 0.5]));
    output_layer.compute_gradients();
    assert_eq!(output_layer.neuron_gradients, v(&[-1., 0.5]));
}

#[test]
fn training_cost_never_increases() {
    let rng = std::cell::RefCell::new(StdRng::seed_from_u64(SEED));
    for _ in 0..20 {
        let mut network: Network<F> = Network {
            hidden_layers: vec![DenseLayer::new(
                3,
                2,
                &|_, _| F(rng.borrow_mut().gen_range(-0.5..0.5)),
                &|_| F(0.),
                ActivationFunctionType::Tanh,
            )],
            outputs: Box::new(OutputLayer::new(
                ActivationFunctionType::Identity,
                CostFunctionType::MeanSquaredError,
                &|_, _| F(rng.borrow_mut().gen_range(-0.5..0.5)),
                3,
                1,
            )),
            learning_rate: F(0.01),
        };
        let mut draw = || F(rng.borrow_mut().gen_range(-1.0..1.0));
        let example = [draw(), draw()];
        let target = [draw()];
        let mut last = network.train_one_example(&example, &target, F(0.01));
        for _ in 0..200 {
            let cost = network.train_one_example(&example, &target, F(0.01));
            assert!(cost <= last);
            last = cost;
        }
    }
}

#[test]
fn train_one_example_returns_mean_cost() {
    let mut network: Network<F> = Network {
        hidden_layers: vec![DenseLayer::new(1, 1, &|_, _| F(1.), &|_| F(0.), ActivationFunctionType::Identity)],
        outputs: Box::new(OutputLayer::new(
            ActivationFunctionType::Identity,
            CostFunctionType::MeanSquaredError,
            &|_, _| F(1.),
            1,
            2,
        )),
        learning_rate: F(0.1),
    };
    // Outputs are 2 and 2; errors 1 and -4; costs 1 and 16.
    let cost = network.train_one_example(&[F(2.)], &[F(3.), F(-2.)], F(0.1));
    assert_eq!(cost, F(8.5));
    assert_eq!(network.outputs.costs, v(&[1., 16.]));
}

#[test]
fn compute_leaves_parameters_alone() {
    let mut network = sigmoid_network();
    let weights = network.hidden_layers[0].weights.clone();
    let biases = network.hidden_layers[0].biases.clone();
    let output_weights = network.outputs.weights.clone();
    let first = network.compute(&v(&[0.3, -0.7])).to_vec();
    let second = network.compute(&v(&[0.3, -0.7])).to_vec();
    assert_eq!(first, second);
    assert_eq!(network.hidden_layers[0].weights, weights);
    assert_eq!(network.hidden_layers[0].biases, biases);
    assert_eq!(network.outputs.weights, output_weights);
}

#[test]
fn activation_values() {
    assert_eq!(Identity.get_output(F(-3.)), F(-3.));
    assert_eq!(Identity.derivative(F(-3.)), F(1.));
    assert_eq!(ReLU.get_output(F(-3.)), F(0.));
    assert_eq!(ReLU.get_output(F(2.)), F(2.));
    assert_eq!(ReLU.derivative(F(2.)), F(1.));
    assert_eq!(ReLU.derivative(F(0.)), F(0.));
    assert_eq!(LeakyReLU.get_output(F(-2.)), F(0.01 * -2.));
    assert_eq!(LeakyReLU.derivative(F(-2.)), F(0.01));
    assert_eq!(LeakyReLU.get_output(F(2.)), F(2.));
    assert_eq!(LeakyReLU.derivative(F(0.)), F(1.));
    assert_eq!(Sigmoid.get_output(F(0.)), F(0.5));
    assert_eq!(Sigmoid.derivative(F(0.)), F(0.25));
    assert_eq!(Tanh.get_output(F(0.5)), F(0.5f32.tanh()));
    assert_eq!(Tanh.derivative(F(0.)), F(1.));
    assert_eq!(Gaussian.get_output(F(0.)), F(1.));
    assert_eq!(Gaussian.derivative(F(0.)), F(0.));
    assert_eq!(Swish.get_output(F(0.)), F(0.));
    assert_eq!(Swish.derivative(F(0.)), F(0.5));
    assert_eq!(GrowingCosineUnit.get_output(F(0.)), F(0.));
    assert_eq!(GrowingCosineUnit.get_output(F(4.)), F(4. * 4.0f32.cos()));
    assert_eq!(Ameo.get_output(F(-0.5)), F((-0.5f32).tanh()));
    assert_eq!(Ameo.get_output(F(4.)), F(4. * 4.0f32.cos()));
    assert_eq!(ActivationFunctionType::Ameo.get_output(F(-0.5)), Tanh.get_output(F(-0.5)));
}

#[test]
fn cost_values() {
    assert_eq!(MeanSquaredError.get_cost(F(-3.)), F(9.));
    assert_eq!(MeanSquaredError.derivative(F(-3.)), F(-6.));
    assert_eq!(MeanSquaredErrorMultiplied(F(2.)).get_cost(F(-3.)), F(18.));
    assert_eq!(MeanSquaredErrorMultiplied(F(2.)).derivative(F(-3.)), F(-6.));
}

#[test]
fn viz_buffers_are_sized_per_neuron() {
    assert_eq!(build_layer_outputs_buf(0).len(), 0);
    let buf = build_layer_outputs_buf(3);
    assert_eq!(buf.len(), 3 * 24 * 24 * 4);
    assert!(buf.iter().all(|&b| b == 0));
    let network = sigmoid_network();
    let state = LayerVizState::new(&network, 2);
    assert_eq!(state.input_layer_buffer.len(), 2 * 2304);
    assert_eq!(state.hidden_layer_buffers.len(), 1);
    assert_eq!(state.hidden_layer_buffers[0].len(), 2 * 2304);
    assert_eq!(state.output_layer_buffer.len(), 2 * 2304);
}

#[test]
fn batch_activation_matches_scalar_path() {
    let src = v(&[-2., -0.5, 0., 0.5, 2.]);
    let mut dst = v(&[0.; 5]);
    ActivationFunctionType::LeakyReLU.apply_batch(&mut dst, &src);
    assert_eq!(dst, src.iter().map(|&x| LeakyReLU.get_output(x)).collect::<Vec<_>>());
    let errors = v(&[1., 2., 3., 4., 5.]);
    ActivationFunctionType::ReLU.apply_derivative_batch(&mut dst, &errors, &src);
    assert_eq!(dst, v(&[0., 0., 0., 4., 5.]));
}
