use vstd::prelude::*;

use crate::activation::ActivationFunctionType;
use crate::cost::CostFunctionType;
use crate::dense::{dot, rows_view, step_weights, stepped_weights, weighted_sum, zeros, zeros_spec};
use crate::scalar::Scalar;

verus! {

/// The terminal layer of a network: fully connected, without biases, and
/// scored against expected values by a cost function.
pub struct OutputLayer<W: Scalar> {
    /// One row per neuron, one entry per input.
    pub weights: Vec<Vec<W>>,
    pub activation_fn: ActivationFunctionType,
    pub outputs_before_activation: Vec<W>,
    pub outputs: Vec<W>,
    pub errors: Vec<W>,
    pub costs: Vec<W>,
    pub cost_fn: CostFunctionType<W>,
    pub neuron_gradients: Vec<W>,
}

impl<W: Scalar> OutputLayer<W> {
    pub open spec fn neuron_count(&self) -> nat {
        self.weights@.len()
    }

    pub open spec fn input_count(&self) -> nat {
        if self.weights@.len() > 0 {
            self.weights@[0]@.len()
        } else {
            0
        }
    }

    /// Every row of weights has one entry per input, and every per-neuron
    /// vector has one entry per neuron.
    pub open spec fn wf(&self) -> bool {
        &&& self.outputs_before_activation@.len() == self.neuron_count()
        &&& self.outputs@.len() == self.neuron_count()
        &&& self.errors@.len() == self.neuron_count()
        &&& self.costs@.len() == self.neuron_count()
        &&& self.neuron_gradients@.len() == self.neuron_count()
        &&& forall|n: int| 0 <= n < self.neuron_count() ==> #[trigger] self.weights@[n]@.len() == self.input_count()
    }

    /// Each neuron's weighted sum of `inputs` (there is no bias).
    pub open spec fn pre_activations(&self, inputs: Seq<W>) -> Seq<W> {
        Seq::new(self.neuron_count(), |n: int| weighted_sum(self.weights@[n]@, inputs, inputs.len()))
    }

    /// The activation function applied to each element of `pre`.
    pub open spec fn activated(&self, pre: Seq<W>) -> Seq<W> {
        Seq::new(pre.len(), |n: int| self.activation_fn.output_spec(pre[n]))
    }

    /// The signed errors `expected[n] - outputs[n]`.
    pub open spec fn errors_for(&self, expected: Seq<W>) -> Seq<W> {
        Seq::new(self.neuron_count(), |n: int| W::spec_minus(expected[n], self.outputs@[n]))
    }

    /// The cost of each element of `errors`.
    pub open spec fn costs_for(&self, errors: Seq<W>) -> Seq<W> {
        Seq::new(errors.len(), |n: int| self.cost_fn.cost_spec(errors[n]))
    }

    /// `cost'(errors[n]) * activation'(outputs_before_activation[n])` for each neuron.
    pub open spec fn gradients_spec(&self) -> Seq<W> {
        Seq::new(
            self.neuron_count(),
            |n: int|
                W::spec_times(
                    self.cost_fn.derivative_spec(self.errors@[n]),
                    self.activation_fn.derivative_spec(self.outputs_before_activation@[n]),
                ),
        )
    }

    /// The weights, activation function and cost function of `self` and `other` agree.
    pub open spec fn same_parameters(&self, other: &Self) -> bool {
        &&& self.weights == other.weights
        &&& self.activation_fn == other.activation_fn
        &&& self.cost_fn == other.cost_fn
    }

    /// Builds a layer whose weight for (neuron, input) comes from the
    /// initializer; all scratch vectors start at zero.
    pub fn new<FW: Fn(usize, usize) -> W>(
        activation_fn: ActivationFunctionType,
        cost_fn: CostFunctionType<W>,
        init_weights: &FW,
        input_count: usize,
        neuron_count: usize,
    ) -> (r: Self)
        requires
            forall|n: usize, i: usize| n < neuron_count && i < input_count ==> init_weights.requires((n, i)),
        ensures
            r.wf(),
            r.neuron_count() == neuron_count,
            neuron_count > 0 ==> r.input_count() == input_count,
            forall|n: int, i: int|
                0 <= n < neuron_count && 0 <= i < input_count ==> init_weights.ensures(
                    (n as usize, i as usize),
                    #[trigger] r.weights@[n]@[i],
                ),
            r.activation_fn == activation_fn,
            r.cost_fn == cost_fn,
            r.outputs_before_activation@ == zeros_spec::<W>(neuron_count as nat),
            r.outputs@ == zeros_spec::<W>(neuron_count as nat),
            r.errors@ == zeros_spec::<W>(neuron_count as nat),
            r.costs@ == zeros_spec::<W>(neuron_count as nat),
            r.neuron_gradients@ == zeros_spec::<W>(neuron_count as nat),
    {
        let mut weights: Vec<Vec<W>> = Vec::new();
        for n in 0..neuron_count
            invariant
                forall|a: usize, b: usize| a < neuron_count && b < input_count ==> init_weights.requires((a, b)),
                weights@.len() == n,
                forall|a: int| 0 <= a < n ==> #[trigger] weights@[a]@.len() == input_count,
                forall|a: int, b: int|
                    0 <= a < n && 0 <= b < input_count ==> init_weights.ensures(
                        (a as usize, b as usize),
                        #[trigger] weights@[a]@[b],
                    ),
        {
            let mut row: Vec<W> = Vec::new();
            for i in 0..input_count
                invariant
                    n < neuron_count,
                    forall|a: usize, b: usize| a < neuron_count && b < input_count ==> init_weights.requires((a, b)),
                    row@.len() == i,
                    forall|b: int| 0 <= b < i ==> init_weights.ensures((n, b as usize), #[trigger] row@[b]),
            {
                let w = init_weights(n, i);
                row.push(w);
            }
            weights.push(row);
        }
        OutputLayer {
            weights,
            activation_fn,
            outputs_before_activation: zeros(neuron_count),
            outputs: zeros(neuron_count),
            errors: zeros(neuron_count),
            costs: zeros(neuron_count),
            cost_fn,
            neuron_gradients: zeros(neuron_count),
        }
    }

    /// Fills `outputs_before_activation` with each neuron's weighted sum of
    /// `inputs`, and `outputs` with its activation.
    pub fn compute(&mut self, inputs: &[W])
        requires
            old(self).wf(),
            inputs@.len() == old(self).input_count(),
        ensures
            final(self).wf(),
            final(self).same_parameters(old(self)),
            final(self).errors == old(self).errors,
            final(self).costs == old(self).costs,
            final(self).neuron_gradients == old(self).neuron_gradients,
            final(self).outputs_before_activation@ == old(self).pre_activations(inputs@),
            final(self).outputs@ == old(self).activated(final(self).outputs_before_activation@),
    {
        let count = self.weights.len();
        for neuron_ix in 0..count
            invariant
                count == self.neuron_count(),
                inputs@.len() == old(self).input_count(),
                self.wf(),
                self.same_parameters(old(self)),
                self.errors == old(self).errors,
                self.costs == old(self).costs,
                self.neuron_gradients == old(self).neuron_gradients,
                forall|k: int|
                    0 <= k < neuron_ix ==> self.outputs_before_activation@[k] == old(self).pre_activations(
                        inputs@,
                    )[k],
        {
            let sum = dot(&self.weights[neuron_ix], inputs);
            self.outputs_before_activation[neuron_ix] = sum;
        }
        assert(self.outputs_before_activation@ =~= old(self).pre_activations(inputs@));
        self.activation_fn.apply_batch(&mut self.outputs, self.outputs_before_activation.as_slice());
        assert(self.outputs@ =~= old(self).activated(self.outputs_before_activation@));
    }

    /// The same computation as `compute`.
    pub fn forward_propagate(&mut self, inputs: &[W])
        requires
            old(self).wf(),
            inputs@.len() == old(self).input_count(),
        ensures
            final(self).wf(),
            final(self).same_parameters(old(self)),
            final(self).errors == old(self).errors,
            final(self).costs == old(self).costs,
            final(self).neuron_gradients == old(self).neuron_gradients,
            final(self).outputs_before_activation@ == old(self).pre_activations(inputs@),
            final(self).outputs@ == old(self).activated(final(self).outputs_before_activation@),
    {
        self.compute(inputs);
    }

    /// Once `outputs` is computed, fills `errors` with `expected - outputs` and
    /// `costs` with the cost of each error.
    pub fn compute_costs(&mut self, expected: &[W])
        requires
            old(self).wf(),
            expected@.len() == old(self).neuron_count(),
        ensures
            final(self).wf(),
            final(self).same_parameters(old(self)),
            final(self).outputs_before_activation == old(self).outputs_before_activation,
            final(self).outputs == old(self).outputs,
            final(self).neuron_gradients == old(self).neuron_gradients,
            final(self).errors@ == old(self).errors_for(expected@),
            final(self).costs@ == old(self).costs_for(final(self).errors@),
    {
        let count = self.outputs.len();
        for i in 0..count
            invariant
                count == self.neuron_count(),
                expected@.len() == count,
                self.wf(),
                self.same_parameters(old(self)),
                self.outputs_before_activation == old(self).outputs_before_activation,
                self.outputs == old(self).outputs,
                self.neuron_gradients == old(self).neuron_gradients,
                forall|k: int| 0 <= k < i ==> self.errors@[k] == old(self).errors_for(expected@)[k],
                forall|k: int| 0 <= k < i ==> self.costs@[k] == self.cost_fn.cost_spec(self.errors@[k]),
        {
            let error = expected[i].minus(self.outputs[i]);
            self.errors[i] = error;
            let cost = self.cost_fn.get_cost(error);
            self.costs[i] = cost;
        }
        assert(self.errors@ =~= old(self).errors_for(expected@));
        assert(self.costs@ =~= old(self).costs_for(self.errors@));
    }

    /// `cost'(neuron_error) * activation'(neuron_output_before_activation)`.
    pub fn compute_neuron_gradient(&self, neuron_output_before_activation: W, neuron_error: W) -> (r: W)
        ensures
            r == W::spec_times(
                self.cost_fn.derivative_spec(neuron_error),
                self.activation_fn.derivative_spec(neuron_output_before_activation),
            ),
    {
        self.cost_fn.derivative(neuron_error).times(self.activation_fn.derivative(neuron_output_before_activation))
    }

    /// Once `compute_costs` has run, fills `neuron_gradients`.
    pub fn compute_gradients(&mut self)
        requires
            old(self).wf(),
        ensures
            final(self).wf(),
            final(self).same_parameters(old(self)),
            final(self).outputs_before_activation == old(self).outputs_before_activation,
            final(self).outputs == old(self).outputs,
            final(self).errors == old(self).errors,
            final(self).costs == old(self).costs,
            final(self).neuron_gradients@ == old(self).gradients_spec(),
    {
        let count = self.errors.len();
        for neuron_ix in 0..count
            invariant
                count == self.neuron_count(),
                self.wf(),
                self.same_parameters(old(self)),
                self.outputs_before_activation == old(self).outputs_before_activation,
                self.outputs == old(self).outputs,
                self.errors == old(self).errors,
                self.costs == old(self).costs,
                forall|k: int| 0 <= k < neuron_ix ==> self.neuron_gradients@[k] == old(self).gradients_spec()[k],
        {
            let gradient = self.compute_neuron_gradient(
                self.outputs_before_activation[neuron_ix],
                self.errors[neuron_ix],
            );
            self.neuron_gradients[neuron_ix] = gradient;
        }
        assert(self.neuron_gradients@ =~= old(self).gradients_spec());
    }

    /// Moves every weight by `learning_rate * gradient * input`, as a dense layer does.
    pub fn update_weights(&mut self, inputs: &[W], learning_rate: W)
        requires
            old(self).wf(),
            inputs@.len() == old(self).input_count(),
        ensures
            final(self).wf(),
            final(self).input_count() == old(self).input_count(),
            rows_view(final(self).weights@) == stepped_weights(
                rows_view(old(self).weights@),
                old(self).neuron_gradients@,
                inputs@,
                learning_rate,
            ),
            final(self).activation_fn == old(self).activation_fn,
            final(self).cost_fn == old(self).cost_fn,
            final(self).outputs_before_activation == old(self).outputs_before_activation,
            final(self).outputs == old(self).outputs,
            final(self).errors == old(self).errors,
            final(self).costs == old(self).costs,
            final(self).neuron_gradients == old(self).neuron_gradients,
    {
        step_weights(&mut self.weights, self.neuron_gradients.as_slice(), inputs, learning_rate);
    }
}

} // verus!
