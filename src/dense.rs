use vstd::prelude::*;

use crate::activation::ActivationFunctionType;
use crate::scalar::{zero, Scalar};

verus! {

/// `inputs[0] * weights[0] + ... + inputs[k - 1] * weights[k - 1]`, accumulated
/// from zero, left to right.
pub open spec fn weighted_sum<W: Scalar>(weights: Seq<W>, inputs: Seq<W>, k: nat) -> W
    decreases k,
{
    if k == 0 {
        zero()
    } else {
        W::spec_plus(
            weighted_sum(weights, inputs, (k - 1) as nat),
            W::spec_times(inputs[k - 1], weights[k - 1]),
        )
    }
}

/// The error that flows back into neuron `n` from the first `k` downstream
/// neurons: `output_weights[0][n] * gradients[0] + ...`, accumulated from zero.
pub open spec fn backprop_sum<W: Scalar>(
    output_weights: Seq<Seq<W>>,
    gradients: Seq<W>,
    n: int,
    k: nat,
) -> W
    decreases k,
{
    if k == 0 {
        zero()
    } else {
        W::spec_plus(
            backprop_sum(output_weights, gradients, n, (k - 1) as nat),
            W::spec_times(output_weights[k - 1][n], gradients[k - 1]),
        )
    }
}

/// The gradient step on one row of weights: `w[i] + learning_rate * gradient * inputs[i]`.
pub open spec fn stepped_row<W: Scalar>(row: Seq<W>, gradient: W, inputs: Seq<W>, learning_rate: W) -> Seq<W> {
    Seq::new(
        row.len(),
        |i: int| W::spec_plus(row[i], W::spec_times(W::spec_times(learning_rate, gradient), inputs[i])),
    )
}

/// The gradient step on a whole weight matrix, one gradient per row.
pub open spec fn stepped_weights<W: Scalar>(
    weights: Seq<Seq<W>>,
    gradients: Seq<W>,
    inputs: Seq<W>,
    learning_rate: W,
) -> Seq<Seq<W>> {
    Seq::new(
        weights.len(),
        |n: int| stepped_row(weights[n], gradients[n], inputs, learning_rate),
    )
}

/// The gradient step on biases: `b[n] + gradients[n] * learning_rate`.
pub open spec fn stepped_biases<W: Scalar>(biases: Seq<W>, gradients: Seq<W>, learning_rate: W) -> Seq<W> {
    Seq::new(biases.len(), |n: int| W::spec_plus(biases[n], W::spec_times(gradients[n], learning_rate)))
}

/// The views of the rows of a matrix.
pub open spec fn rows_view<W>(m: Seq<Vec<W>>) -> Seq<Seq<W>> {
    Seq::new(m.len(), |n: int| m[n]@)
}

/// A fresh vector with the same elements as `v`.
pub fn copied<W: Scalar>(v: &[W]) -> (r: Vec<W>)
    ensures
        r@ == v@,
{
    let mut r: Vec<W> = Vec::new();
    for i in 0..v.len()
        invariant
            r@ == v@.subrange(0, i as int),
    {
        r.push(v[i]);
        assert(r@ =~= v@.subrange(0, i + 1));
    }
    assert(r@ =~= v@);
    r
}

/// A fresh matrix with the same rows as `m`.
pub fn copied_rows<W: Scalar>(m: &Vec<Vec<W>>) -> (r: Vec<Vec<W>>)
    ensures
        rows_view(r@) == rows_view(m@),
{
    let mut r: Vec<Vec<W>> = Vec::new();
    for i in 0..m.len()
        invariant
            r@.len() == i,
            i <= m@.len(),
            forall|k: int| 0 <= k < i ==> #[trigger] r@[k]@ == m@[k]@,
    {
        r.push(copied(m[i].as_slice()));
    }
    assert(rows_view(r@) =~= rows_view(m@));
    r
}

/// A sequence of `n` zeros.
pub open spec fn zeros_spec<W: Scalar>(n: nat) -> Seq<W> {
    Seq::new(n, |i: int| zero::<W>())
}

/// The weighted sum of `inputs` with `row`, as `weighted_sum` states it.
pub fn dot<W: Scalar>(row: &Vec<W>, inputs: &[W]) -> (r: W)
    requires
        row@.len() == inputs@.len(),
    ensures
        r == weighted_sum(row@, inputs@, inputs@.len()),
{
    let mut sum = W::from_count(0);
    for i in 0..inputs.len()
        invariant
            row@.len() == inputs@.len(),
            sum == weighted_sum(row@, inputs@, i as nat),
    {
        sum = sum.plus(inputs[i].times(row[i]));
    }
    sum
}

/// Applies the gradient step to every row of `weights`, row `n` with
/// `gradients[n]`.
pub fn step_weights<W: Scalar>(weights: &mut Vec<Vec<W>>, gradients: &[W], inputs: &[W], learning_rate: W)
    requires
        gradients@.len() == old(weights)@.len(),
        forall|n: int| 0 <= n < old(weights)@.len() ==> #[trigger] old(weights)@[n]@.len() == inputs@.len(),
    ensures
        final(weights)@.len() == old(weights)@.len(),
        forall|n: int| 0 <= n < final(weights)@.len() ==> #[trigger] final(weights)@[n]@.len() == inputs@.len(),
        rows_view(final(weights)@) == stepped_weights(rows_view(old(weights)@), gradients@, inputs@, learning_rate),
{
    let count = weights.len();
    let ghost target = stepped_weights(rows_view(old(weights)@), gradients@, inputs@, learning_rate);
    for neuron_ix in 0..count
        invariant
            count == weights@.len(),
            count == old(weights)@.len(),
            gradients@.len() == count,
            target == stepped_weights(rows_view(old(weights)@), gradients@, inputs@, learning_rate),
            forall|n: int| 0 <= n < old(weights)@.len() ==> #[trigger] old(weights)@[n]@.len() == inputs@.len(),
            forall|n: int| 0 <= n < count ==> #[trigger] weights@[n]@.len() == inputs@.len(),
            forall|k: int| 0 <= k < neuron_ix ==> #[trigger] weights@[k]@ == target[k],
            forall|k: int| neuron_ix <= k < count ==> #[trigger] weights@[k] == old(weights)@[k],
    {
        let neuron_gradient = gradients[neuron_ix];
        let row_len = inputs.len();
        let ghost before = weights@;
        for weight_ix in 0..row_len
            invariant
                neuron_ix < count,
                count == weights@.len(),
                row_len == inputs@.len(),
                row_len == old(weights)@[neuron_ix as int]@.len(),
                neuron_gradient == gradients@[neuron_ix as int],
                weights@[neuron_ix as int]@.len() == row_len,
                forall|n: int| 0 <= n < count ==> #[trigger] weights@[n]@.len() == inputs@.len(),
                forall|k: int| 0 <= k < count && k != neuron_ix ==> #[trigger] weights@[k] == before[k],
                forall|i: int|
                    0 <= i < weight_ix ==> #[trigger] weights@[neuron_ix as int]@[i] == W::spec_plus(
                        old(weights)@[neuron_ix as int]@[i],
                        W::spec_times(W::spec_times(learning_rate, neuron_gradient), inputs@[i]),
                    ),
                forall|i: int|
                    weight_ix <= i < row_len ==> #[trigger] weights@[neuron_ix as int]@[i]
                        == old(weights)@[neuron_ix as int]@[i],
        {
            let w = weights[neuron_ix][weight_ix];
            let v = w.plus(learning_rate.times(neuron_gradient).times(inputs[weight_ix]));
            weights[neuron_ix][weight_ix] = v;
        }
        assert(weights@[neuron_ix as int]@ =~= target[neuron_ix as int]);
    }
    assert(rows_view(weights@) =~= target);
}

pub fn zeros<W: Scalar>(n: usize) -> (r: Vec<W>)
    ensures
        r@ == zeros_spec::<W>(n as nat),
{
    let mut r: Vec<W> = Vec::new();
    for i in 0..n
        invariant
            r@ == zeros_spec::<W>(i as nat),
    {
        r.push(W::from_count(0));
        assert(r@ =~= zeros_spec::<W>((i + 1) as nat));
    }
    r
}

/// A fully connected layer with biases.
pub struct DenseLayer<W: Scalar> {
    /// One row per neuron, one entry per input.
    pub weights: Vec<Vec<W>>,
    pub biases: Vec<W>,
    pub neuron_gradients: Vec<W>,
    pub activation_fn: ActivationFunctionType,
    pub outputs_before_activation: Vec<W>,
    pub outputs: Vec<W>,
}

impl<W: Scalar> DenseLayer<W> {
    pub open spec fn neuron_count(&self) -> nat {
        self.weights@.len()
    }

    pub open spec fn input_count(&self) -> nat {
        if self.weights@.len() > 0 {
            self.weights@[0]@.len()
        } else {
            0
        }
    }

    /// Every row of weights has one entry per input, and every per-neuron
    /// vector has one entry per neuron.
    pub open spec fn wf(&self) -> bool {
        &&& self.biases@.len() == self.neuron_count()
        &&& self.neuron_gradients@.len() == self.neuron_count()
        &&& self.outputs_before_activation@.len() == self.neuron_count()
        &&& self.outputs@.len() == self.neuron_count()
        &&& forall|n: int| 0 <= n < self.neuron_count() ==> #[trigger] self.weights@[n]@.len() == self.input_count()
    }

    /// What each neuron computes before its activation: the weighted sum of
    /// `inputs` plus its bias.
    pub open spec fn pre_activations(&self, inputs: Seq<W>) -> Seq<W> {
        Seq::new(
            self.neuron_count(),
            |n: int| W::spec_plus(weighted_sum(self.weights@[n]@, inputs, inputs.len()), self.biases@[n]),
        )
    }

    /// The activation function applied to each element of `pre`.
    pub open spec fn activated(&self, pre: Seq<W>) -> Seq<W> {
        Seq::new(pre.len(), |n: int| self.activation_fn.output_spec(pre[n]))
    }

    /// The gradients that `compute_gradients` produces from the downstream
    /// weights and gradients.
    pub open spec fn gradients_from(&self, output_weights: Seq<Seq<W>>, output_gradients: Seq<W>) -> Seq<W> {
        Seq::new(
            self.neuron_count(),
            |n: int|
                W::spec_times(
                    backprop_sum(output_weights, output_gradients, n, output_gradients.len()),
                    self.activation_fn.derivative_spec(self.outputs_before_activation@[n]),
                ),
        )
    }

    /// The weights, biases and activation function of `self` and `other` agree.
    pub open spec fn same_parameters(&self, other: &Self) -> bool {
        &&& self.weights == other.weights
        &&& self.biases == other.biases
        &&& self.activation_fn == other.activation_fn
    }

    /// Builds a layer whose weight for (neuron, input) and bias for a neuron
    /// come from the two initializers; all scratch vectors start at zero.
    pub fn new<FW: Fn(usize, usize) -> W, FB: Fn(usize) -> W>(
        neuron_count: usize,
        input_count: usize,
        init_weights: &FW,
        init_biases: &FB,
        activation_fn: ActivationFunctionType,
    ) -> (r: Self)
        requires
            forall|n: usize, i: usize| n < neuron_count && i < input_count ==> init_weights.requires((n, i)),
            forall|n: usize| n < neuron_count ==> init_biases.requires((n,)),
        ensures
            r.wf(),
            r.neuron_count() == neuron_count,
            neuron_count > 0 ==> r.input_count() == input_count,
            forall|n: int, i: int|
                0 <= n < neuron_count && 0 <= i < input_count ==> init_weights.ensures(
                    (n as usize, i as usize),
                    #[trigger] r.weights@[n]@[i],
                ),
            forall|n: int| 0 <= n < neuron_count ==> init_biases.ensures((n as usize,), #[trigger] r.biases@[n]),
            r.activation_fn == activation_fn,
            r.neuron_gradients@ == zeros_spec::<W>(neuron_count as nat),
            r.outputs_before_activation@ == zeros_spec::<W>(neuron_count as nat),
            r.outputs@ == zeros_spec::<W>(neuron_count as nat),
    {
        let mut weights: Vec<Vec<W>> = Vec::new();
        let mut biases: Vec<W> = Vec::new();
        for n in 0..neuron_count
            invariant
                forall|a: usize, b: usize| a < neuron_count && b < input_count ==> init_weights.requires((a, b)),
                forall|a: usize| a < neuron_count ==> init_biases.requires((a,)),
                weights@.len() == n,
                biases@.len() == n,
                forall|a: int| 0 <= a < n ==> #[trigger] weights@[a]@.len() == input_count,
                forall|a: int, b: int|
                    0 <= a < n && 0 <= b < input_count ==> init_weights.ensures(
                        (a as usize, b as usize),
                        #[trigger] weights@[a]@[b],
                    ),
                forall|a: int| 0 <= a < n ==> init_biases.ensures((a as usize,), #[trigger] biases@[a]),
        {
            let mut row: Vec<W> = Vec::new();
            for i in 0..input_count
                invariant
                    n < neuron_count,
                    forall|a: usize, b: usize| a < neuron_count && b < input_count ==> init_weights.requires((a, b)),
                    row@.len() == i,
                    forall|b: int| 0 <= b < i ==> init_weights.ensures((n, b as usize), #[trigger] row@[b]),
            {
                let w = init_weights(n, i);
                row.push(w);
            }
            weights.push(row);
            let b = init_biases(n);
            biases.push(b);
        }
        DenseLayer {
            weights,
            biases,
            neuron_gradients: zeros(neuron_count),
            activation_fn,
            outputs_before_activation: zeros(neuron_count),
            outputs: zeros(neuron_count),
        }
    }

    /// `connected_output_neuron_gradient_sum * derivative(neuron_output_before_activation)`.
    pub fn compute_neuron_gradient(
        &self,
        neuron_output_before_activation: W,
        connected_output_neuron_gradient_sum: W,
    ) -> (r: W)
        ensures
            r == W::spec_times(
                connected_output_neuron_gradient_sum,
                self.activation_fn.derivative_spec(neuron_output_before_activation),
            ),
    {
        connected_output_neuron_gradient_sum.times(self.activation_fn.derivative(neuron_output_before_activation))
    }

    /// Fills `neuron_gradients` from the weights and gradients of the layer
    /// that consumes this layer's outputs.
    pub fn compute_gradients(&mut self, output_weights: &[Vec<W>], gradient_of_output_neurons: &[W])
        requires
            old(self).wf(),
            output_weights@.len() == gradient_of_output_neurons@.len(),
            forall|j: int|
                0 <= j < output_weights@.len() ==> #[trigger] output_weights@[j]@.len() >= old(self).neuron_count(),
        ensures
            final(self).wf(),
            final(self).same_parameters(old(self)),
            final(self).outputs_before_activation == old(self).outputs_before_activation,
            final(self).outputs == old(self).outputs,
            final(self).neuron_gradients@ == old(self).gradients_from(
                rows_view(output_weights@),
                gradient_of_output_neurons@,
            ),
    {
        let count = self.weights.len();
        let m = gradient_of_output_neurons.len();
        for neuron_ix in 0..count
            invariant
                count == self.neuron_count(),
                m == gradient_of_output_neurons@.len(),
                self.wf(),
                self.same_parameters(old(self)),
                self.outputs_before_activation == old(self).outputs_before_activation,
                self.outputs == old(self).outputs,
                output_weights@.len() == m,
                forall|j: int|
                    0 <= j < output_weights@.len() ==> #[trigger] output_weights@[j]@.len() >= count,
                forall|k: int|
                    0 <= k < neuron_ix ==> self.neuron_gradients@[k] == old(self).gradients_from(
                        rows_view(output_weights@),
                        gradient_of_output_neurons@,
                    )[k],
        {
            let output_before_activation = self.outputs_before_activation[neuron_ix];
            let mut error = W::from_count(0);
            for output_ix in 0..m
                invariant
                    neuron_ix < count,
                    m == gradient_of_output_neurons@.len(),
                    output_weights@.len() == m,
                    forall|j: int|
                        0 <= j < output_weights@.len() ==> #[trigger] output_weights@[j]@.len() >= count,
                    error == backprop_sum(
                        rows_view(output_weights@),
                        gradient_of_output_neurons@,
                        neuron_ix as int,
                        output_ix as nat,
                    ),
            {
                let output_weight = output_weights[output_ix][neuron_ix];
                error = error.plus(output_weight.times(gradient_of_output_neurons[output_ix]));
            }
            let gradient = self.compute_neuron_gradient(output_before_activation, error);
            self.neuron_gradients[neuron_ix] = gradient;
        }
        assert(self.neuron_gradients@ =~= old(self).gradients_from(rows_view(output_weights@), gradient_of_output_neurons@));
    }

    /// Moves every weight by `learning_rate * gradient * input`, for the inputs
    /// of the forward pass being corrected.
    pub fn update_weights(&mut self, inputs: &[W], learning_rate: W)
        requires
            old(self).wf(),
            inputs@.len() == old(self).input_count(),
        ensures
            final(self).wf(),
            final(self).input_count() == old(self).input_count(),
            rows_view(final(self).weights@) == stepped_weights(
                rows_view(old(self).weights@),
                old(self).neuron_gradients@,
                inputs@,
                learning_rate,
            ),
            final(self).biases == old(self).biases,
            final(self).activation_fn == old(self).activation_fn,
            final(self).neuron_gradients == old(self).neuron_gradients,
            final(self).outputs_before_activation == old(self).outputs_before_activation,
            final(self).outputs == old(self).outputs,
    {
        step_weights(&mut self.weights, self.neuron_gradients.as_slice(), inputs, learning_rate);
    }

    /// Moves every bias by `gradient * learning_rate`.
    pub fn update_biases(&mut self, learning_rate: W)
        requires
            old(self).wf(),
        ensures
            final(self).wf(),
            final(self).biases@ == stepped_biases(old(self).biases@, old(self).neuron_gradients@, learning_rate),
            final(self).weights == old(self).weights,
            final(self).activation_fn == old(self).activation_fn,
            final(self).neuron_gradients == old(self).neuron_gradients,
            final(self).outputs_before_activation == old(self).outputs_before_activation,
            final(self).outputs == old(self).outputs,
    {
        let count = self.biases.len();
        for neuron_ix in 0..count
            invariant
                count == old(self).neuron_count(),
                self.wf(),
                self.weights == old(self).weights,
                self.activation_fn == old(self).activation_fn,
                self.neuron_gradients == old(self).neuron_gradients,
                self.outputs_before_activation == old(self).outputs_before_activation,
                self.outputs == old(self).outputs,
                forall|k: int|
                    0 <= k < neuron_ix ==> #[trigger] self.biases@[k] == W::spec_plus(
                        old(self).biases@[k],
                        W::spec_times(old(self).neuron_gradients@[k], learning_rate),
                    ),
                forall|k: int| neuron_ix <= k < count ==> #[trigger] self.biases@[k] == old(self).biases@[k],
        {
            let v = self.biases[neuron_ix].plus(self.neuron_gradients[neuron_ix].times(learning_rate));
            self.biases[neuron_ix] = v;
        }
        assert(self.biases@ =~= stepped_biases(old(self).biases@, old(self).neuron_gradients@, learning_rate));
    }

    /// Computes every neuron's weighted sum plus bias into
    /// `outputs_before_activation`, and its activation into `outputs`.
    pub fn forward_propagate(&mut self, inputs: &[W])
        requires
            old(self).wf(),
            inputs@.len() == old(self).input_count(),
        ensures
            final(self).wf(),
            final(self).same_parameters(old(self)),
            final(self).neuron_gradients == old(self).neuron_gradients,
            final(self).outputs_before_activation@ == old(self).pre_activations(inputs@),
            final(self).outputs@ == old(self).activated(final(self).outputs_before_activation@),
    {
        let count = self.weights.len();
        let n_in = inputs.len();
        for neuron_ix in 0..count
            invariant
                count == self.neuron_count(),
                n_in == inputs@.len(),
                n_in == old(self).input_count(),
                self.wf(),
                self.same_parameters(old(self)),
                self.neuron_gradients == old(self).neuron_gradients,
                forall|k: int|
                    0 <= k < neuron_ix ==> self.outputs_before_activation@[k] == old(self).pre_activations(
                        inputs@,
                    )[k],
        {
            let weight_sum = dot(&self.weights[neuron_ix], inputs);
            let v = weight_sum.plus(self.biases[neuron_ix]);
            self.outputs_before_activation[neuron_ix] = v;
        }
        assert(self.outputs_before_activation@ =~= old(self).pre_activations(inputs@));
        self.activation_fn.apply_batch(&mut self.outputs, self.outputs_before_activation.as_slice());
        assert(self.outputs@ =~= old(self).activated(self.outputs_before_activation@));
    }
}

} // verus!
