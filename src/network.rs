use vstd::prelude::*;

use crate::dense::{copied, copied_rows, rows_view, stepped_biases, stepped_weights, DenseLayer};
use crate::output::OutputLayer;
use crate::scalar::{zero, Scalar};

verus! {

/// `s[0] + s[1] + ... + s[k - 1]`, accumulated from zero, left to right.
pub open spec fn sum_of<W: Scalar>(s: Seq<W>, k: nat) -> W
    decreases k,
{
    if k == 0 {
        zero()
    } else {
        W::spec_plus(sum_of(s, (k - 1) as nat), s[k - 1])
    }
}

/// The sum of `s` divided by its length.
pub open spec fn mean_of<W: Scalar>(s: Seq<W>) -> W {
    W::spec_divided(sum_of(s, s.len()), W::spec_of_count(s.len() as usize))
}

/// The sum of `s`, as `sum_of` states it.
pub fn sum<W: Scalar>(s: &[W]) -> (r: W)
    ensures
        r == sum_of(s@, s@.len()),
{
    let mut acc = W::from_count(0);
    for i in 0..s.len()
        invariant
            acc == sum_of(s@, i as nat),
    {
        acc = acc.plus(s[i]);
    }
    acc
}

/// A stack of dense layers feeding one output layer.
pub struct Network<W: Scalar> {
    pub hidden_layers: Vec<DenseLayer<W>>,
    pub outputs: Box<OutputLayer<W>>,
    pub learning_rate: W,
}

impl<W: Scalar> Network<W> {
    pub open spec fn depth(&self) -> nat {
        self.hidden_layers@.len()
    }

    /// The width of the examples the network takes.
    pub open spec fn input_count(&self) -> nat {
        self.hidden_layers@[0].input_count()
    }

    /// At least one hidden layer; each layer well formed, with at least one
    /// neuron, and taking as many inputs as the layer before it has neurons.
    pub open spec fn wf(&self) -> bool {
        &&& self.depth() > 0
        &&& forall|i: int| 0 <= i < self.depth() ==> (#[trigger] self.hidden_layers@[i]).wf()
        &&& forall|i: int| 0 <= i < self.depth() ==> (#[trigger] self.hidden_layers@[i]).neuron_count() > 0
        &&& forall|i: int|
            1 <= i < self.depth() ==> #[trigger] self.hidden_layers@[i].input_count()
                == self.hidden_layers@[i - 1].neuron_count()
        &&& self.outputs.wf()
        &&& self.outputs.neuron_count() > 0
        &&& self.outputs.input_count() == self.hidden_layers@[self.depth() - 1].neuron_count()
    }

    /// What hidden layer `i` is fed: the example for the first layer, the
    /// outputs of the layer before it otherwise.
    pub open spec fn layer_input(&self, example: Seq<W>, i: int) -> Seq<W> {
        if i == 0 {
            example
        } else {
            self.hidden_layers@[i - 1].outputs@
        }
    }

    /// The outputs of the last hidden layer, which feed the output layer.
    pub open spec fn last_hidden_outputs(&self) -> Seq<W> {
        self.hidden_layers@[self.depth() - 1].outputs@
    }

    /// Every layer of `self` holds what the forward pass of `example` through
    /// the parameters of `before` computes.
    pub open spec fn forwarded_from(&self, before: &Self, example: Seq<W>) -> bool {
        &&& forall|i: int|
            0 <= i < self.depth() ==> (#[trigger] self.hidden_layers@[i]).outputs_before_activation@
                == before.hidden_layers@[i].pre_activations(self.layer_input(example, i))
        &&& forall|i: int|
            0 <= i < self.depth() ==> (#[trigger] self.hidden_layers@[i]).outputs@
                == before.hidden_layers@[i].activated(self.hidden_layers@[i].outputs_before_activation@)
        &&& self.outputs.outputs_before_activation@ == before.outputs.pre_activations(self.last_hidden_outputs())
        &&& self.outputs.outputs@ == before.outputs.activated(self.outputs.outputs_before_activation@)
    }

    /// `self` and `other` have the same layer count, and every layer the same
    /// weights, biases, activation and cost functions, and gradients.
    pub open spec fn same_parameters(&self, other: &Self) -> bool {
        &&& self.depth() == other.depth()
        &&& forall|i: int|
            0 <= i < self.depth() ==> (#[trigger] self.hidden_layers@[i]).same_parameters(
                &other.hidden_layers@[i],
            )
        &&& forall|i: int|
            0 <= i < self.depth() ==> (#[trigger] self.hidden_layers@[i]).neuron_gradients
                == other.hidden_layers@[i].neuron_gradients
        &&& self.outputs.same_parameters(&other.outputs)
        &&& self.learning_rate == other.learning_rate
    }

    /// The weights of the layer that consumes hidden layer `i`'s outputs.
    pub open spec fn next_weights(&self, i: int) -> Seq<Seq<W>> {
        if i == self.depth() - 1 {
            rows_view(self.outputs.weights@)
        } else {
            rows_view(self.hidden_layers@[i + 1].weights@)
        }
    }

    /// The gradients of the layer that consumes hidden layer `i`'s outputs.
    pub open spec fn next_gradients(&self, i: int) -> Seq<W> {
        if i == self.depth() - 1 {
            self.outputs.neuron_gradients@
        } else {
            self.hidden_layers@[i + 1].neuron_gradients@
        }
    }

    /// Every hidden layer's gradients are back-propagated, from the output
    /// side, through the weights of `before`.
    pub open spec fn hidden_gradients_from(&self, before: &Self) -> bool {
        forall|i: int|
            0 <= i < self.depth() ==> (#[trigger] self.hidden_layers@[i]).neuron_gradients@
                == self.hidden_layers@[i].gradients_from(before.next_weights(i), self.next_gradients(i))
    }

    /// Every weight and bias of `self` is the gradient step from `before`,
    /// taken with the gradients and forward-pass inputs `self` holds.
    pub open spec fn stepped_from(&self, before: &Self, example: Seq<W>, bias_learning_rate: W) -> bool {
        &&& rows_view(self.outputs.weights@) == stepped_weights(
            rows_view(before.outputs.weights@),
            self.outputs.neuron_gradients@,
            self.last_hidden_outputs(),
            before.learning_rate,
        )
        &&& forall|i: int|
            0 <= i < self.depth() ==> rows_view((#[trigger] self.hidden_layers@[i]).weights@) == stepped_weights(
                rows_view(before.hidden_layers@[i].weights@),
                self.hidden_layers@[i].neuron_gradients@,
                self.layer_input(example, i),
                before.learning_rate,
            )
        &&& forall|i: int|
            0 <= i < self.depth() ==> (#[trigger] self.hidden_layers@[i]).biases@ == stepped_biases(
                before.hidden_layers@[i].biases@,
                self.hidden_layers@[i].neuron_gradients@,
                bias_learning_rate,
            )
    }

    /// The layer shapes, activation and cost functions and learning rate of
    /// `self` and `other` agree.
    pub open spec fn same_shape(&self, other: &Self) -> bool {
        &&& self.depth() == other.depth()
        &&& forall|i: int|
            0 <= i < self.depth() ==> (#[trigger] self.hidden_layers@[i]).activation_fn
                == other.hidden_layers@[i].activation_fn
        &&& forall|i: int|
            0 <= i < self.depth() ==> (#[trigger] self.hidden_layers@[i]).neuron_count()
                == other.hidden_layers@[i].neuron_count()
        &&& forall|i: int|
            0 <= i < self.depth() ==> (#[trigger] self.hidden_layers@[i]).input_count()
                == other.hidden_layers@[i].input_count()
        &&& self.outputs.activation_fn == other.outputs.activation_fn
        &&& self.outputs.cost_fn == other.outputs.cost_fn
        &&& self.outputs.neuron_count() == other.outputs.neuron_count()
        &&& self.outputs.input_count() == other.outputs.input_count()
        &&& self.learning_rate == other.learning_rate
    }

    /// Feeds `inputs` through every hidden layer in order, then the output layer.
    pub fn forward_propagate(&mut self, inputs: &[W])
        requires
            old(self).wf(),
            inputs@.len() == old(self).input_count(),
        ensures
            final(self).wf(),
            final(self).same_parameters(old(self)),
            final(self).outputs.errors == old(self).outputs.errors,
            final(self).outputs.costs == old(self).outputs.costs,
            final(self).outputs.neuron_gradients == old(self).outputs.neuron_gradients,
            final(self).forwarded_from(old(self), inputs@),
    {
        let depth = self.hidden_layers.len();
        for i in 0..depth
            invariant
                depth == self.depth(),
                inputs@.len() == old(self).input_count(),
                old(self).wf(),
                self.wf(),
                self.same_parameters(old(self)),
                self.outputs == old(self).outputs,
                forall|k: int|
                    0 <= k < i ==> (#[trigger] self.hidden_layers@[k]).outputs_before_activation@
                        == old(self).hidden_layers@[k].pre_activations(self.layer_input(inputs@, k)),
                forall|k: int|
                    0 <= k < i ==> (#[trigger] self.hidden_layers@[k]).outputs@
                        == old(self).hidden_layers@[k].activated(self.hidden_layers@[k].outputs_before_activation@),
        {
            let ghost before = self.hidden_layers@;
            if i == 0 {
                self.hidden_layers[0].forward_propagate(inputs);
            } else {
                let prev = copied(self.hidden_layers[i - 1].outputs.as_slice());
                self.hidden_layers[i].forward_propagate(prev.as_slice());
            }
            assert forall|k: int| 0 <= k < self.depth() && k != i implies #[trigger] self.hidden_layers@[k]
                == before[k] by {}
        }
        let last = copied(self.hidden_layers[depth - 1].outputs.as_slice());
        self.outputs.forward_propagate(last.as_slice());
    }

    /// Fills the gradients of the hidden layers, walking from the last hidden
    /// layer back to the first; each uses the weights and gradients of the
    /// layer it feeds.
    fn backpropagate_hidden(&mut self)
        requires
            old(self).wf(),
        ensures
            final(self).wf(),
            final(self).depth() == old(self).depth(),
            final(self).outputs == old(self).outputs,
            final(self).learning_rate == old(self).learning_rate,
            forall|i: int|
                0 <= i < final(self).depth() ==> (#[trigger] final(self).hidden_layers@[i]).same_parameters(
                    &old(self).hidden_layers@[i],
                ),
            forall|i: int|
                0 <= i < final(self).depth() ==> (#[trigger] final(self).hidden_layers@[i]).outputs
                    == old(self).hidden_layers@[i].outputs,
            forall|i: int|
                0 <= i < final(self).depth() ==> (#[trigger] final(self).hidden_layers@[i]).outputs_before_activation
                    == old(self).hidden_layers@[i].outputs_before_activation,
            final(self).hidden_gradients_from(old(self)),
    {
        let depth = self.hidden_layers.len();
        let mut k = depth;
        while k > 0
            invariant
                k <= depth,
                depth == self.depth(),
                depth == old(self).depth(),
                old(self).wf(),
                self.wf(),
                self.outputs == old(self).outputs,
                self.learning_rate == old(self).learning_rate,
                forall|i: int|
                    0 <= i < depth ==> (#[trigger] self.hidden_layers@[i]).same_parameters(&old(self).hidden_layers@[i]),
                forall|i: int|
                    0 <= i < depth ==> (#[trigger] self.hidden_layers@[i]).outputs == old(self).hidden_layers@[i].outputs,
                forall|i: int|
                    0 <= i < depth ==> (#[trigger] self.hidden_layers@[i]).outputs_before_activation
                        == old(self).hidden_layers@[i].outputs_before_activation,
                forall|i: int|
                    k <= i < depth ==> (#[trigger] self.hidden_layers@[i]).neuron_gradients@
                        == self.hidden_layers@[i].gradients_from(old(self).next_weights(i), self.next_gradients(i)),
            decreases k,
        {
            k = k - 1;
            let ghost before = self.hidden_layers@;
            let (next_weights, next_gradients) = if k == depth - 1 {
                (copied_rows(&self.outputs.weights), copied(self.outputs.neuron_gradients.as_slice()))
            } else {
                (
                    copied_rows(&self.hidden_layers[k + 1].weights),
                    copied(self.hidden_layers[k + 1].neuron_gradients.as_slice()),
                )
            };
            if k == depth - 1 {
                assert(rows_view(self.outputs.weights@) == old(self).next_weights(k as int));
            } else {
                let ghost j = k + 1;
                assert(self.hidden_layers@[j].same_parameters(&old(self).hidden_layers@[j]));
                assert(rows_view(self.hidden_layers@[j].weights@) == old(self).next_weights(k as int));
                assert(self.hidden_layers@[j].wf());
                assert(self.hidden_layers@[j].input_count() == self.hidden_layers@[k as int].neuron_count());
            }
            assert(rows_view(next_weights@) == old(self).next_weights(k as int));
            assert(next_gradients@ == self.next_gradients(k as int));
            assert(self.hidden_layers@[k as int].wf());
            assert forall|j: int| 0 <= j < next_weights@.len() implies #[trigger] next_weights@[j]@.len()
                >= self.hidden_layers@[k as int].neuron_count() by {
                assert(next_weights@[j]@ == rows_view(next_weights@)[j]);
            }
            self.hidden_layers[k].compute_gradients(next_weights.as_slice(), next_gradients.as_slice());
            assert forall|i: int| 0 <= i < depth && i != k implies #[trigger] self.hidden_layers@[i] == before[i] by {}
            assert(self.next_gradients(k as int) == next_gradients@);
        }
    }

    /// Steps the output layer's weights with the network's learning rate and
    /// the last hidden layer's outputs, then every hidden layer's weights (with
    /// the network's learning rate) and biases (with `bias_learning_rate`).
    fn apply_gradient_steps(&mut self, example: &[W], bias_learning_rate: W)
        requires
            old(self).wf(),
            example@.len() == old(self).input_count(),
        ensures
            final(self).wf(),
            final(self).same_shape(old(self)),
            final(self).stepped_from(old(self), example@, bias_learning_rate),
            final(self).outputs.outputs == old(self).outputs.outputs,
            final(self).outputs.outputs_before_activation == old(self).outputs.outputs_before_activation,
            final(self).outputs.errors == old(self).outputs.errors,
            final(self).outputs.costs == old(self).outputs.costs,
            final(self).outputs.neuron_gradients == old(self).outputs.neuron_gradients,
            forall|i: int|
                0 <= i < final(self).depth() ==> (#[trigger] final(self).hidden_layers@[i]).outputs
                    == old(self).hidden_layers@[i].outputs,
            forall|i: int|
                0 <= i < final(self).depth() ==> (#[trigger] final(self).hidden_layers@[i]).outputs_before_activation
                    == old(self).hidden_layers@[i].outputs_before_activation,
            forall|i: int|
                0 <= i < final(self).depth() ==> (#[trigger] final(self).hidden_layers@[i]).neuron_gradients
                    == old(self).hidden_layers@[i].neuron_gradients,
    {
        let depth = self.hidden_layers.len();
        let learning_rate = self.learning_rate;
        let last = copied(self.hidden_layers[depth - 1].outputs.as_slice());
        self.outputs.update_weights(last.as_slice(), learning_rate);
        let mut k = depth;
        while k > 0
            invariant
                k <= depth,
                depth == self.depth(),
                depth == old(self).depth(),
                example@.len() == old(self).input_count(),
                learning_rate == old(self).learning_rate,
                old(self).wf(),
                self.wf(),
                self.same_shape(old(self)),
                self.outputs.outputs == old(self).outputs.outputs,
                self.outputs.outputs_before_activation == old(self).outputs.outputs_before_activation,
                self.outputs.errors == old(self).outputs.errors,
                self.outputs.costs == old(self).outputs.costs,
                self.outputs.neuron_gradients == old(self).outputs.neuron_gradients,
                rows_view(self.outputs.weights@) == stepped_weights(
                    rows_view(old(self).outputs.weights@),
                    self.outputs.neuron_gradients@,
                    self.last_hidden_outputs(),
                    learning_rate,
                ),
                forall|i: int|
                    0 <= i < depth ==> (#[trigger] self.hidden_layers@[i]).outputs == old(self).hidden_layers@[i].outputs,
                forall|i: int|
                    0 <= i < depth ==> (#[trigger] self.hidden_layers@[i]).outputs_before_activation
                        == old(self).hidden_layers@[i].outputs_before_activation,
                forall|i: int|
                    0 <= i < depth ==> (#[trigger] self.hidden_layers@[i]).neuron_gradients
                        == old(self).hidden_layers@[i].neuron_gradients,
                forall|i: int|
                    0 <= i < k ==> (#[trigger] self.hidden_layers@[i]).weights == old(self).hidden_layers@[i].weights,
                forall|i: int|
                    0 <= i < k ==> (#[trigger] self.hidden_layers@[i]).biases == old(self).hidden_layers@[i].biases,
                forall|i: int|
                    k <= i < depth ==> rows_view((#[trigger] self.hidden_layers@[i]).weights@) == stepped_weights(
                        rows_view(old(self).hidden_layers@[i].weights@),
                        self.hidden_layers@[i].neuron_gradients@,
                        self.layer_input(example@, i),
                        learning_rate,
                    ),
                forall|i: int|
                    k <= i < depth ==> (#[trigger] self.hidden_layers@[i]).biases@ == stepped_biases(
                        old(self).hidden_layers@[i].biases@,
                        self.hidden_layers@[i].neuron_gradients@,
                        bias_learning_rate,
                    ),
            decreases k,
        {
            k = k - 1;
            let ghost before = self.hidden_layers@;
            let inputs = if k == 0 {
                copied(example)
            } else {
                copied(self.hidden_layers[k - 1].outputs.as_slice())
            };
            assert(inputs@ == self.layer_input(example@, k as int));
            self.hidden_layers[k].update_weights(inputs.as_slice(), learning_rate);
            self.hidden_layers[k].update_biases(bias_learning_rate);
            assert forall|i: int| 0 <= i < depth && i != k implies #[trigger] self.hidden_layers@[i] == before[i] by {}
            assert(inputs@ == self.layer_input(example@, k as int));
        }
    }

    /// Trains on one example: a forward pass, the output layer's costs and
    /// gradients, the hidden layers' gradients from the output side back, and
    /// a gradient step on every weight (with the network's `learning_rate`)
    /// and every hidden bias (with the `learning_rate` argument). Returns the
    /// mean cost over the output neurons, as it stood before the step.
    pub fn train_one_example(&mut self, example: &[W], expected: &[W], learning_rate: W) -> (r: W)
        requires
            old(self).wf(),
            example@.len() == old(self).input_count(),
            expected@.len() == old(self).outputs.neuron_count(),
        ensures
            final(self).wf(),
            final(self).same_shape(old(self)),
            final(self).forwarded_from(old(self), example@),
            final(self).outputs.errors@ == final(self).outputs.errors_for(expected@),
            final(self).outputs.costs@ == final(self).outputs.costs_for(final(self).outputs.errors@),
            final(self).outputs.neuron_gradients@ == final(self).outputs.gradients_spec(),
            final(self).hidden_gradients_from(old(self)),
            final(self).stepped_from(old(self), example@, learning_rate),
            r == mean_of(final(self).outputs.costs@),
    {
        self.forward_propagate(example);
        let ghost forwarded = *self;
        self.outputs.compute_costs(expected);
        self.outputs.compute_gradients();
        let ghost scored = *self;
        self.backpropagate_hidden();
        let ghost propagated = *self;
        self.apply_gradient_steps(example, learning_rate);
        assert(self.forwarded_from(old(self), example@)) by {
            assert(forall|i: int| 0 <= i < self.depth() ==> self.layer_input(example@, i) == forwarded.layer_input(example@, i));
        }
        assert(self.hidden_gradients_from(old(self))) by {
            assert forall|i: int| 0 <= i < self.depth() implies self.next_gradients(i) == propagated.next_gradients(i) by {}
            assert forall|i: int| 0 <= i < self.depth() implies old(self).next_weights(i) == scored.next_weights(i) by {}
        }
        let total = sum(self.outputs.costs.as_slice());
        total.divided(W::from_count(self.outputs.costs.len()))
    }

    /// Runs the forward pass only and returns the output layer's outputs.
    pub fn compute(&mut self, inputs: &[W]) -> (r: &[W])
        requires
            old(self).wf(),
            inputs@.len() == old(self).input_count(),
        ensures
            final(self).wf(),
            final(self).same_parameters(old(self)),
            final(self).outputs.errors == old(self).outputs.errors,
            final(self).outputs.costs == old(self).outputs.costs,
            final(self).outputs.neuron_gradients == old(self).outputs.neuron_gradients,
            final(self).forwarded_from(old(self), inputs@),
            r@ == final(self).outputs.outputs@,
    {
        self.forward_propagate(inputs);
        self.outputs.outputs.as_slice()
    }
}

} // verus!
