use vstd::prelude::*;

use crate::dense::{copied, rows_view, stepped_weights, zeros, zeros_spec};
use crate::network::{sum, sum_of};
use crate::output::OutputLayer;
use crate::recurrent_layer::RecurrentLayer;
use crate::rnn::{
    grown_len, lemma_stack_gradient_len, lemma_stack_output_parameters, same_but_gradients, same_stack_parameters, store_step,
};
use crate::scalar::one;
use crate::scalar::{zero, Scalar};
use vstd::slice::slice_subrange;

verus! {

/// Weights after `k` gradient steps, step `i` with `gradients` and `inputs[i]`.
pub open spec fn weights_after_steps<W: Scalar>(
    start: Seq<Seq<W>>,
    gradients: Seq<W>,
    inputs: Seq<Seq<W>>,
    learning_rate: W,
    k: nat,
) -> Seq<Seq<W>>
    decreases k,
{
    if k == 0 {
        start
    } else {
        stepped_weights(
            weights_after_steps(start, gradients, inputs, learning_rate, (k - 1) as nat),
            gradients,
            inputs[k - 1],
            learning_rate,
        )
    }
}

/// A recurrent layer feeding a terminal output layer, run over whole sequences.
pub struct RecurrentNetwork<W: Scalar> {
    pub recurrent_layer: RecurrentLayer<W>,
    pub output_layer: Box<OutputLayer<W>>,
    /// The recurrent layer's output at each step: the output layer's input.
    pub recurrent_layer_outputs: Vec<Vec<W>>,
    /// The network's output at each step.
    pub outputs: Vec<Vec<W>>,
}

impl<W: Scalar> RecurrentNetwork<W> {
    /// The output layer takes the recurrent layer's outputs.
    pub open spec fn wf(&self) -> bool {
        &&& self.recurrent_layer.wf()
        &&& self.output_layer.wf()
        &&& self.output_layer.neuron_count() > 0
        &&& self.output_layer.input_count() == self.recurrent_layer.output_tree.neuron_count()
    }

    pub open spec fn input_count(&self) -> nat {
        self.recurrent_layer.input_count()
    }

    pub open spec fn output_count(&self) -> nat {
        self.output_layer.neuron_count()
    }

    /// `self` and `other` have the same weights, biases, activation and cost
    /// functions and sizes everywhere.
    pub open spec fn same_parameters(&self, other: &Self) -> bool {
        &&& self.recurrent_layer.output_tree.same_parameters(&other.recurrent_layer.output_tree)
        &&& same_stack_parameters(self.recurrent_layer.recurrent_tree.layers@, other.recurrent_layer.recurrent_tree.layers@)
        &&& self.recurrent_layer.state@.len() == other.recurrent_layer.state@.len()
        &&& self.recurrent_layer.combined_inputs_scratch@.len() == other.recurrent_layer.combined_inputs_scratch@.len()
        &&& self.output_layer.same_parameters(&other.output_layer)
    }

    /// The state entering step `k` of `seq`: zero at the start, then the
    /// recurrent tree's output on each step's combined input.
    pub open spec fn state_at(&self, seq: Seq<Seq<W>>, k: nat) -> Seq<W>
        decreases k,
    {
        if k == 0 {
            zeros_spec(self.recurrent_layer.state_size())
        } else {
            self.recurrent_layer.next_state(self.state_at(seq, (k - 1) as nat) + seq[k - 1])
        }
    }

    /// The recurrent layer's output at step `k`: the output tree on `[state ++ seq[k]]`.
    pub open spec fn layer_output_at(&self, seq: Seq<Seq<W>>, k: int) -> Seq<W> {
        let tree = self.recurrent_layer.output_tree;
        tree.activated(tree.pre_activations(self.state_at(seq, k as nat) + seq[k]))
    }

    /// The output layer's pre-activation values at step `k`.
    pub open spec fn pre_output_at(&self, seq: Seq<Seq<W>>, k: int) -> Seq<W> {
        self.output_layer.pre_activations(self.layer_output_at(seq, k))
    }

    /// The network's output at step `k`.
    pub open spec fn output_at(&self, seq: Seq<Seq<W>>, k: int) -> Seq<W> {
        self.output_layer.activated(self.pre_output_at(seq, k))
    }

    /// The signed errors at step `k` against `expected`.
    pub open spec fn errors_at(&self, seq: Seq<Seq<W>>, expected: Seq<W>, k: int) -> Seq<W> {
        Seq::new(self.output_count(), |n: int| W::spec_minus(expected[n], self.output_at(seq, k)[n]))
    }

    /// The costs at step `k` against `expected`.
    pub open spec fn costs_at(&self, seq: Seq<Seq<W>>, expected: Seq<W>, k: int) -> Seq<W> {
        Seq::new(self.output_count(), |n: int| self.output_layer.cost_fn.cost_spec(self.errors_at(seq, expected, k)[n]))
    }

    /// The output layer's gradients at step `k` against `expected`.
    pub open spec fn gradients_at(&self, seq: Seq<Seq<W>>, expected: Seq<W>, k: int) -> Seq<W> {
        Seq::new(
            self.output_count(),
            |n: int|
                W::spec_times(
                    self.output_layer.cost_fn.derivative_spec(self.errors_at(seq, expected, k)[n]),
                    self.output_layer.activation_fn.derivative_spec(self.pre_output_at(seq, k)[n]),
                ),
        )
    }

    /// The output gradients of step `k`: zero where the step has no target.
    pub open spec fn step_gradient(&self, seq: Seq<Seq<W>>, expected: Seq<Option<Vec<W>>>, k: int) -> Seq<W> {
        match expected[k] {
            Some(e) => self.gradients_at(seq, e@, k),
            None => zeros_spec(self.output_count()),
        }
    }

    /// The sum of the costs of the first `k` steps that have a target.
    pub open spec fn total_cost(&self, seq: Seq<Seq<W>>, expected: Seq<Option<Vec<W>>>, k: nat) -> W
        decreases k,
    {
        if k == 0 {
            zero()
        } else {
            match expected[k - 1] {
                Some(e) => W::spec_plus(
                    self.total_cost(seq, expected, (k - 1) as nat),
                    sum_of(self.costs_at(seq, e@, k - 1), self.output_count()),
                ),
                None => self.total_cost(seq, expected, (k - 1) as nat),
            }
        }
    }

    /// Every step of `seq` is as wide as the network's input.
    pub open spec fn sequence_fits(&self, seq: Seq<Vec<W>>) -> bool {
        forall|s: int| 0 <= s < seq.len() ==> (#[trigger] seq[s])@.len() == self.input_count()
    }

    /// Every target present is as wide as the network's output.
    pub open spec fn targets_fit(&self, expected: Seq<Option<Vec<W>>>) -> bool {
        forall|s: int|
            0 <= s < expected.len() ==> match #[trigger] expected[s] {
                Some(e) => e@.len() == self.output_count(),
                None => true,
            }
    }

    /// One step of the forward pass: the recurrent layer, then the output layer,
    /// recording both outputs as step `s`.
    fn run_step(&mut self, input: &Vec<W>, s: usize, Ghost(base): Ghost<Self>, Ghost(seq): Ghost<Seq<Seq<W>>>)
        requires
            old(self).wf(),
            base.wf(),
            old(self).same_parameters(&base),
            s < seq.len(),
            input@ == seq[s as int],
            input@.len() == base.input_count(),
            old(self).recurrent_layer.state@ == base.state_at(seq, s as nat),
            s <= old(self).recurrent_layer.prev_states@.len(),
            s <= old(self).recurrent_layer.sequence_inputs@.len(),
        ensures
            final(self).wf(),
            final(self).same_parameters(&base),
            final(self).recurrent_layer.state@ == base.state_at(seq, (s + 1) as nat),
            final(self).recurrent_layer.prev_states@.len() >= s + 1,
            final(self).recurrent_layer.sequence_inputs@.len() >= s + 1,
            final(self).output_layer.outputs_before_activation@ == base.pre_output_at(seq, s as int),
            final(self).output_layer.outputs@ == base.output_at(seq, s as int),
            final(self).output_layer.errors == old(self).output_layer.errors,
            final(self).output_layer.costs == old(self).output_layer.costs,
            final(self).output_layer.neuron_gradients == old(self).output_layer.neuron_gradients,
            final(self).outputs@.len() == grown_len(old(self).outputs@.len(), s as nat),
            final(self).outputs@[s as int]@ == base.output_at(seq, s as int),
            forall|t: int|
                0 <= t < old(self).outputs@.len() && t != s ==> #[trigger] final(self).outputs@[t]
                    == old(self).outputs@[t],
            final(self).recurrent_layer_outputs@.len() == grown_len(
                old(self).recurrent_layer_outputs@.len(),
                s as nat,
            ),
            final(self).recurrent_layer_outputs@[s as int]@ == base.layer_output_at(seq, s as int),
            forall|t: int|
                0 <= t < old(self).recurrent_layer_outputs@.len() && t != s
                    ==> #[trigger] final(self).recurrent_layer_outputs@[t] == old(self).recurrent_layer_outputs@[t],
            final(self).recurrent_layer.prev_states@[s as int]@.len() == base.recurrent_layer.state_size(),
            final(self).recurrent_layer.sequence_inputs@[s as int]@ == seq[s as int],
            forall|t: int|
                0 <= t < s ==> #[trigger] final(self).recurrent_layer.prev_states@[t]
                    == old(self).recurrent_layer.prev_states@[t],
            forall|t: int|
                0 <= t < s ==> #[trigger] final(self).recurrent_layer.sequence_inputs@[t]
                    == old(self).recurrent_layer.sequence_inputs@[t],
            final(self).recurrent_layer.recurrent_tree.layer_outputs_by_layer_by_step_ix@.len() >= s + 1,
            final(self).recurrent_layer.recurrent_tree.snapshot_fits(
                rows_view(final(self).recurrent_layer.recurrent_tree.layer_outputs_by_layer_by_step_ix@[s as int]@),
            ),
            forall|t: int|
                0 <= t < s && t < old(self).recurrent_layer.recurrent_tree.layer_outputs_by_layer_by_step_ix@.len()
                    ==> #[trigger] final(self).recurrent_layer.recurrent_tree.layer_outputs_by_layer_by_step_ix@[t]
                    == old(self).recurrent_layer.recurrent_tree.layer_outputs_by_layer_by_step_ix@[t],
    {
        let ghost rl0 = self.recurrent_layer;
        let ghost combined = base.state_at(seq, s as nat) + seq[s as int];
        self.recurrent_layer.forward_propagate(input.as_slice(), s);
        proof {
            lemma_stack_output_parameters(
                rl0.recurrent_tree.layers@,
                base.recurrent_layer.recurrent_tree.layers@,
                combined,
                rl0.recurrent_tree.depth(),
            );
            assert(same_stack_parameters(
                self.recurrent_layer.recurrent_tree.layers@,
                base.recurrent_layer.recurrent_tree.layers@,
            )) by {
                assert forall|i: int| 0 <= i < self.recurrent_layer.recurrent_tree.layers@.len() implies (
                #[trigger] self.recurrent_layer.recurrent_tree.layers@[i]).same_parameters(
                    &base.recurrent_layer.recurrent_tree.layers@[i],
                ) by {
                    assert(rl0.recurrent_tree.layers@[i].same_parameters(&base.recurrent_layer.recurrent_tree.layers@[i]));
                }
            }
            assert(self.recurrent_layer.output_tree.outputs@ == base.layer_output_at(seq, s as int));
        }
        let layer_outputs = copied(self.recurrent_layer.get_outputs());
        self.output_layer.forward_propagate(layer_outputs.as_slice());
        let network_outputs = copied(self.output_layer.outputs.as_slice());
        store_step(&mut self.outputs, s, network_outputs);
        store_step(&mut self.recurrent_layer_outputs, s, layer_outputs);
    }

    /// Runs `sequence` through the network from a zero state, recording every
    /// step's outputs. With targets, also scores every step that has one and
    /// returns the sum of those costs and, for every step, the output layer's
    /// gradients (zero for a step without a target).
    pub fn forward_propagate(
        &mut self,
        sequence: &[Vec<W>],
        expected_sequence: Option<&[Option<Vec<W>>]>,
    ) -> (r: (W, Vec<Vec<W>>))
        requires
            old(self).wf(),
            old(self).sequence_fits(sequence@),
            expected_sequence is Some ==> expected_sequence->0@.len() >= sequence@.len(),
            expected_sequence is Some ==> old(self).targets_fit(expected_sequence->0@),
        ensures
            final(self).wf(),
            final(self).same_parameters(old(self)),
            final(self).outputs@.len() == if old(self).outputs@.len() >= sequence@.len() {
                old(self).outputs@.len()
            } else {
                sequence@.len()
            },
            final(self).recurrent_layer_outputs@.len() == if old(self).recurrent_layer_outputs@.len()
                >= sequence@.len() {
                old(self).recurrent_layer_outputs@.len()
            } else {
                sequence@.len()
            },
            forall|s: int|
                0 <= s < sequence@.len() ==> (#[trigger] final(self).outputs@[s])@ == old(self).output_at(
                    rows_view(sequence@),
                    s,
                ),
            forall|s: int|
                0 <= s < sequence@.len() ==> (#[trigger] final(self).recurrent_layer_outputs@[s])@
                    == old(self).layer_output_at(rows_view(sequence@), s),
            final(self).recurrent_layer.prev_states@.len() >= sequence@.len(),
            final(self).recurrent_layer.sequence_inputs@.len() >= sequence@.len(),
            final(self).recurrent_layer.state@ == old(self).state_at(rows_view(sequence@), sequence@.len()),
            forall|s: int|
                0 <= s < sequence@.len() ==> (#[trigger] final(self).recurrent_layer.prev_states@[s])@.len()
                    == old(self).recurrent_layer.state_size(),
            forall|s: int|
                0 <= s < sequence@.len() ==> (#[trigger] final(self).recurrent_layer.sequence_inputs@[s])@
                    == sequence@[s]@,
            final(self).recurrent_layer.recurrent_tree.layer_outputs_by_layer_by_step_ix@.len() >= sequence@.len(),
            forall|s: int|
                0 <= s < sequence@.len() ==> final(self).recurrent_layer.recurrent_tree.snapshot_fits(
                    rows_view((#[trigger] final(self).recurrent_layer.recurrent_tree.layer_outputs_by_layer_by_step_ix@[s])@),
                ),
            expected_sequence is None ==> r.0 == zero::<W>() && r.1@.len() == 0,
            expected_sequence is Some ==> r.0 == old(self).total_cost(
                rows_view(sequence@),
                expected_sequence->0@,
                sequence@.len(),
            ),
            expected_sequence is Some ==> r.1@.len() == sequence@.len(),
            expected_sequence is Some ==> forall|s: int|
                0 <= s < sequence@.len() ==> (#[trigger] r.1@[s])@ == old(self).step_gradient(
                    rows_view(sequence@),
                    expected_sequence->0@,
                    s,
                ),
    {
        let ghost base = *self;
        let ghost seq = rows_view(sequence@);
        let ghost n_out = self.output_layer.neuron_count();
        self.recurrent_layer.reset();
        let mut output_gradients: Vec<Vec<W>> = Vec::new();
        let mut total_costs = W::from_count(0);
        for step_ix in 0..sequence.len()
            invariant
                seq == rows_view(sequence@),
                base == *old(self),
                n_out == base.output_count(),
                base.wf(),
                base.sequence_fits(sequence@),
                expected_sequence is Some ==> expected_sequence->0@.len() >= sequence@.len(),
                expected_sequence is Some ==> base.targets_fit(expected_sequence->0@),
                self.wf(),
                self.same_parameters(&base),
                self.recurrent_layer.state@ == base.state_at(seq, step_ix as nat),
                self.recurrent_layer.prev_states@.len() >= step_ix,
                self.recurrent_layer.sequence_inputs@.len() >= step_ix,
                forall|t: int|
                    0 <= t < step_ix ==> (#[trigger] self.recurrent_layer.prev_states@[t])@.len()
                        == base.recurrent_layer.state_size(),
                forall|t: int| 0 <= t < step_ix ==> (#[trigger] self.recurrent_layer.sequence_inputs@[t])@ == seq[t],
                self.recurrent_layer.recurrent_tree.layer_outputs_by_layer_by_step_ix@.len() >= step_ix,
                forall|t: int|
                    0 <= t < step_ix ==> self.recurrent_layer.recurrent_tree.snapshot_fits(
                        rows_view((#[trigger] self.recurrent_layer.recurrent_tree.layer_outputs_by_layer_by_step_ix@[t])@),
                    ),
                self.outputs@.len() == if old(self).outputs@.len() >= step_ix {
                    old(self).outputs@.len()
                } else {
                    step_ix as nat
                },
                self.recurrent_layer_outputs@.len() == if old(self).recurrent_layer_outputs@.len() >= step_ix {
                    old(self).recurrent_layer_outputs@.len()
                } else {
                    step_ix as nat
                },
                forall|t: int| 0 <= t < step_ix ==> (#[trigger] self.outputs@[t])@ == base.output_at(seq, t),
                forall|t: int|
                    0 <= t < step_ix ==> (#[trigger] self.recurrent_layer_outputs@[t])@ == base.layer_output_at(seq, t),
                expected_sequence is None ==> total_costs == zero::<W>() && output_gradients@.len() == 0,
                expected_sequence is Some ==> total_costs == base.total_cost(
                    seq,
                    expected_sequence->0@,
                    step_ix as nat,
                ),
                expected_sequence is Some ==> output_gradients@.len() == step_ix,
                expected_sequence is Some ==> forall|t: int|
                    0 <= t < step_ix ==> (#[trigger] output_gradients@[t])@ == base.step_gradient(
                        seq,
                        expected_sequence->0@,
                        t,
                    ),
        {
            assert(sequence@[step_ix as int]@ == seq[step_ix as int]);
            self.run_step(&sequence[step_ix], step_ix, Ghost(base), Ghost(seq));
            match expected_sequence {
                Some(expected) => {
                    let gradients = match &expected[step_ix] {
                        Some(expected_output) => {
                            assert(expected_output@.len() == n_out);
                            self.output_layer.compute_costs(expected_output.as_slice());
                            assert(self.output_layer.costs@ =~= base.costs_at(seq, expected_output@, step_ix as int));
                            total_costs = total_costs.plus(sum(self.output_layer.costs.as_slice()));
                            self.output_layer.compute_gradients();
                            assert(self.output_layer.neuron_gradients@ =~= base.gradients_at(
                                seq,
                                expected_output@,
                                step_ix as int,
                            ));
                            copied(self.output_layer.neuron_gradients.as_slice())
                        },
                        None => zeros(self.output_layer.neuron_gradients.len()),
                    };
                    output_gradients.push(gradients);
                },
                None => {},
            }
        }
        assert forall|t: int| 0 <= t < sequence@.len() implies (#[trigger] self.recurrent_layer.sequence_inputs@[t])@
            == sequence@[t]@ by {
            assert(seq[t] == sequence@[t]@);
        }
        (total_costs, output_gradients)
    }

    /// Trains on one sequence: the forward pass with targets, the backward
    /// pass through time, then gradient steps on the output layer (once per
    /// step, with its last gradients and the learning rate divided by the
    /// sequence length) and on the recurrent layer. Returns the summed cost
    /// divided by the number of output neurons and by the sequence length,
    /// as it stood before the steps.
    pub fn train_one_sequence(
        &mut self,
        sequence: &[Vec<W>],
        expected_sequence: &[Option<Vec<W>>],
        learning_rate: W,
    ) -> (r: W)
        requires
            old(self).wf(),
            sequence@.len() == expected_sequence@.len(),
            sequence@.len() > 0,
            old(self).sequence_fits(sequence@),
            old(self).targets_fit(expected_sequence@),
        ensures
            final(self).wf(),
            r == W::spec_divided(
                W::spec_divided(
                    old(self).total_cost(rows_view(sequence@), expected_sequence@, sequence@.len()),
                    W::spec_of_count(old(self).output_count() as usize),
                ),
                W::spec_of_count(sequence@.len() as usize),
            ),
            forall|s: int|
                0 <= s < sequence@.len() ==> (#[trigger] final(self).outputs@[s])@ == old(self).output_at(
                    rows_view(sequence@),
                    s,
                ),
            final(self).output_layer.activation_fn == old(self).output_layer.activation_fn,
            final(self).output_layer.cost_fn == old(self).output_layer.cost_fn,
            rows_view(final(self).output_layer.weights@) == weights_after_steps(
                rows_view(old(self).output_layer.weights@),
                final(self).output_layer.neuron_gradients@,
                rows_view(final(self).recurrent_layer_outputs@),
                W::spec_times(learning_rate, W::spec_divided(one(), W::spec_of_count(sequence@.len() as usize))),
                sequence@.len(),
            ),
            rows_view(final(self).recurrent_layer.output_tree.weights@)
                == final(self).recurrent_layer.output_weights_after(
                rows_view(old(self).recurrent_layer.output_tree.weights@),
                learning_rate,
                sequence@.len(),
            ),
            final(self).recurrent_layer.output_tree.biases == old(self).recurrent_layer.output_tree.biases,
            final(self).recurrent_layer.recurrent_tree.depth() == old(self).recurrent_layer.recurrent_tree.depth(),
            forall|l: int|
                0 <= l < final(self).recurrent_layer.recurrent_tree.depth() ==> rows_view(
                    (#[trigger] final(self).recurrent_layer.recurrent_tree.layers@[l]).weights@,
                ) == final(self).recurrent_layer.tree_weights_after(
                    l,
                    rows_view(old(self).recurrent_layer.recurrent_tree.layers@[l].weights@),
                    learning_rate,
                    sequence@.len(),
                    sequence@.len(),
                ),
            forall|l: int|
                0 <= l < final(self).recurrent_layer.recurrent_tree.depth()
                    ==> (#[trigger] final(self).recurrent_layer.recurrent_tree.layers@[l]).biases
                    == old(self).recurrent_layer.recurrent_tree.layers@[l].biases,
    {
        let n = sequence.len();
        let (total_cost, output_gradients) = self.forward_propagate(sequence, Some(expected_sequence));
        let ghost forwarded = *self;
        proof {
            assert forall|t: int| 0 <= t < n implies (#[trigger] output_gradients@[t])@.len()
                == self.output_layer.weights@.len() by {
                assert(output_gradients@[t]@ == old(self).step_gradient(rows_view(sequence@), expected_sequence@, t));
            }
            assert forall|j: int| 0 <= j < self.output_layer.weights@.len() implies #[trigger] self.output_layer.weights@[j]@.len()
                >= self.recurrent_layer.output_tree.neuron_count() by {}
        }
        self.recurrent_layer.compute_gradients(self.output_layer.weights.as_slice(), output_gradients.as_slice(), n);
        let ghost backward = self.recurrent_layer;
        proof {
            let tree = forwarded.recurrent_layer.recurrent_tree;
            let oow = rows_view(self.output_layer.weights@);
            let ogs = rows_view(output_gradients@);
            assert forall|t: int| 0 <= t < n - 1 implies self.recurrent_layer.recurrent_tree.snapshot_fits(
                rows_view((#[trigger] self.recurrent_layer.recurrent_tree.neuron_gradients_by_layer_by_step_ix@[t])@),
            ) by {
                assert forall|l: int| 0 <= l < tree.depth() implies (#[trigger] rows_view(
                    self.recurrent_layer.recurrent_tree.neuron_gradients_by_layer_by_step_ix@[t]@,
                )[l]).len() == self.recurrent_layer.recurrent_tree.layers@[l].neuron_count() by {
                    lemma_stack_gradient_len(
                        tree.layers@,
                        forwarded.recurrent_layer.state_to_output_weights(),
                        forwarded.recurrent_layer.output_gradient_at(oow, ogs, t + 1),
                        l,
                    );
                    assert(same_but_gradients(self.recurrent_layer.recurrent_tree.layers@[l], tree.layers@[l]));
                }
            }
            assert forall|t: int| 0 <= t < n implies (#[trigger] self.recurrent_layer.computed_output_gradients@[t])@.len()
                == self.recurrent_layer.output_tree.neuron_count() by {}
            assert forall|t: int| 0 <= t < n implies (#[trigger] self.recurrent_layer.sequence_inputs@[t])@.len()
                == self.recurrent_layer.input_count() by {}
            assert(self.recurrent_layer.history_covers(n as nat));
        }
        let scaled = learning_rate.times(W::from_count(1).divided(W::from_count(n)));
        let ghost start = rows_view(self.output_layer.weights@);
        for i in 0..n
            invariant
                n == sequence@.len(),
                n <= self.recurrent_layer_outputs@.len(),
                self.wf(),
                self.recurrent_layer == backward,
                self.recurrent_layer_outputs == forwarded.recurrent_layer_outputs,
                self.outputs == forwarded.outputs,
                forall|t: int|
                    0 <= t < n ==> (#[trigger] self.recurrent_layer_outputs@[t])@.len()
                        == self.output_layer.input_count(),
                self.output_layer.activation_fn == forwarded.output_layer.activation_fn,
                self.output_layer.cost_fn == forwarded.output_layer.cost_fn,
                self.output_layer.neuron_gradients == forwarded.output_layer.neuron_gradients,
                self.output_layer.costs == forwarded.output_layer.costs,
                self.output_layer.input_count() == forwarded.output_layer.input_count(),
                self.output_layer.neuron_count() == forwarded.output_layer.neuron_count(),
                rows_view(self.output_layer.weights@) == weights_after_steps(
                    start,
                    self.output_layer.neuron_gradients@,
                    rows_view(self.recurrent_layer_outputs@),
                    scaled,
                    i as nat,
                ),
        {
            let inputs = copied(self.recurrent_layer_outputs[i].as_slice());
            assert(inputs@ == rows_view(self.recurrent_layer_outputs@)[i as int]);
            self.output_layer.update_weights(inputs.as_slice(), scaled);
        }
        self.recurrent_layer.update_weights(learning_rate, n);
        proof {
            backward.lemma_same_records(
                &self.recurrent_layer,
                rows_view(old(self).recurrent_layer.output_tree.weights@),
                0,
                learning_rate,
                n as nat,
                n as nat,
            );
            assert forall|l: int| 0 <= l < self.recurrent_layer.recurrent_tree.depth() implies rows_view(
                (#[trigger] self.recurrent_layer.recurrent_tree.layers@[l]).weights@,
            ) == self.recurrent_layer.tree_weights_after(
                l,
                rows_view(old(self).recurrent_layer.recurrent_tree.layers@[l].weights@),
                learning_rate,
                n as nat,
                n as nat,
            ) by {
                backward.lemma_same_records(
                    &self.recurrent_layer,
                    rows_view(old(self).recurrent_layer.recurrent_tree.layers@[l].weights@),
                    l,
                    learning_rate,
                    n as nat,
                    n as nat,
                );
            }
        }
        total_cost.divided(W::from_count(self.output_layer.costs.len())).divided(W::from_count(n))
    }

    /// Runs the forward pass only and returns the outputs of every step.
    pub fn predict(&mut self, sequence: &[Vec<W>]) -> (r: &[Vec<W>])
        requires
            old(self).wf(),
            old(self).sequence_fits(sequence@),
        ensures
            final(self).wf(),
            final(self).same_parameters(old(self)),
            r@.len() == sequence@.len(),
            forall|s: int| 0 <= s < sequence@.len() ==> (#[trigger] r@[s])@ == old(self).output_at(rows_view(sequence@), s),
    {
        self.forward_propagate(sequence, None);
        slice_subrange(self.outputs.as_slice(), 0, sequence.len())
    }
}

} // verus!
