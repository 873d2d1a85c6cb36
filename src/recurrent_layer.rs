use vstd::prelude::*;

use crate::activation::ActivationFunctionType;
use crate::dense::{copied, rows_view, step_weights, stepped_biases, stepped_weights, zeros, zeros_spec, DenseLayer};
use crate::rnn::{
    averaged, def_built, def_callable, def_chain, grown_len, lemma_stack_gradient_ignores_gradients, lemma_stack_gradient_len,
    same_but_gradients, stack_gradient, stack_gradients, stack_output, store_step, RecurrentTree, RecurrentTreeLayerDef,
};
use crate::scalar::Scalar;

verus! {

/// The first `k` entries of every row of `m`.
pub open spec fn leading_columns<W>(m: Seq<Seq<W>>, k: nat) -> Seq<Seq<W>> {
    Seq::new(m.len(), |n: int| m[n].subrange(0, k as int))
}

fn leading_columns_of<W: Scalar>(m: &Vec<Vec<W>>, k: usize) -> (r: Vec<Vec<W>>)
    requires
        forall|n: int| 0 <= n < m@.len() ==> #[trigger] m@[n]@.len() >= k,
    ensures
        rows_view(r@) == leading_columns(rows_view(m@), k as nat),
{
    let mut r: Vec<Vec<W>> = Vec::new();
    for n in 0..m.len()
        invariant
            r@.len() == n,
            n <= m@.len(),
            forall|i: int| 0 <= i < m@.len() ==> #[trigger] m@[i]@.len() >= k,
            forall|i: int| 0 <= i < n ==> (#[trigger] r@[i])@ == m@[i]@.subrange(0, k as int),
    {
        let row = &m[n];
        let mut out: Vec<W> = Vec::new();
        for i in 0..k
            invariant
                row@.len() >= k,
                out@ == row@.subrange(0, i as int),
        {
            out.push(row[i]);
            assert(out@ =~= row@.subrange(0, i + 1));
        }
        r.push(out);
    }
    assert(rows_view(r@) =~= leading_columns(rows_view(m@), k as nat));
    r
}

/// `(a[n] + b[n]) / 2` for each `n`, as `averaged` states it.
fn average_of<W: Scalar>(a: &[W], b: &[W]) -> (r: Vec<W>)
    requires
        b@.len() >= a@.len(),
    ensures
        r@ == averaged(a@, b@),
{
    let two = W::from_count(2);
    let mut r: Vec<W> = Vec::new();
    for i in 0..a.len()
        invariant
            b@.len() >= a@.len(),
            two == W::spec_of_count(2),
            r@.len() == i,
            forall|k: int| 0 <= k < i ==> #[trigger] r@[k] == averaged(a@, b@)[k],
    {
        r.push(a[i].plus(b[i]).divided(two));
    }
    assert(r@ =~= averaged(a@, b@));
    r
}

/// `n` empty vectors, to be filled by index.
fn empty_rows<W>(n: usize) -> (r: Vec<Vec<W>>)
    ensures
        r@.len() == n,
{
    let mut r: Vec<Vec<W>> = Vec::new();
    for i in 0..n
        invariant
            r@.len() == i,
    {
        r.push(Vec::new());
    }
    r
}

/// A recurrent layer: a persistent state, a recurrent tree that maps
/// `[state ++ input]` to the next state, and an output tree that maps the same
/// combined input to this step's output. Keeps what each step saw, for the
/// backward pass through time.
pub struct RecurrentLayer<W: Scalar> {
    pub state: Vec<W>,
    pub recurrent_tree: RecurrentTree<W>,
    pub output_tree: DenseLayer<W>,
    pub combined_inputs_scratch: Vec<W>,
    /// The external input of each step.
    pub sequence_inputs: Vec<Vec<W>>,
    /// The state as it was entering each step.
    pub prev_states: Vec<Vec<W>>,
    /// The recurrent tree's first-layer gradients of each step.
    pub computed_recurrent_gradients: Vec<Vec<W>>,
    /// The output tree's gradients of each step.
    pub computed_output_gradients: Vec<Vec<W>>,
}

impl<W: Scalar> RecurrentLayer<W> {
    pub open spec fn state_size(&self) -> nat {
        self.state@.len()
    }

    /// The width of the external input of each step.
    pub open spec fn input_count(&self) -> nat {
        (self.combined_inputs_scratch@.len() - self.state@.len()) as nat
    }

    /// Both trees take `[state ++ input]`, and the recurrent tree yields a new state.
    pub open spec fn wf(&self) -> bool {
        &&& self.recurrent_tree.wf()
        &&& self.output_tree.wf()
        &&& self.output_tree.neuron_count() > 0
        &&& self.recurrent_tree.input_count() == self.combined_inputs_scratch@.len()
        &&& self.output_tree.input_count() == self.combined_inputs_scratch@.len()
        &&& self.recurrent_tree.output_count() == self.state@.len()
        &&& self.state@.len() <= self.combined_inputs_scratch@.len()
    }

    /// The new state the recurrent tree computes from `combined`.
    pub open spec fn next_state(&self, combined: Seq<W>) -> Seq<W> {
        stack_output(self.recurrent_tree.layers@, combined, self.recurrent_tree.depth())
    }

    /// Builds a layer with a zero state, a recurrent tree from `recurrent_tree_def`
    /// and an output tree of `output_count` neurons.
    pub fn new<FW: Fn(usize, usize) -> W, FB: Fn(usize) -> W, GW: Fn(usize, usize) -> W, GB: Fn(usize) -> W>(
        output_count: usize,
        input_count: usize,
        recurrent_tree_def: Vec<RecurrentTreeLayerDef<FW, FB>>,
        init_output_weights: &GW,
        init_output_biases: &GB,
        output_activation_fn: ActivationFunctionType,
        state_size: usize,
    ) -> (r: Self)
        requires
            input_count + state_size <= usize::MAX,
            output_count > 0,
            def_chain(recurrent_tree_def@),
            recurrent_tree_def@[0].input_count == input_count + state_size,
            recurrent_tree_def@[recurrent_tree_def@.len() - 1].output_count == state_size,
            forall|l: int|
                0 <= l < recurrent_tree_def@.len() ==> def_callable::<W, FW, FB>(#[trigger] recurrent_tree_def@[l]),
            forall|n: usize, i: usize|
                n < output_count && i < input_count + state_size ==> init_output_weights.requires((n, i)),
            forall|n: usize| n < output_count ==> init_output_biases.requires((n,)),
        ensures
            r.wf(),
            r.state@ == zeros_spec::<W>(state_size as nat),
            r.input_count() == input_count,
            r.output_tree.neuron_count() == output_count,
            r.output_tree.activation_fn == output_activation_fn,
            r.recurrent_tree.depth() == recurrent_tree_def@.len(),
            forall|l: int|
                0 <= l < recurrent_tree_def@.len() ==> def_built(recurrent_tree_def@[l], #[trigger] r.recurrent_tree.layers@[l]),
            forall|n: int, i: int|
                0 <= n < output_count && 0 <= i < input_count + state_size ==> init_output_weights.ensures(
                    (n as usize, i as usize),
                    #[trigger] r.output_tree.weights@[n]@[i],
                ),
            forall|n: int| 0 <= n < output_count ==> init_output_biases.ensures((n as usize,), #[trigger] r.output_tree.biases@[n]),
            r.sequence_inputs@.len() == 0,
            r.prev_states@.len() == 0,
            r.computed_recurrent_gradients@.len() == 0,
            r.computed_output_gradients@.len() == 0,
    {
        let recurrent_tree = RecurrentTree::new(recurrent_tree_def);
        let output_tree = DenseLayer::new(
            output_count,
            input_count + state_size,
            init_output_weights,
            init_output_biases,
            output_activation_fn,
        );
        RecurrentLayer {
            state: zeros(state_size),
            recurrent_tree,
            output_tree,
            combined_inputs_scratch: zeros(input_count + state_size),
            sequence_inputs: Vec::new(),
            prev_states: Vec::new(),
            computed_recurrent_gradients: Vec::new(),
            computed_output_gradients: Vec::new(),
        }
    }

    /// Sets the state back to zero, as at the start of every sequence.
    pub fn reset(&mut self)
        ensures
            final(self).state@ == zeros_spec::<W>(old(self).state@.len()),
            final(self).recurrent_tree == old(self).recurrent_tree,
            final(self).output_tree == old(self).output_tree,
            final(self).combined_inputs_scratch == old(self).combined_inputs_scratch,
            final(self).sequence_inputs == old(self).sequence_inputs,
            final(self).prev_states == old(self).prev_states,
            final(self).computed_recurrent_gradients == old(self).computed_recurrent_gradients,
            final(self).computed_output_gradients == old(self).computed_output_gradients,
    {
        self.state = zeros(self.state.len());
    }

    /// One step: builds `[state ++ inputs]`, feeds it to the output tree and to
    /// the recurrent tree (recording step `index_in_sequence`), records the
    /// state and inputs of the step, and takes the recurrent tree's outputs as
    /// the new state.
    pub fn forward_propagate(&mut self, inputs: &[W], index_in_sequence: usize)
        requires
            old(self).wf(),
            inputs@.len() == old(self).input_count(),
            index_in_sequence <= old(self).prev_states@.len(),
            index_in_sequence <= old(self).sequence_inputs@.len(),
        ensures
            final(self).wf(),
            final(self).combined_inputs_scratch@ == old(self).state@ + inputs@,
            final(self).output_tree.same_parameters(&old(self).output_tree),
            final(self).output_tree.neuron_gradients == old(self).output_tree.neuron_gradients,
            final(self).output_tree.outputs_before_activation@ == old(self).output_tree.pre_activations(
                old(self).state@ + inputs@,
            ),
            final(self).output_tree.outputs@ == old(self).output_tree.activated(
                final(self).output_tree.outputs_before_activation@,
            ),
            final(self).recurrent_tree.depth() == old(self).recurrent_tree.depth(),
            forall|l: int|
                0 <= l < final(self).recurrent_tree.depth() ==> (#[trigger] final(self).recurrent_tree.layers@[l]).same_parameters(
                    &old(self).recurrent_tree.layers@[l],
                ),
            forall|l: int|
                0 <= l < final(self).recurrent_tree.depth() ==> (#[trigger] final(self).recurrent_tree.layers@[l]).outputs@
                    == stack_output(old(self).recurrent_tree.layers@, old(self).state@ + inputs@, (l + 1) as nat),
            final(self).state@ == old(self).next_state(old(self).state@ + inputs@),
            final(self).prev_states@.len() == grown_len(old(self).prev_states@.len(), index_in_sequence as nat),
            final(self).prev_states@[index_in_sequence as int]@ == old(self).state@,
            forall|s: int|
                0 <= s < old(self).prev_states@.len() && s != index_in_sequence ==> #[trigger] final(self).prev_states@[s]
                    == old(self).prev_states@[s],
            final(self).sequence_inputs@.len() == grown_len(
                old(self).sequence_inputs@.len(),
                index_in_sequence as nat,
            ),
            final(self).sequence_inputs@[index_in_sequence as int]@ == inputs@,
            forall|s: int|
                0 <= s < old(self).sequence_inputs@.len() && s != index_in_sequence
                    ==> #[trigger] final(self).sequence_inputs@[s] == old(self).sequence_inputs@[s],
            final(self).computed_recurrent_gradients == old(self).computed_recurrent_gradients,
            final(self).computed_output_gradients == old(self).computed_output_gradients,
            final(self).recurrent_tree.neuron_gradients_by_layer_by_step_ix
                == old(self).recurrent_tree.neuron_gradients_by_layer_by_step_ix,
            final(self).recurrent_tree.layer_outputs_by_layer_by_step_ix@.len() == grown_len(
                old(self).recurrent_tree.layer_outputs_by_layer_by_step_ix@.len(),
                index_in_sequence as nat,
            ),
            forall|s: int|
                0 <= s < old(self).recurrent_tree.layer_outputs_by_layer_by_step_ix@.len() && s != index_in_sequence
                    ==> #[trigger] final(self).recurrent_tree.layer_outputs_by_layer_by_step_ix@[s]
                    == old(self).recurrent_tree.layer_outputs_by_layer_by_step_ix@[s],
            final(self).recurrent_tree.snapshot_fits(
                rows_view(final(self).recurrent_tree.layer_outputs_by_layer_by_step_ix@[index_in_sequence as int]@),
            ),
    {
        let mut combined = copied(self.state.as_slice());
        for i in 0..inputs.len()
            invariant
                combined@ == old(self).state@ + inputs@.subrange(0, i as int),
        {
            combined.push(inputs[i]);
            assert(combined@ =~= old(self).state@ + inputs@.subrange(0, i + 1));
        }
        assert(combined@ =~= old(self).state@ + inputs@);
        self.combined_inputs_scratch = combined;
        self.output_tree.forward_propagate(self.combined_inputs_scratch.as_slice());
        self.recurrent_tree.forward_propagate(self.combined_inputs_scratch.as_slice(), index_in_sequence);
        let previous = copied(self.state.as_slice());
        store_step(&mut self.prev_states, index_in_sequence, previous);
        store_step(&mut self.sequence_inputs, index_in_sequence, copied(inputs));
        let depth = self.recurrent_tree.layers.len();
        assert(self.recurrent_tree.layers@[depth - 1].outputs@ == old(self).next_state(old(self).state@ + inputs@));
        self.state = copied(self.recurrent_tree.outputs());
        assert(self.recurrent_tree.layers@[depth - 1].wf());
        assert forall|l: int| 0 <= l < self.recurrent_tree.depth() implies (#[trigger] rows_view(
            self.recurrent_tree.layer_outputs_by_layer_by_step_ix@[index_in_sequence as int]@,
        )[l]).len() == self.recurrent_tree.layers@[l].neuron_count() by {
            assert(self.recurrent_tree.layers@[l].wf());
            assert(self.recurrent_tree.layer_outputs()[l] == self.recurrent_tree.layers@[l].outputs@);
        }
    }

    /// The output tree's gradients at step `s`, from the consumer's weights
    /// `oow` and its gradients `ogs[s]` at that step.
    pub open spec fn output_gradient_at(&self, oow: Seq<Seq<W>>, ogs: Seq<Seq<W>>, s: int) -> Seq<W> {
        self.output_tree.gradients_from(oow, ogs[s])
    }

    /// The output tree's weights on the state part of its input.
    pub open spec fn state_to_output_weights(&self) -> Seq<Seq<W>> {
        leading_columns(rows_view(self.output_tree.weights@), self.state_size())
    }

    /// The recurrent tree's first-layer weights on the state part of its input.
    pub open spec fn state_to_tree_weights(&self) -> Seq<Seq<W>> {
        leading_columns(rows_view(self.recurrent_tree.layers@[0].weights@), self.state_size())
    }

    /// The recurrent tree's gradients at step `s` through the output tree:
    /// the next step's output-tree gradients sent back through the output
    /// tree's state weights.
    pub open spec fn via_output(&self, oow: Seq<Seq<W>>, ogs: Seq<Seq<W>>, s: int) -> Seq<Seq<W>> {
        stack_gradients(
            self.recurrent_tree.layers@,
            self.state_to_output_weights(),
            self.output_gradient_at(oow, ogs, s + 1),
        )
    }

    /// The recurrent tree's first-layer gradients at step `s` of a sequence of
    /// `len` steps: zero at the last step; before it, the average of the path
    /// through the output tree and the path through the tree's own state
    /// weights at the next step.
    pub open spec fn recurrent_gradient_at(&self, oow: Seq<Seq<W>>, ogs: Seq<Seq<W>>, len: int, s: int) -> Seq<W>
        decreases len - s,
    {
        if s >= len - 1 {
            zeros_spec(self.recurrent_tree.layers@[0].neuron_count())
        } else {
            averaged(
                self.via_output(oow, ogs, s)[0],
                stack_gradients(
                    self.recurrent_tree.layers@,
                    self.state_to_tree_weights(),
                    self.recurrent_gradient_at(oow, ogs, len, s + 1),
                )[0],
            )
        }
    }

    /// The recurrent tree's gradients at step `s` through time: the next
    /// step's first-layer gradients sent back through the tree's state weights.
    pub open spec fn via_time(&self, oow: Seq<Seq<W>>, ogs: Seq<Seq<W>>, len: int, s: int) -> Seq<Seq<W>> {
        stack_gradients(
            self.recurrent_tree.layers@,
            self.state_to_tree_weights(),
            self.recurrent_gradient_at(oow, ogs, len, s + 1),
        )
    }

    /// Back-propagation through time over the first `sequence_len` steps, from
    /// the last step back to the first. `output_output_weights` are the weights
    /// of the layer that consumes this layer's outputs, and
    /// `output_gradient_of_output_neurons[s]` its gradients at step `s`. Fills
    /// the output-tree and recurrent-tree gradients of every step, and the
    /// recurrent tree's gradient snapshot of every step but the last.
    pub fn compute_gradients(
        &mut self,
        output_output_weights: &[Vec<W>],
        output_gradient_of_output_neurons: &[Vec<W>],
        sequence_len: usize,
    )
        requires
            old(self).wf(),
            0 < sequence_len <= output_gradient_of_output_neurons@.len(),
            forall|s: int|
                0 <= s < sequence_len ==> (#[trigger] output_gradient_of_output_neurons@[s])@.len()
                    == output_output_weights@.len(),
            forall|j: int|
                0 <= j < output_output_weights@.len() ==> #[trigger] output_output_weights@[j]@.len()
                    >= old(self).output_tree.neuron_count(),
        ensures
            final(self).wf(),
            final(self).state == old(self).state,
            final(self).combined_inputs_scratch == old(self).combined_inputs_scratch,
            final(self).sequence_inputs == old(self).sequence_inputs,
            final(self).prev_states == old(self).prev_states,
            same_but_gradients(final(self).output_tree, old(self).output_tree),
            final(self).recurrent_tree.same_layers_but_gradients(&old(self).recurrent_tree),
            final(self).recurrent_tree.layer_outputs_by_layer_by_step_ix
                == old(self).recurrent_tree.layer_outputs_by_layer_by_step_ix,
            final(self).computed_output_gradients@.len() == sequence_len,
            forall|s: int|
                0 <= s < sequence_len ==> (#[trigger] final(self).computed_output_gradients@[s])@
                    == old(self).output_gradient_at(
                    rows_view(output_output_weights@),
                    rows_view(output_gradient_of_output_neurons@),
                    s,
                ),
            final(self).computed_recurrent_gradients@.len() == sequence_len,
            forall|s: int|
                0 <= s < sequence_len ==> (#[trigger] final(self).computed_recurrent_gradients@[s])@
                    == old(self).recurrent_gradient_at(
                    rows_view(output_output_weights@),
                    rows_view(output_gradient_of_output_neurons@),
                    sequence_len as int,
                    s,
                ),
            final(self).recurrent_tree.neuron_gradients_by_layer_by_step_ix@.len() >= sequence_len - 1,
            forall|s: int|
                0 <= s < sequence_len - 1 ==> rows_view(
                    (#[trigger] final(self).recurrent_tree.neuron_gradients_by_layer_by_step_ix@[s])@,
                ) == Seq::new(
                    old(self).recurrent_tree.depth(),
                    |l: int|
                        averaged(
                            old(self).via_output(
                                rows_view(output_output_weights@),
                                rows_view(output_gradient_of_output_neurons@),
                                s,
                            )[l],
                            old(self).via_time(
                                rows_view(output_output_weights@),
                                rows_view(output_gradient_of_output_neurons@),
                                sequence_len as int,
                                s,
                            )[l],
                        ),
                ),
    {
        let ghost base = *self;
        let ghost oow = rows_view(output_output_weights@);
        let ghost ogs = rows_view(output_gradient_of_output_neurons@);
        let ghost len = sequence_len as int;
        let state_size = self.state.len();
        let ghost depth = self.recurrent_tree.depth();
        assert(self.recurrent_tree.layers@[0].wf());
        assert forall|n: int| 0 <= n < self.recurrent_tree.layers@[0].weights@.len() implies
            #[trigger] self.recurrent_tree.layers@[0].weights@[n]@.len() >= state_size by {}
        let state_to_tree = leading_columns_of(self.recurrent_tree.first_layer_weights(), state_size);
        let state_to_output = leading_columns_of(&self.output_tree.weights, state_size);
        assert(rows_view(state_to_tree@) == old(self).state_to_tree_weights());
        assert(rows_view(state_to_output@) == old(self).state_to_output_weights());
        let mut outs = empty_rows(sequence_len);
        let mut recs = empty_rows(sequence_len);
        let last = sequence_len - 1;
        self.output_tree.compute_gradients(output_output_weights, &output_gradient_of_output_neurons[last]);
        assert(output_gradient_of_output_neurons@[last as int]@ == ogs[last as int]);
        outs[last] = copied(self.output_tree.neuron_gradients.as_slice());
        recs[last] = zeros(self.recurrent_tree.layers[0].neuron_gradients.len());
        let mut s = last;
        while s > 0
            invariant
                s <= last,
                last == sequence_len - 1,
                len == sequence_len,
                state_size == old(self).state_size(),
                oow == rows_view(output_output_weights@),
                ogs == rows_view(output_gradient_of_output_neurons@),
                base == *old(self),
                depth == old(self).recurrent_tree.depth(),
                rows_view(state_to_tree@) == old(self).state_to_tree_weights(),
                rows_view(state_to_output@) == old(self).state_to_output_weights(),
                old(self).wf(),
                self.wf(),
                0 < sequence_len <= output_gradient_of_output_neurons@.len(),
                forall|t: int|
                    0 <= t < sequence_len ==> (#[trigger] output_gradient_of_output_neurons@[t])@.len()
                        == output_output_weights@.len(),
                forall|j: int|
                    0 <= j < output_output_weights@.len() ==> #[trigger] output_output_weights@[j]@.len()
                        >= old(self).output_tree.neuron_count(),
                self.state == old(self).state,
                self.combined_inputs_scratch == old(self).combined_inputs_scratch,
                self.sequence_inputs == old(self).sequence_inputs,
                self.prev_states == old(self).prev_states,
                self.computed_output_gradients == old(self).computed_output_gradients,
                self.computed_recurrent_gradients == old(self).computed_recurrent_gradients,
                same_but_gradients(self.output_tree, old(self).output_tree),
                self.recurrent_tree.same_layers_but_gradients(&old(self).recurrent_tree),
                self.recurrent_tree.layer_outputs_by_layer_by_step_ix
                    == old(self).recurrent_tree.layer_outputs_by_layer_by_step_ix,
                self.output_tree.neuron_gradients@ == old(self).output_gradient_at(oow, ogs, s as int),
                outs@.len() == sequence_len,
                recs@.len() == sequence_len,
                forall|t: int| s <= t < len ==> (#[trigger] outs@[t])@ == old(self).output_gradient_at(oow, ogs, t),
                forall|t: int|
                    s <= t < len ==> (#[trigger] recs@[t])@ == old(self).recurrent_gradient_at(oow, ogs, len, t),
                s < last ==> self.recurrent_tree.neuron_gradients_by_layer_by_step_ix@.len() >= last,
                forall|t: int|
                    s <= t < last ==> rows_view(
                        (#[trigger] self.recurrent_tree.neuron_gradients_by_layer_by_step_ix@[t])@,
                    ) == Seq::new(
                        depth,
                        |l: int| averaged(old(self).via_output(oow, ogs, t)[l], old(self).via_time(oow, ogs, len, t)[l]),
                    ),
            decreases s,
        {
            s = s - 1;
            let combined = self.step_back(
                &state_to_output,
                &state_to_tree,
                &outs[s + 1],
                &recs[s + 1],
                s,
                Ghost(base),
                Ghost(oow),
                Ghost(ogs),
                Ghost(len),
            );
            recs[s] = combined;
            self.output_tree.compute_gradients(output_output_weights, &output_gradient_of_output_neurons[s]);
            outs[s] = copied(self.output_tree.neuron_gradients.as_slice());
        }
        self.computed_output_gradients = outs;
        self.computed_recurrent_gradients = recs;
    }

    /// One step of the backward pass through time at step `s` (not the last):
    /// the recurrent tree's gradients through the output tree, stored as the
    /// snapshot of step `s`, then through the tree's own state weights,
    /// averaged into that snapshot. Returns the average of the two first-layer
    /// gradients.
    fn step_back(
        &mut self,
        state_to_output: &Vec<Vec<W>>,
        state_to_tree: &Vec<Vec<W>>,
        next_output_gradients: &Vec<W>,
        next_recurrent_gradients: &Vec<W>,
        s: usize,
        Ghost(base): Ghost<Self>,
        Ghost(oow): Ghost<Seq<Seq<W>>>,
        Ghost(ogs): Ghost<Seq<Seq<W>>>,
        Ghost(len): Ghost<int>,
    ) -> (r: Vec<W>)
        requires
            old(self).wf(),
            base.wf(),
            old(self).state == base.state,
            same_but_gradients(old(self).output_tree, base.output_tree),
            old(self).recurrent_tree.same_layers_but_gradients(&base.recurrent_tree),
            rows_view(state_to_output@) == base.state_to_output_weights(),
            rows_view(state_to_tree@) == base.state_to_tree_weights(),
            s + 1 < len,
            next_output_gradients@ == base.output_gradient_at(oow, ogs, s + 1),
            next_recurrent_gradients@ == base.recurrent_gradient_at(oow, ogs, len, s + 1),
        ensures
            r@ == base.recurrent_gradient_at(oow, ogs, len, s as int),
            final(self).wf(),
            final(self).recurrent_tree.same_layers_but_gradients(&base.recurrent_tree),
            final(self).recurrent_tree.layer_outputs_by_layer_by_step_ix
                == old(self).recurrent_tree.layer_outputs_by_layer_by_step_ix,
            final(self).recurrent_tree.neuron_gradients_by_layer_by_step_ix@.len() == grown_len(
                old(self).recurrent_tree.neuron_gradients_by_layer_by_step_ix@.len(),
                s as nat,
            ),
            forall|t: int|
                0 <= t < old(self).recurrent_tree.neuron_gradients_by_layer_by_step_ix@.len() && t != s
                    ==> #[trigger] final(self).recurrent_tree.neuron_gradients_by_layer_by_step_ix@[t]
                    == old(self).recurrent_tree.neuron_gradients_by_layer_by_step_ix@[t],
            rows_view(final(self).recurrent_tree.neuron_gradients_by_layer_by_step_ix@[s as int]@) == Seq::new(
                base.recurrent_tree.depth(),
                |l: int| averaged(base.via_output(oow, ogs, s as int)[l], base.via_time(oow, ogs, len, s as int)[l]),
            ),
            final(self).output_tree == old(self).output_tree,
            final(self).state == old(self).state,
            final(self).combined_inputs_scratch == old(self).combined_inputs_scratch,
            final(self).sequence_inputs == old(self).sequence_inputs,
            final(self).prev_states == old(self).prev_states,
            final(self).computed_output_gradients == old(self).computed_output_gradients,
            final(self).computed_recurrent_gradients == old(self).computed_recurrent_gradients,
    {
        let ghost layers0 = self.recurrent_tree.layers@;
        let ghost base_layers = base.recurrent_tree.layers@;
        let ghost depth = base.recurrent_tree.depth();
        let ghost sto = base.state_to_output_weights();
        let ghost stt = base.state_to_tree_weights();
        let ghost next_out = base.output_gradient_at(oow, ogs, s + 1);
        let ghost next_rec = base.recurrent_gradient_at(oow, ogs, len, s + 1);
        proof {
            assert(base.recurrent_tree.layers@[0].wf());
            assert(state_to_output@.len() == rows_view(state_to_output@).len());
            assert(state_to_tree@.len() == rows_view(state_to_tree@).len());
            assert(state_to_output@.len() == base.output_tree.weights@.len());
            assert(state_to_tree@.len() == base_layers[0].weights@.len());
            assert forall|j: int| 0 <= j < state_to_output@.len() implies #[trigger] state_to_output@[j]@.len()
                >= old(self).recurrent_tree.output_count() by {
                assert(state_to_output@[j]@ == rows_view(state_to_output@)[j]);
                assert(base.output_tree.weights@[j]@.len() == base.output_tree.input_count());
                assert(rows_view(base.output_tree.weights@)[j] == base.output_tree.weights@[j]@);
            }
            assert forall|j: int| 0 <= j < state_to_tree@.len() implies #[trigger] state_to_tree@[j]@.len()
                >= old(self).recurrent_tree.output_count() by {
                assert(state_to_tree@[j]@ == rows_view(state_to_tree@)[j]);
                assert(base_layers[0].weights@[j]@.len() == base_layers[0].input_count());
                assert(rows_view(base_layers[0].weights@)[j] == base_layers[0].weights@[j]@);
            }
            lemma_stack_gradient_len(base_layers, sto, next_out, 0);
            if s + 1 < len - 1 {
                lemma_stack_gradient_len(base_layers, sto, base.output_gradient_at(oow, ogs, s + 2), 0);
            }
            assert(next_rec.len() == base_layers[0].neuron_count());
        }
        self.recurrent_tree.compute_gradients(
            state_to_output.as_slice(),
            next_output_gradients.as_slice(),
            s,
            false,
        );
        let ghost layers1 = self.recurrent_tree.layers@;
        proof {
            assert forall|l: int| 0 <= l < depth implies stack_gradient(layers0, sto, next_out, l) == stack_gradient(
                base_layers,
                sto,
                next_out,
                l,
            ) && (#[trigger] stack_gradient(base_layers, sto, next_out, l)).len() == base_layers[l].neuron_count() by {
                lemma_stack_gradient_ignores_gradients(layers0, base_layers, sto, next_out, l);
                lemma_stack_gradient_len(base_layers, sto, next_out, l);
            }
            assert(rows_view(self.recurrent_tree.neuron_gradients_by_layer_by_step_ix@[s as int]@)
                =~= stack_gradients(base_layers, sto, next_out));
        }
        let a = copied(self.recurrent_tree.neuron_gradients());
        self.recurrent_tree.compute_gradients(
            state_to_tree.as_slice(),
            next_recurrent_gradients.as_slice(),
            s,
            true,
        );
        proof {
            assert forall|l: int| 0 <= l < depth implies stack_gradient(layers1, stt, next_rec, l) == stack_gradient(
                base_layers,
                stt,
                next_rec,
                l,
            ) && (#[trigger] stack_gradient(base_layers, stt, next_rec, l)).len() == base_layers[l].neuron_count() by {
                lemma_stack_gradient_ignores_gradients(layers1, base_layers, stt, next_rec, l);
                lemma_stack_gradient_len(base_layers, stt, next_rec, l);
            }
            assert(rows_view(self.recurrent_tree.neuron_gradients_by_layer_by_step_ix@[s as int]@) =~= Seq::new(
                depth,
                |l: int| averaged(base.via_output(oow, ogs, s as int)[l], base.via_time(oow, ogs, len, s as int)[l]),
            ));
            assert(a@ == base.via_output(oow, ogs, s as int)[0]);
            assert(self.recurrent_tree.layer_gradients()[0] == self.recurrent_tree.layers@[0].neuron_gradients@);
            assert(stack_gradients(layers1, stt, next_rec)[0] == stack_gradient(layers1, stt, next_rec, 0));
            assert(stack_gradient(base_layers, stt, next_rec, 0) == base.via_time(oow, ogs, len, s as int)[0]);
            assert(self.recurrent_tree.layers@[0].neuron_gradients@ == base.via_time(oow, ogs, len, s as int)[0]);
        }
        average_of(a.as_slice(), self.recurrent_tree.neuron_gradients())
    }

    /// The combined input of step `s` as the backward pass rebuilds it: a zero
    /// state at the first step, the recorded entering state otherwise, followed
    /// by the step's recorded external input.
    pub open spec fn step_input(&self, s: int) -> Seq<W> {
        (if s == 0 {
            zeros_spec(self.state_size())
        } else {
            self.prev_states@[s]@
        }) + self.sequence_inputs@[s]@
    }

    /// The output tree's weights after the gradient steps of the first `k`
    /// steps, starting from `start`.
    pub open spec fn output_weights_after(&self, start: Seq<Seq<W>>, learning_rate: W, k: nat) -> Seq<Seq<W>>
        decreases k,
    {
        if k == 0 {
            start
        } else {
            stepped_weights(
                self.output_weights_after(start, learning_rate, (k - 1) as nat),
                self.computed_output_gradients@[k - 1]@,
                self.step_input(k - 1),
                learning_rate,
            )
        }
    }

    /// The weights of layer `l` of the recurrent tree after the gradient steps
    /// of the first `k` steps of a sequence of `len` steps (the last step takes
    /// none), starting from `start`.
    pub open spec fn tree_weights_after(
        &self,
        l: int,
        start: Seq<Seq<W>>,
        learning_rate: W,
        len: nat,
        k: nat,
    ) -> Seq<Seq<W>>
        decreases k,
    {
        if k == 0 {
            start
        } else if k - 1 == len - 1 {
            self.tree_weights_after(l, start, learning_rate, len, (k - 1) as nat)
        } else {
            stepped_weights(
                self.tree_weights_after(l, start, learning_rate, len, (k - 1) as nat),
                self.recurrent_tree.neuron_gradients_by_layer_by_step_ix@[k - 1]@[l]@,
                self.recurrent_tree.step_layer_input(self.step_input(k - 1), k - 1, l),
                learning_rate,
            )
        }
    }

    /// Everything the backward pass recorded covers the first `sequence_len` steps.
    pub open spec fn history_covers(&self, sequence_len: nat) -> bool {
        &&& sequence_len <= self.prev_states@.len()
        &&& sequence_len <= self.sequence_inputs@.len()
        &&& sequence_len <= self.computed_output_gradients@.len()
        &&& forall|s: int| 1 <= s < sequence_len ==> (#[trigger] self.prev_states@[s])@.len() == self.state_size()
        &&& forall|s: int| 0 <= s < sequence_len ==> (#[trigger] self.sequence_inputs@[s])@.len() == self.input_count()
        &&& forall|s: int|
            0 <= s < sequence_len ==> (#[trigger] self.computed_output_gradients@[s])@.len()
                == self.output_tree.neuron_count()
        &&& forall|s: int|
            0 <= s < sequence_len - 1 ==> {
                &&& s < self.recurrent_tree.neuron_gradients_by_layer_by_step_ix@.len()
                &&& s < self.recurrent_tree.layer_outputs_by_layer_by_step_ix@.len()
                &&& self.recurrent_tree.snapshot_fits(
                    rows_view((#[trigger] self.recurrent_tree.neuron_gradients_by_layer_by_step_ix@[s])@),
                )
                &&& self.recurrent_tree.snapshot_fits(
                    rows_view(self.recurrent_tree.layer_outputs_by_layer_by_step_ix@[s]@),
                )
            }
    }

    /// Two layers with the same records of a sequence agree on the weights
    /// its gradient steps lead to.
    pub proof fn lemma_same_records(&self, other: &Self, start: Seq<Seq<W>>, l: int, learning_rate: W, len: nat, k: nat)
        requires
            self.state@.len() == other.state@.len(),
            self.prev_states == other.prev_states,
            self.sequence_inputs == other.sequence_inputs,
            self.computed_output_gradients == other.computed_output_gradients,
            self.recurrent_tree.neuron_gradients_by_layer_by_step_ix
                == other.recurrent_tree.neuron_gradients_by_layer_by_step_ix,
            self.recurrent_tree.layer_outputs_by_layer_by_step_ix
                == other.recurrent_tree.layer_outputs_by_layer_by_step_ix,
        ensures
            self.output_weights_after(start, learning_rate, k) == other.output_weights_after(start, learning_rate, k),
            self.tree_weights_after(l, start, learning_rate, len, k) == other.tree_weights_after(
                l,
                start,
                learning_rate,
                len,
                k,
            ),
        decreases k,
    {
        if k > 0 {
            self.lemma_same_records(other, start, l, learning_rate, len, (k - 1) as nat);
            assert(self.step_input(k - 1) == other.step_input(k - 1));
        }
    }

    /// Builds the combined input of step `s`, as `step_input` states it.
    fn build_step_input(&self, s: usize) -> (r: Vec<W>)
        requires
            s < self.prev_states@.len(),
            s < self.sequence_inputs@.len(),
        ensures
            r@ == self.step_input(s as int),
    {
        let mut r = if s == 0 {
            zeros(self.state.len())
        } else {
            copied(self.prev_states[s].as_slice())
        };
        let inputs = &self.sequence_inputs[s];
        let ghost head = r@;
        for i in 0..inputs.len()
            invariant
                r@ == head + inputs@.subrange(0, i as int),
        {
            r.push(inputs[i]);
            assert(r@ =~= head + inputs@.subrange(0, i + 1));
        }
        assert(r@ =~= self.step_input(s as int));
        r
    }

    /// Applies the gradient step of every one of the first `sequence_len`
    /// steps: to the output tree with that step's output-tree gradients, and to
    /// the recurrent tree with its snapshot of that step, each on the step's
    /// rebuilt combined input.
    pub fn update_weights(&mut self, learning_rate: W, sequence_len: usize)
        requires
            old(self).wf(),
            old(self).history_covers(sequence_len as nat),
        ensures
            final(self).wf(),
            final(self).state == old(self).state,
            final(self).combined_inputs_scratch == old(self).combined_inputs_scratch,
            final(self).sequence_inputs == old(self).sequence_inputs,
            final(self).prev_states == old(self).prev_states,
            final(self).computed_output_gradients == old(self).computed_output_gradients,
            final(self).computed_recurrent_gradients == old(self).computed_recurrent_gradients,
            final(self).output_tree.biases == old(self).output_tree.biases,
            final(self).output_tree.activation_fn == old(self).output_tree.activation_fn,
            final(self).output_tree.neuron_gradients == old(self).output_tree.neuron_gradients,
            final(self).output_tree.outputs == old(self).output_tree.outputs,
            final(self).output_tree.outputs_before_activation == old(self).output_tree.outputs_before_activation,
            rows_view(final(self).output_tree.weights@) == old(self).output_weights_after(
                rows_view(old(self).output_tree.weights@),
                learning_rate,
                sequence_len as nat,
            ),
            final(self).recurrent_tree.depth() == old(self).recurrent_tree.depth(),
            final(self).recurrent_tree.neuron_gradients_by_layer_by_step_ix
                == old(self).recurrent_tree.neuron_gradients_by_layer_by_step_ix,
            final(self).recurrent_tree.layer_outputs_by_layer_by_step_ix
                == old(self).recurrent_tree.layer_outputs_by_layer_by_step_ix,
            forall|l: int|
                0 <= l < final(self).recurrent_tree.depth() ==> rows_view(
                    (#[trigger] final(self).recurrent_tree.layers@[l]).weights@,
                ) == old(self).tree_weights_after(
                    l,
                    rows_view(old(self).recurrent_tree.layers@[l].weights@),
                    learning_rate,
                    sequence_len as nat,
                    sequence_len as nat,
                ),
            forall|l: int|
                0 <= l < final(self).recurrent_tree.depth() ==> {
                    let layer = #[trigger] final(self).recurrent_tree.layers@[l];
                    let was = old(self).recurrent_tree.layers@[l];
                    &&& layer.biases == was.biases
                    &&& layer.activation_fn == was.activation_fn
                    &&& layer.outputs == was.outputs
                    &&& layer.outputs_before_activation == was.outputs_before_activation
                },
    {
        let ghost len = sequence_len as nat;
        for s in 0..sequence_len
            invariant
                len == sequence_len,
                old(self).wf(),
                old(self).history_covers(len),
                self.wf(),
                self.state == old(self).state,
                self.combined_inputs_scratch == old(self).combined_inputs_scratch,
                self.sequence_inputs == old(self).sequence_inputs,
                self.prev_states == old(self).prev_states,
                self.computed_output_gradients == old(self).computed_output_gradients,
                self.computed_recurrent_gradients == old(self).computed_recurrent_gradients,
                self.output_tree.biases == old(self).output_tree.biases,
                self.output_tree.activation_fn == old(self).output_tree.activation_fn,
                self.output_tree.neuron_gradients == old(self).output_tree.neuron_gradients,
                self.output_tree.outputs == old(self).output_tree.outputs,
                self.output_tree.outputs_before_activation == old(self).output_tree.outputs_before_activation,
                self.output_tree.input_count() == old(self).output_tree.input_count(),
                self.output_tree.neuron_count() == old(self).output_tree.neuron_count(),
                rows_view(self.output_tree.weights@) == old(self).output_weights_after(
                    rows_view(old(self).output_tree.weights@),
                    learning_rate,
                    s as nat,
                ),
                self.recurrent_tree.depth() == old(self).recurrent_tree.depth(),
                self.recurrent_tree.neuron_gradients_by_layer_by_step_ix
                    == old(self).recurrent_tree.neuron_gradients_by_layer_by_step_ix,
                self.recurrent_tree.layer_outputs_by_layer_by_step_ix
                    == old(self).recurrent_tree.layer_outputs_by_layer_by_step_ix,
                forall|l: int|
                    0 <= l < self.recurrent_tree.depth() ==> rows_view(
                        (#[trigger] self.recurrent_tree.layers@[l]).weights@,
                    ) == old(self).tree_weights_after(
                        l,
                        rows_view(old(self).recurrent_tree.layers@[l].weights@),
                        learning_rate,
                        len,
                        s as nat,
                    ),
                forall|l: int|
                    0 <= l < self.recurrent_tree.depth() ==> {
                        let layer = #[trigger] self.recurrent_tree.layers@[l];
                        let was = old(self).recurrent_tree.layers@[l];
                        &&& layer.biases == was.biases
                        &&& layer.activation_fn == was.activation_fn
                        &&& layer.outputs == was.outputs
                        &&& layer.outputs_before_activation == was.outputs_before_activation
                        &&& layer.input_count() == was.input_count()
                        &&& layer.neuron_count() == was.neuron_count()
                    },
        {
            let combined = self.build_step_input(s);
            assert(combined@.len() == self.combined_inputs_scratch@.len());
            assert(self.output_tree.wf());
            step_weights(
                &mut self.output_tree.weights,
                self.computed_output_gradients[s].as_slice(),
                combined.as_slice(),
                learning_rate,
            );
            assert(self.output_tree.wf());
            let ghost tree_before = self.recurrent_tree;
            proof {
                if s != sequence_len - 1 {
                    assert(self.recurrent_tree.snapshot_fits(
                        rows_view(self.recurrent_tree.neuron_gradients_by_layer_by_step_ix@[s as int]@),
                    ));
                }
            }
            self.recurrent_tree.update_weights_and_biases(combined.as_slice(), learning_rate, s, sequence_len);
            assert forall|l: int| 0 <= l < self.recurrent_tree.depth() implies rows_view(
                (#[trigger] self.recurrent_tree.layers@[l]).weights@,
            ) == old(self).tree_weights_after(
                l,
                rows_view(old(self).recurrent_tree.layers@[l].weights@),
                learning_rate,
                len,
                (s + 1) as nat,
            ) by {
                if s == sequence_len - 1 {
                    assert(self.recurrent_tree.layers@[l] == tree_before.layers@[l]);
                }
            }
        }
    }

    /// Moves the output tree's biases by `gradient * learning_rate` once for
    /// each of the first `sequence_len` steps, with that step's gradients.
    pub fn update_biases(&mut self, learning_rate: W, sequence_len: usize)
        requires
            old(self).wf(),
            sequence_len <= old(self).computed_output_gradients@.len(),
            forall|s: int|
                0 <= s < sequence_len ==> (#[trigger] old(self).computed_output_gradients@[s])@.len()
                    == old(self).output_tree.neuron_count(),
        ensures
            final(self).wf(),
            final(self).output_tree.biases@ == old(self).biases_after(learning_rate, sequence_len as nat),
            final(self).output_tree.weights == old(self).output_tree.weights,
            final(self).output_tree.activation_fn == old(self).output_tree.activation_fn,
            final(self).output_tree.neuron_gradients == old(self).output_tree.neuron_gradients,
            final(self).output_tree.outputs == old(self).output_tree.outputs,
            final(self).output_tree.outputs_before_activation == old(self).output_tree.outputs_before_activation,
            final(self).recurrent_tree == old(self).recurrent_tree,
            final(self).state == old(self).state,
            final(self).combined_inputs_scratch == old(self).combined_inputs_scratch,
            final(self).sequence_inputs == old(self).sequence_inputs,
            final(self).prev_states == old(self).prev_states,
            final(self).computed_output_gradients == old(self).computed_output_gradients,
            final(self).computed_recurrent_gradients == old(self).computed_recurrent_gradients,
    {
        for s in 0..sequence_len
            invariant
                old(self).wf(),
                self.wf(),
                sequence_len <= old(self).computed_output_gradients@.len(),
                forall|t: int|
                    0 <= t < sequence_len ==> (#[trigger] old(self).computed_output_gradients@[t])@.len()
                        == old(self).output_tree.neuron_count(),
                self.output_tree.biases@ == old(self).biases_after(learning_rate, s as nat),
                self.output_tree.weights == old(self).output_tree.weights,
                self.output_tree.activation_fn == old(self).output_tree.activation_fn,
                self.output_tree.neuron_gradients == old(self).output_tree.neuron_gradients,
                self.output_tree.outputs == old(self).output_tree.outputs,
                self.output_tree.outputs_before_activation == old(self).output_tree.outputs_before_activation,
                self.recurrent_tree == old(self).recurrent_tree,
                self.state == old(self).state,
                self.combined_inputs_scratch == old(self).combined_inputs_scratch,
                self.sequence_inputs == old(self).sequence_inputs,
                self.prev_states == old(self).prev_states,
                self.computed_output_gradients == old(self).computed_output_gradients,
                self.computed_recurrent_gradients == old(self).computed_recurrent_gradients,
        {
            let count = self.output_tree.biases.len();
            let ghost start = self.output_tree.biases@;
            assert(self.output_tree.wf());
            for n in 0..count
                invariant
                    count == self.output_tree.biases@.len(),
                    count == start.len(),
                    s < sequence_len,
                    sequence_len <= old(self).computed_output_gradients@.len(),
                    self.computed_output_gradients == old(self).computed_output_gradients,
                    self.computed_output_gradients@[s as int]@.len() == count,
                    forall|k: int|
                        0 <= k < n ==> #[trigger] self.output_tree.biases@[k] == stepped_biases(
                            start,
                            self.computed_output_gradients@[s as int]@,
                            learning_rate,
                        )[k],
                    forall|k: int| n <= k < count ==> #[trigger] self.output_tree.biases@[k] == start[k],
                    self.output_tree.weights == old(self).output_tree.weights,
                    self.output_tree.activation_fn == old(self).output_tree.activation_fn,
                    self.output_tree.neuron_gradients == old(self).output_tree.neuron_gradients,
                    self.output_tree.outputs == old(self).output_tree.outputs,
                    self.output_tree.outputs_before_activation == old(self).output_tree.outputs_before_activation,
                    self.recurrent_tree == old(self).recurrent_tree,
                    self.state == old(self).state,
                    self.combined_inputs_scratch == old(self).combined_inputs_scratch,
                    self.sequence_inputs == old(self).sequence_inputs,
                    self.prev_states == old(self).prev_states,
                    self.computed_recurrent_gradients == old(self).computed_recurrent_gradients,
                    old(self).wf(),
                    count == old(self).output_tree.neuron_count(),
            {
                let v = self.output_tree.biases[n].plus(self.computed_output_gradients[s][n].times(learning_rate));
                self.output_tree.biases[n] = v;
            }
            assert(self.output_tree.biases@ =~= stepped_biases(
                start,
                self.computed_output_gradients@[s as int]@,
                learning_rate,
            ));
        }
    }

    /// The output tree's biases after the bias steps of the first `k` steps.
    pub open spec fn biases_after(&self, learning_rate: W, k: nat) -> Seq<W>
        decreases k,
    {
        if k == 0 {
            self.output_tree.biases@
        } else {
            stepped_biases(
                self.biases_after(learning_rate, (k - 1) as nat),
                self.computed_output_gradients@[k - 1]@,
                learning_rate,
            )
        }
    }

    /// This step's output: the output tree's outputs.
    pub fn get_outputs(&self) -> (r: &[W])
        ensures
            r@ == self.output_tree.outputs@,
    {
        self.output_tree.outputs.as_slice()
    }
}

} // verus!
