use vstd::prelude::*;

use crate::activation::ActivationFunctionType;
use crate::dense::{copied, copied_rows, rows_view, stepped_weights, DenseLayer};
use crate::scalar::Scalar;

pub use crate::recurrent_layer::RecurrentLayer;
pub use crate::recurrent_network::RecurrentNetwork;

verus! {

/// `(a[n] + b[n]) / 2` for each `n`: how two gradient sources are combined.
pub open spec fn averaged<W: Scalar>(a: Seq<W>, b: Seq<W>) -> Seq<W> {
    Seq::new(a.len(), |n: int| W::spec_divided(W::spec_plus(a[n], b[n]), W::spec_of_count(2)))
}

/// At least one layer; each well formed, with at least one neuron, and taking
/// as many inputs as the layer before it has neurons.
pub open spec fn stack_wf<W: Scalar>(layers: Seq<DenseLayer<W>>) -> bool {
    &&& layers.len() > 0
    &&& forall|l: int| 0 <= l < layers.len() ==> (#[trigger] layers[l]).wf()
    &&& forall|l: int| 0 <= l < layers.len() ==> (#[trigger] layers[l]).neuron_count() > 0
    &&& forall|l: int| 1 <= l < layers.len() ==> #[trigger] layers[l].input_count() == layers[l - 1].neuron_count()
}

/// Both initializers of `d` may be called on every index the layer has.
pub open spec fn def_callable<W, FW: Fn(usize, usize) -> W, FB: Fn(usize) -> W>(
    d: RecurrentTreeLayerDef<FW, FB>,
) -> bool {
    &&& forall|n: usize, i: usize| n < d.output_count && i < d.input_count ==> d.init_weights.requires((n, i))
    &&& forall|n: usize| n < d.output_count ==> d.init_biases.requires((n,))
}

/// Every weight and bias of `layer` is what the initializers of `d` gave for
/// its index.
pub open spec fn def_built<W: Scalar, FW: Fn(usize, usize) -> W, FB: Fn(usize) -> W>(
    d: RecurrentTreeLayerDef<FW, FB>,
    layer: DenseLayer<W>,
) -> bool {
    &&& forall|n: int, i: int|
        0 <= n < d.output_count && 0 <= i < d.input_count ==> d.init_weights.ensures(
            (n as usize, i as usize),
            #[trigger] layer.weights@[n]@[i],
        )
    &&& forall|n: int| 0 <= n < d.output_count ==> d.init_biases.ensures((n as usize,), #[trigger] layer.biases@[n])
}

/// Layer definitions that build a well formed stack: at least one, each with
/// at least one neuron, each taking as many inputs as the one before it has
/// outputs.
pub open spec fn def_chain<FW, FB>(def: Seq<RecurrentTreeLayerDef<FW, FB>>) -> bool {
    &&& def.len() > 0
    &&& forall|l: int| 0 <= l < def.len() ==> (#[trigger] def[l]).output_count > 0
    &&& forall|l: int| 1 <= l < def.len() ==> #[trigger] def[l].input_count == def[l - 1].output_count
}

/// What the first `l` layers of a stack compute from `x` (`x` itself for no layer).
pub open spec fn stack_output<W: Scalar>(layers: Seq<DenseLayer<W>>, x: Seq<W>, l: nat) -> Seq<W>
    decreases l,
{
    if l == 0 {
        x
    } else {
        let prev = stack_output(layers, x, (l - 1) as nat);
        layers[l - 1].activated(layers[l - 1].pre_activations(prev))
    }
}

/// Same weights, biases and activation functions: what a stack computes
/// depends on nothing else.
pub open spec fn same_stack_parameters<W: Scalar>(a: Seq<DenseLayer<W>>, b: Seq<DenseLayer<W>>) -> bool {
    &&& a.len() == b.len()
    &&& forall|i: int| 0 <= i < a.len() ==> (#[trigger] a[i]).same_parameters(&b[i])
}

pub proof fn lemma_stack_output_parameters<W: Scalar>(
    a: Seq<DenseLayer<W>>,
    b: Seq<DenseLayer<W>>,
    x: Seq<W>,
    l: nat,
)
    requires
        same_stack_parameters(a, b),
        l <= a.len(),
    ensures
        stack_output(a, x, l) == stack_output(b, x, l),
    decreases l,
{
    if l > 0 {
        lemma_stack_output_parameters(a, b, x, (l - 1) as nat);
        assert(a[l - 1].same_parameters(&b[l - 1]));
    }
}

/// The gradients of layer `l` of a stack when the stack's last layer feeds
/// neurons with weights `output_weights` and gradients `output_gradients`.
pub open spec fn stack_gradient<W: Scalar>(
    layers: Seq<DenseLayer<W>>,
    output_weights: Seq<Seq<W>>,
    output_gradients: Seq<W>,
    l: int,
) -> Seq<W>
    decreases layers.len() - l,
{
    if l < 0 || l >= layers.len() - 1 {
        layers[l].gradients_from(output_weights, output_gradients)
    } else {
        layers[l].gradients_from(
            rows_view(layers[l + 1].weights@),
            stack_gradient(layers, output_weights, output_gradients, l + 1),
        )
    }
}

/// The gradients of every layer of a stack, as `stack_gradient` states them.
pub open spec fn stack_gradients<W: Scalar>(
    layers: Seq<DenseLayer<W>>,
    output_weights: Seq<Seq<W>>,
    output_gradients: Seq<W>,
) -> Seq<Seq<W>> {
    Seq::new(layers.len(), |l: int| stack_gradient(layers, output_weights, output_gradients, l))
}

/// The gradients a stack computes do not depend on the gradients its layers
/// held before.
pub proof fn lemma_stack_gradient_ignores_gradients<W: Scalar>(
    a: Seq<DenseLayer<W>>,
    b: Seq<DenseLayer<W>>,
    output_weights: Seq<Seq<W>>,
    output_gradients: Seq<W>,
    l: int,
)
    requires
        a.len() == b.len(),
        0 <= l < a.len(),
        forall|i: int| 0 <= i < a.len() ==> same_but_gradients(#[trigger] a[i], b[i]),
    ensures
        stack_gradient(a, output_weights, output_gradients, l) == stack_gradient(
            b,
            output_weights,
            output_gradients,
            l,
        ),
    decreases a.len() - l,
{
    assert(same_but_gradients(a[l], b[l]));
    if l < a.len() - 1 {
        lemma_stack_gradient_ignores_gradients(a, b, output_weights, output_gradients, l + 1);
        assert(same_but_gradients(a[l + 1], b[l + 1]));
    }
}

/// Every layer's gradient in a stack is as long as the layer has neurons.
pub proof fn lemma_stack_gradient_len<W: Scalar>(
    layers: Seq<DenseLayer<W>>,
    output_weights: Seq<Seq<W>>,
    output_gradients: Seq<W>,
    l: int,
)
    requires
        0 <= l < layers.len(),
    ensures
        stack_gradient(layers, output_weights, output_gradients, l).len() == layers[l].neuron_count(),
{
}

/// The views of a history of matrices, one per step.
pub open spec fn history_view<W>(h: Seq<Vec<Vec<W>>>) -> Seq<Seq<Seq<W>>> {
    Seq::new(h.len(), |s: int| rows_view(h[s]@))
}

/// Layer `l` of `a` and `b` agree on everything but the gradients.
pub open spec fn same_but_gradients<W: Scalar>(a: DenseLayer<W>, b: DenseLayer<W>) -> bool {
    &&& a.same_parameters(&b)
    &&& a.outputs_before_activation == b.outputs_before_activation
    &&& a.outputs == b.outputs
}

/// The length a history has after step `step` is stored in it.
pub open spec fn grown_len(len: nat, step: nat) -> nat {
    if step < len {
        len
    } else {
        step + 1
    }
}

/// Stores `entry` as step `step` of `history`, growing the history with empty
/// entries first where it is shorter.
pub fn store_step<T>(history: &mut Vec<Vec<T>>, step: usize, entry: Vec<T>)
    ensures
        final(history)@.len() == grown_len(old(history)@.len(), step as nat),
        forall|s: int|
            0 <= s < old(history)@.len() && s != step ==> #[trigger] final(history)@[s] == old(history)@[s],
        final(history)@[step as int] == entry,
{
    while history.len() <= step
        invariant
            history@.len() >= old(history)@.len(),
            history@.len() <= grown_len(old(history)@.len(), step as nat),
            forall|s: int| 0 <= s < old(history)@.len() ==> #[trigger] history@[s] == old(history)@[s],
        decreases step + 1 - history@.len(),
    {
        history.push(Vec::new());
    }
    history[step] = entry;
}

/// The internal stack of a recurrent layer: maps `[state ++ input]` to the
/// next state, and keeps per-step snapshots of its layers' outputs and
/// gradients for the backward pass through time.
pub struct RecurrentTree<W: Scalar> {
    pub layers: Vec<DenseLayer<W>>,
    /// `[step][layer][neuron]`
    pub neuron_gradients_by_layer_by_step_ix: Vec<Vec<Vec<W>>>,
    /// `[step][layer][neuron]`
    pub layer_outputs_by_layer_by_step_ix: Vec<Vec<Vec<W>>>,
}

/// How to build one layer of a recurrent tree.
pub struct RecurrentTreeLayerDef<FW, FB> {
    /// Must be the output count of the previous layer; for the first layer,
    /// the external input size plus the state size.
    pub input_count: usize,
    /// Must be the input count of the next layer; for the last layer, the
    /// state size.
    pub output_count: usize,
    pub init_weights: FW,
    pub init_biases: FB,
    pub activation_fn: ActivationFunctionType,
}

impl<FW, FB> RecurrentTreeLayerDef<FW, FB> {
    /// Builds the dense layer the definition describes.
    pub fn build_layer<W: Scalar>(&self) -> (r: DenseLayer<W>) where FW: Fn(usize, usize) -> W, FB: Fn(usize) -> W
        requires
            def_callable::<W, FW, FB>(*self),
        ensures
            r.wf(),
            r.neuron_count() == self.output_count,
            self.output_count > 0 ==> r.input_count() == self.input_count,
            r.activation_fn == self.activation_fn,
            def_built(*self, r),
    {
        DenseLayer::new(
            self.output_count,
            self.input_count,
            &self.init_weights,
            &self.init_biases,
            self.activation_fn,
        )
    }
}

impl<W: Scalar> RecurrentTree<W> {
    pub open spec fn depth(&self) -> nat {
        self.layers@.len()
    }

    pub open spec fn wf(&self) -> bool {
        stack_wf(self.layers@)
    }

    pub open spec fn input_count(&self) -> nat {
        self.layers@[0].input_count()
    }

    /// The size of the state the tree produces: its last layer's neuron count.
    pub open spec fn output_count(&self) -> nat {
        self.layers@[self.depth() - 1].neuron_count()
    }

    /// The snapshot of step `step` holds one vector per layer, each as long as
    /// the layer has neurons.
    pub open spec fn snapshot_fits(&self, snapshot: Seq<Seq<W>>) -> bool {
        &&& snapshot.len() == self.depth()
        &&& forall|l: int| 0 <= l < self.depth() ==> (#[trigger] snapshot[l]).len() == self.layers@[l].neuron_count()
    }

    /// The outputs of every layer, first to last.
    pub open spec fn layer_outputs(&self) -> Seq<Seq<W>> {
        Seq::new(self.depth(), |l: int| self.layers@[l].outputs@)
    }

    /// The live gradients of every layer, first to last.
    pub open spec fn layer_gradients(&self) -> Seq<Seq<W>> {
        Seq::new(self.depth(), |l: int| self.layers@[l].neuron_gradients@)
    }

    /// `self` and `other` have the same layers, but for their gradients.
    pub open spec fn same_layers_but_gradients(&self, other: &Self) -> bool {
        &&& self.depth() == other.depth()
        &&& forall|l: int|
            0 <= l < self.depth() ==> same_but_gradients(#[trigger] self.layers@[l], other.layers@[l])
    }

    /// Builds a tree from its layer definitions, first layer first.
    pub fn new<FW: Fn(usize, usize) -> W, FB: Fn(usize) -> W>(def: Vec<RecurrentTreeLayerDef<FW, FB>>) -> (r: Self)
        requires
            forall|l: int| 0 <= l < def@.len() ==> def_callable::<W, FW, FB>(#[trigger] def@[l]),
        ensures
            r.depth() == def@.len(),
            forall|l: int| 0 <= l < def@.len() ==> (#[trigger] r.layers@[l]).wf(),
            forall|l: int| 0 <= l < def@.len() ==> (#[trigger] r.layers@[l]).neuron_count() == def@[l].output_count,
            forall|l: int|
                0 <= l < def@.len() && def@[l].output_count > 0 ==> (#[trigger] r.layers@[l]).input_count()
                    == def@[l].input_count,
            forall|l: int| 0 <= l < def@.len() ==> (#[trigger] r.layers@[l]).activation_fn == def@[l].activation_fn,
            forall|l: int| 0 <= l < def@.len() ==> def_built(def@[l], #[trigger] r.layers@[l]),
            r.neuron_gradients_by_layer_by_step_ix@.len() == 0,
            r.layer_outputs_by_layer_by_step_ix@.len() == 0,
            def_chain(def@) ==> r.wf(),
            def_chain(def@) ==> r.input_count() == def@[0].input_count,
            def_chain(def@) ==> r.output_count() == def@[def@.len() - 1].output_count,
    {
        let mut layers: Vec<DenseLayer<W>> = Vec::new();
        for l in 0..def.len()
            invariant
                layers@.len() == l,
                forall|k: int| 0 <= k < def@.len() ==> def_callable::<W, FW, FB>(#[trigger] def@[k]),
                forall|k: int| 0 <= k < l ==> (#[trigger] layers@[k]).wf(),
                forall|k: int| 0 <= k < l ==> (#[trigger] layers@[k]).neuron_count() == def@[k].output_count,
                forall|k: int|
                    0 <= k < l && def@[k].output_count > 0 ==> (#[trigger] layers@[k]).input_count()
                        == def@[k].input_count,
                forall|k: int| 0 <= k < l ==> (#[trigger] layers@[k]).activation_fn == def@[k].activation_fn,
                forall|k: int| 0 <= k < l ==> def_built(def@[k], #[trigger] layers@[k]),
        {
            assert(def_callable::<W, FW, FB>(def@[l as int]));
            let layer = def[l].build_layer();
            layers.push(layer);
        }
        proof {
            if def_chain(def@) {
                assert forall|l: int| 1 <= l < def@.len() implies #[trigger] layers@[l].input_count()
                    == layers@[l - 1].neuron_count() by {
                    assert(def@[l].output_count > 0);
                    assert(def@[l - 1].output_count > 0);
                }
                assert(def@[0].output_count > 0);
            }
        }
        RecurrentTree {
            layers,
            neuron_gradients_by_layer_by_step_ix: Vec::new(),
            layer_outputs_by_layer_by_step_ix: Vec::new(),
        }
    }

    /// Feeds `inputs` through the layers in order and records every layer's
    /// outputs as the snapshot of step `step_ix`.
    pub fn forward_propagate(&mut self, inputs: &[W], step_ix: usize)
        requires
            old(self).wf(),
            inputs@.len() == old(self).input_count(),
        ensures
            final(self).wf(),
            final(self).depth() == old(self).depth(),
            forall|l: int|
                0 <= l < final(self).depth() ==> (#[trigger] final(self).layers@[l]).same_parameters(
                    &old(self).layers@[l],
                ),
            forall|l: int|
                0 <= l < final(self).depth() ==> (#[trigger] final(self).layers@[l]).neuron_gradients
                    == old(self).layers@[l].neuron_gradients,
            forall|l: int|
                0 <= l < final(self).depth() ==> (#[trigger] final(self).layers@[l]).outputs@ == stack_output(
                    old(self).layers@,
                    inputs@,
                    (l + 1) as nat,
                ),
            forall|l: int|
                0 <= l < final(self).depth() ==> (#[trigger] final(self).layers@[l]).outputs_before_activation@
                    == old(self).layers@[l].pre_activations(stack_output(old(self).layers@, inputs@, l as nat)),
            final(self).neuron_gradients_by_layer_by_step_ix == old(self).neuron_gradients_by_layer_by_step_ix,
            final(self).layer_outputs_by_layer_by_step_ix@.len() == grown_len(
                old(self).layer_outputs_by_layer_by_step_ix@.len(),
                step_ix as nat,
            ),
            forall|s: int|
                0 <= s < old(self).layer_outputs_by_layer_by_step_ix@.len() && s != step_ix
                    ==> #[trigger] final(self).layer_outputs_by_layer_by_step_ix@[s]
                    == old(self).layer_outputs_by_layer_by_step_ix@[s],
            rows_view(final(self).layer_outputs_by_layer_by_step_ix@[step_ix as int]@)
                == final(self).layer_outputs(),
    {
        let depth = self.layers.len();
        for l in 0..depth
            invariant
                depth == self.depth(),
                depth == old(self).depth(),
                inputs@.len() == old(self).input_count(),
                old(self).wf(),
                self.wf(),
                self.neuron_gradients_by_layer_by_step_ix == old(self).neuron_gradients_by_layer_by_step_ix,
                self.layer_outputs_by_layer_by_step_ix == old(self).layer_outputs_by_layer_by_step_ix,
                forall|k: int| 0 <= k < depth ==> (#[trigger] self.layers@[k]).same_parameters(&old(self).layers@[k]),
                forall|k: int|
                    0 <= k < depth ==> (#[trigger] self.layers@[k]).neuron_gradients
                        == old(self).layers@[k].neuron_gradients,
                forall|k: int|
                    0 <= k < l ==> (#[trigger] self.layers@[k]).outputs@ == stack_output(
                        old(self).layers@,
                        inputs@,
                        (k + 1) as nat,
                    ),
                forall|k: int|
                    0 <= k < l ==> (#[trigger] self.layers@[k]).outputs_before_activation@
                        == old(self).layers@[k].pre_activations(stack_output(old(self).layers@, inputs@, k as nat)),
        {
            let ghost before = self.layers@;
            if l == 0 {
                self.layers[0].forward_propagate(inputs);
            } else {
                let prev = copied(self.layers[l - 1].outputs.as_slice());
                assert(prev@ == stack_output(old(self).layers@, inputs@, l as nat));
                self.layers[l].forward_propagate(prev.as_slice());
            }
            assert(before[l as int].same_parameters(&old(self).layers@[l as int]));
            assert(stack_output(old(self).layers@, inputs@, (l + 1) as nat) == old(self).layers@[l as int].activated(
                old(self).layers@[l as int].pre_activations(stack_output(old(self).layers@, inputs@, l as nat)),
            ));
            assert forall|k: int| 0 <= k < depth && k != l implies #[trigger] self.layers@[k] == before[k] by {}
        }
        let snapshot = self.snapshot_outputs();
        store_step(&mut self.layer_outputs_by_layer_by_step_ix, step_ix, snapshot);
    }

    /// A copy of every layer's outputs, first layer first.
    fn snapshot_outputs(&self) -> (r: Vec<Vec<W>>)
        ensures
            rows_view(r@) == self.layer_outputs(),
    {
        let mut snapshot: Vec<Vec<W>> = Vec::new();
        for l in 0..self.layers.len()
            invariant
                snapshot@.len() == l,
                l <= self.depth(),
                forall|k: int| 0 <= k < l ==> (#[trigger] snapshot@[k])@ == self.layers@[k].outputs@,
        {
            snapshot.push(copied(self.layers[l].outputs.as_slice()));
        }
        assert(rows_view(snapshot@) =~= self.layer_outputs());
        snapshot
    }

    /// Fills every layer's gradients, walking from the last layer back to the
    /// first; the last layer feeds neurons with weights `output_weights` and
    /// gradients `gradient_of_output_neurons`. The result is stored as the
    /// gradient snapshot of step `step_ix`, or, with `accumulate`, averaged
    /// into the snapshot already there.
    pub fn compute_gradients(
        &mut self,
        output_weights: &[Vec<W>],
        gradient_of_output_neurons: &[W],
        step_ix: usize,
        accumulate: bool,
    )
        requires
            old(self).wf(),
            output_weights@.len() == gradient_of_output_neurons@.len(),
            forall|j: int|
                0 <= j < output_weights@.len() ==> #[trigger] output_weights@[j]@.len() >= old(self).output_count(),
            accumulate ==> step_ix < old(self).neuron_gradients_by_layer_by_step_ix@.len(),
            accumulate ==> old(self).snapshot_fits(
                rows_view(old(self).neuron_gradients_by_layer_by_step_ix@[step_ix as int]@),
            ),
        ensures
            final(self).wf(),
            final(self).same_layers_but_gradients(old(self)),
            final(self).layer_gradients() == stack_gradients(
                old(self).layers@,
                rows_view(output_weights@),
                gradient_of_output_neurons@,
            ),
            final(self).layer_outputs_by_layer_by_step_ix == old(self).layer_outputs_by_layer_by_step_ix,
            final(self).neuron_gradients_by_layer_by_step_ix@.len() == grown_len(
                old(self).neuron_gradients_by_layer_by_step_ix@.len(),
                step_ix as nat,
            ),
            forall|s: int|
                0 <= s < old(self).neuron_gradients_by_layer_by_step_ix@.len() && s != step_ix
                    ==> #[trigger] final(self).neuron_gradients_by_layer_by_step_ix@[s]
                    == old(self).neuron_gradients_by_layer_by_step_ix@[s],
            rows_view(final(self).neuron_gradients_by_layer_by_step_ix@[step_ix as int]@) == if accumulate {
                Seq::new(
                    old(self).depth(),
                    |l: int|
                        averaged(
                            rows_view(old(self).neuron_gradients_by_layer_by_step_ix@[step_ix as int]@)[l],
                            final(self).layer_gradients()[l],
                        ),
                )
            } else {
                final(self).layer_gradients()
            },
    {
        self.backpropagate(output_weights, gradient_of_output_neurons);
        let entry = if accumulate {
            self.averaged_with_live(&self.neuron_gradients_by_layer_by_step_ix[step_ix])
        } else {
            self.snapshot_gradients()
        };
        store_step(&mut self.neuron_gradients_by_layer_by_step_ix, step_ix, entry);
    }

    /// The reverse walk of `compute_gradients`, on the live gradients only.
    fn backpropagate(&mut self, output_weights: &[Vec<W>], gradient_of_output_neurons: &[W])
        requires
            old(self).wf(),
            output_weights@.len() == gradient_of_output_neurons@.len(),
            forall|j: int|
                0 <= j < output_weights@.len() ==> #[trigger] output_weights@[j]@.len() >= old(self).output_count(),
        ensures
            final(self).wf(),
            final(self).same_layers_but_gradients(old(self)),
            final(self).layer_gradients() == stack_gradients(
                old(self).layers@,
                rows_view(output_weights@),
                gradient_of_output_neurons@,
            ),
            final(self).layer_outputs_by_layer_by_step_ix == old(self).layer_outputs_by_layer_by_step_ix,
            final(self).neuron_gradients_by_layer_by_step_ix == old(self).neuron_gradients_by_layer_by_step_ix,
    {
        let depth = self.layers.len();
        let ghost ow = rows_view(output_weights@);
        let ghost og = gradient_of_output_neurons@;
        let mut k = depth;
        while k > 0
            invariant
                k <= depth,
                depth == self.depth(),
                depth == old(self).depth(),
                old(self).wf(),
                self.wf(),
                ow == rows_view(output_weights@),
                og == gradient_of_output_neurons@,
                output_weights@.len() == gradient_of_output_neurons@.len(),
                forall|j: int|
                    0 <= j < output_weights@.len() ==> #[trigger] output_weights@[j]@.len() >= old(self).output_count(),
                self.same_layers_but_gradients(old(self)),
                self.layer_outputs_by_layer_by_step_ix == old(self).layer_outputs_by_layer_by_step_ix,
                self.neuron_gradients_by_layer_by_step_ix == old(self).neuron_gradients_by_layer_by_step_ix,
                forall|l: int|
                    k <= l < depth ==> (#[trigger] self.layers@[l]).neuron_gradients@ == stack_gradient(
                        old(self).layers@,
                        ow,
                        og,
                        l,
                    ),
            decreases k,
        {
            k = k - 1;
            let ghost before = self.layers@;
            assert(same_but_gradients(self.layers@[k as int], old(self).layers@[k as int]));
            if k == depth - 1 {
                self.layers[k].compute_gradients(output_weights, gradient_of_output_neurons);
                assert(stack_gradient(old(self).layers@, ow, og, k as int) == old(self).layers@[k as int].gradients_from(
                    ow,
                    og,
                ));
            } else {
                let ghost j = k + 1;
                assert(same_but_gradients(self.layers@[j], old(self).layers@[j]));
                let next_weights = copied_rows(&self.layers[k + 1].weights);
                let next_gradients = copied(self.layers[k + 1].neuron_gradients.as_slice());
                assert(self.layers@[j].input_count() == self.layers@[k as int].neuron_count());
                assert(self.layers@[j].wf());
                assert(next_weights@.len() == rows_view(next_weights@).len());
                assert(next_weights@.len() == self.layers@[j].neuron_count());
                assert forall|i: int| 0 <= i < next_weights@.len() implies #[trigger] next_weights@[i]@.len()
                    >= self.layers@[k as int].neuron_count() by {
                    assert(next_weights@[i]@ == rows_view(next_weights@)[i]);
                    assert(rows_view(self.layers@[j].weights@)[i] == self.layers@[j].weights@[i]@);
                }
                self.layers[k].compute_gradients(next_weights.as_slice(), next_gradients.as_slice());
                assert(stack_gradient(old(self).layers@, ow, og, k as int) == old(self).layers@[k as int].gradients_from(
                    rows_view(old(self).layers@[j].weights@),
                    stack_gradient(old(self).layers@, ow, og, j),
                ));
            }
            assert forall|l: int| 0 <= l < depth && l != k implies #[trigger] self.layers@[l] == before[l] by {}
        }
        assert(self.layer_gradients() =~= stack_gradients(old(self).layers@, ow, og));
    }

    /// A copy of every layer's live gradients, first layer first.
    fn snapshot_gradients(&self) -> (r: Vec<Vec<W>>)
        ensures
            rows_view(r@) == self.layer_gradients(),
    {
        let mut snapshot: Vec<Vec<W>> = Vec::new();
        for l in 0..self.layers.len()
            invariant
                snapshot@.len() == l,
                l <= self.depth(),
                forall|k: int| 0 <= k < l ==> (#[trigger] snapshot@[k])@ == self.layers@[k].neuron_gradients@,
        {
            snapshot.push(copied(self.layers[l].neuron_gradients.as_slice()));
        }
        assert(rows_view(snapshot@) =~= self.layer_gradients());
        snapshot
    }

    /// Each stored gradient averaged with the matching live gradient.
    fn averaged_with_live(&self, stored: &Vec<Vec<W>>) -> (r: Vec<Vec<W>>)
        requires
            self.wf(),
            self.snapshot_fits(rows_view(stored@)),
        ensures
            rows_view(r@) == Seq::new(
                self.depth(),
                |l: int| averaged(rows_view(stored@)[l], self.layer_gradients()[l]),
            ),
    {
        let mut r: Vec<Vec<W>> = Vec::new();
        let two = W::from_count(2);
        assert(stored@.len() == rows_view(stored@).len());
        for l in 0..stored.len()
            invariant
                self.wf(),
                self.snapshot_fits(rows_view(stored@)),
                two == W::spec_of_count(2),
                r@.len() == l,
                l <= stored@.len(),
                forall|k: int|
                    0 <= k < l ==> (#[trigger] r@[k])@ == averaged(stored@[k]@, self.layers@[k].neuron_gradients@),
        {
            let row = &stored[l];
            assert(rows_view(stored@)[l as int] == stored@[l as int]@);
            assert(row@.len() == self.layers@[l as int].neuron_count());
            let mut out: Vec<W> = Vec::new();
            for n in 0..row.len()
                invariant
                    self.wf(),
                    l < self.depth(),
                    two == W::spec_of_count(2),
                    row@.len() == self.layers@[l as int].neuron_count(),
                    out@.len() == n,
                    forall|i: int|
                        0 <= i < n ==> #[trigger] out@[i] == averaged(row@, self.layers@[l as int].neuron_gradients@)[i],
            {
                let v = row[n].plus(self.layers[l].neuron_gradients[n]).divided(two);
                out.push(v);
            }
            assert(out@ =~= averaged(row@, self.layers@[l as int].neuron_gradients@));
            r.push(out);
        }
        assert(rows_view(r@) =~= Seq::new(
            self.depth(),
            |l: int| averaged(rows_view(stored@)[l], self.layer_gradients()[l]),
        ));
        r
    }

    /// The inputs that layer `l` was fed at step `step`: `inputs` for the first
    /// layer, the recorded outputs of the layer before it otherwise.
    pub open spec fn step_layer_input(&self, inputs: Seq<W>, step: int, l: int) -> Seq<W> {
        if l == 0 {
            inputs
        } else {
            self.layer_outputs_by_layer_by_step_ix@[step]@[l - 1]@
        }
    }

    /// Steps every layer's weights with the gradients stored for step
    /// `step_ix`, using `inputs` for the first layer and the recorded outputs of
    /// that step for the others. Nothing changes at the last step of a
    /// sequence, whose state no later step consumes. Biases are left as they are.
    pub fn update_weights_and_biases(
        &mut self,
        inputs: &[W],
        learning_rate: W,
        step_ix: usize,
        sequence_len: usize,
    )
        requires
            old(self).wf(),
            sequence_len > 0,
            step_ix != sequence_len - 1 ==> {
                &&& inputs@.len() == old(self).input_count()
                &&& step_ix < old(self).neuron_gradients_by_layer_by_step_ix@.len()
                &&& step_ix < old(self).layer_outputs_by_layer_by_step_ix@.len()
                &&& old(self).snapshot_fits(rows_view(old(self).neuron_gradients_by_layer_by_step_ix@[step_ix as int]@))
                &&& old(self).snapshot_fits(rows_view(old(self).layer_outputs_by_layer_by_step_ix@[step_ix as int]@))
            },
        ensures
            step_ix == sequence_len - 1 ==> *final(self) == *old(self),
            final(self).wf(),
            final(self).depth() == old(self).depth(),
            final(self).neuron_gradients_by_layer_by_step_ix == old(self).neuron_gradients_by_layer_by_step_ix,
            final(self).layer_outputs_by_layer_by_step_ix == old(self).layer_outputs_by_layer_by_step_ix,
            forall|l: int|
                0 <= l < final(self).depth() ==> {
                    let layer = #[trigger] final(self).layers@[l];
                    let was = old(self).layers@[l];
                    &&& layer.biases == was.biases
                    &&& layer.activation_fn == was.activation_fn
                    &&& layer.outputs == was.outputs
                    &&& layer.outputs_before_activation == was.outputs_before_activation
                    &&& layer.input_count() == was.input_count()
                    &&& layer.neuron_count() == was.neuron_count()
                },
            step_ix != sequence_len - 1 ==> forall|l: int|
                0 <= l < final(self).depth() ==> (#[trigger] final(self).layers@[l]).neuron_gradients@
                    == old(self).neuron_gradients_by_layer_by_step_ix@[step_ix as int]@[l]@,
            step_ix != sequence_len - 1 ==> forall|l: int|
                0 <= l < final(self).depth() ==> rows_view((#[trigger] final(self).layers@[l]).weights@)
                    == stepped_weights(
                    rows_view(old(self).layers@[l].weights@),
                    old(self).neuron_gradients_by_layer_by_step_ix@[step_ix as int]@[l]@,
                    old(self).step_layer_input(inputs@, step_ix as int, l),
                    learning_rate,
                ),
    {
        if step_ix == sequence_len - 1 {
            return;
        }
        let depth = self.layers.len();
        let mut k = depth;
        while k > 0
            invariant
                k <= depth,
                depth == self.depth(),
                depth == old(self).depth(),
                old(self).wf(),
                self.wf(),
                inputs@.len() == old(self).input_count(),
                step_ix < old(self).neuron_gradients_by_layer_by_step_ix@.len(),
                step_ix < old(self).layer_outputs_by_layer_by_step_ix@.len(),
                old(self).snapshot_fits(rows_view(old(self).neuron_gradients_by_layer_by_step_ix@[step_ix as int]@)),
                old(self).snapshot_fits(rows_view(old(self).layer_outputs_by_layer_by_step_ix@[step_ix as int]@)),
                self.neuron_gradients_by_layer_by_step_ix == old(self).neuron_gradients_by_layer_by_step_ix,
                self.layer_outputs_by_layer_by_step_ix == old(self).layer_outputs_by_layer_by_step_ix,
                forall|l: int|
                    0 <= l < depth ==> {
                        let layer = #[trigger] self.layers@[l];
                        let was = old(self).layers@[l];
                        &&& layer.biases == was.biases
                        &&& layer.activation_fn == was.activation_fn
                        &&& layer.outputs == was.outputs
                        &&& layer.outputs_before_activation == was.outputs_before_activation
                        &&& layer.input_count() == was.input_count()
                        &&& layer.neuron_count() == was.neuron_count()
                    },
                forall|l: int| 0 <= l < k ==> (#[trigger] self.layers@[l]) == old(self).layers@[l],
                forall|l: int|
                    k <= l < depth ==> (#[trigger] self.layers@[l]).neuron_gradients@
                        == old(self).neuron_gradients_by_layer_by_step_ix@[step_ix as int]@[l]@,
                forall|l: int|
                    k <= l < depth ==> rows_view((#[trigger] self.layers@[l]).weights@) == stepped_weights(
                        rows_view(old(self).layers@[l].weights@),
                        old(self).neuron_gradients_by_layer_by_step_ix@[step_ix as int]@[l]@,
                        old(self).step_layer_input(inputs@, step_ix as int, l),
                        learning_rate,
                    ),
            decreases k,
        {
            k = k - 1;
            let ghost before = self.layers@;
            let layer_inputs = if k == 0 {
                copied(inputs)
            } else {
                assert(rows_view(old(self).layer_outputs_by_layer_by_step_ix@[step_ix as int]@)[k - 1]
                    == old(self).layer_outputs_by_layer_by_step_ix@[step_ix as int]@[k - 1]@);
                assert(self.layers@[k as int].input_count() == self.layers@[k - 1].neuron_count());
                copied(self.layer_outputs_by_layer_by_step_ix[step_ix][k - 1].as_slice())
            };
            assert(layer_inputs@ == old(self).step_layer_input(inputs@, step_ix as int, k as int));
            assert(rows_view(old(self).neuron_gradients_by_layer_by_step_ix@[step_ix as int]@)[k as int]
                == old(self).neuron_gradients_by_layer_by_step_ix@[step_ix as int]@[k as int]@);
            let gradients = copied(self.neuron_gradients_by_layer_by_step_ix[step_ix][k].as_slice());
            self.layers[k].neuron_gradients = gradients;
            assert(self.layers@[k as int].wf());
            self.layers[k].update_weights(layer_inputs.as_slice(), learning_rate);
            assert forall|l: int| 0 <= l < depth && l != k implies #[trigger] self.layers@[l] == before[l] by {}
        }
    }

    /// The weights of the first layer.
    pub fn first_layer_weights(&self) -> (r: &Vec<Vec<W>>)
        requires
            self.wf(),
        ensures
            *r == self.layers@[0].weights,
    {
        &self.layers[0].weights
    }

    /// A copy of every layer's weights, first layer first.
    pub fn all_layer_weights(&self) -> (r: Vec<Vec<Vec<W>>>)
        ensures
            history_view(r@) == Seq::new(self.depth(), |l: int| rows_view(self.layers@[l].weights@)),
    {
        let mut r: Vec<Vec<Vec<W>>> = Vec::new();
        for l in 0..self.layers.len()
            invariant
                r@.len() == l,
                l <= self.depth(),
                forall|k: int| 0 <= k < l ==> rows_view((#[trigger] r@[k])@) == rows_view(self.layers@[k].weights@),
        {
            r.push(copied_rows(&self.layers[l].weights));
        }
        assert(history_view(r@) =~= Seq::new(self.depth(), |l: int| rows_view(self.layers@[l].weights@)));
        r
    }

    /// A copy of every layer's biases, first layer first.
    pub fn all_layer_biases(&self) -> (r: Vec<Vec<W>>)
        ensures
            rows_view(r@) == Seq::new(self.depth(), |l: int| self.layers@[l].biases@),
    {
        let mut r: Vec<Vec<W>> = Vec::new();
        for l in 0..self.layers.len()
            invariant
                r@.len() == l,
                l <= self.depth(),
                forall|k: int| 0 <= k < l ==> (#[trigger] r@[k])@ == self.layers@[k].biases@,
        {
            r.push(copied(self.layers[l].biases.as_slice()));
        }
        assert(rows_view(r@) =~= Seq::new(self.depth(), |l: int| self.layers@[l].biases@));
        r
    }

    /// The outputs of the last layer: the new state.
    pub fn outputs(&self) -> (r: &[W])
        requires
            self.wf(),
        ensures
            r@ == self.layers@[self.depth() - 1].outputs@,
    {
        self.layers[self.layers.len() - 1].outputs.as_slice()
    }

    /// The live gradients of the first layer.
    pub fn neuron_gradients(&self) -> (r: &[W])
        requires
            self.wf(),
        ensures
            r@ == self.layers@[0].neuron_gradients@,
    {
        self.layers[0].neuron_gradients.as_slice()
    }
}

} // verus!
