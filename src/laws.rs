use vstd::prelude::*;

use crate::network::Network;
use crate::recurrent_network::RecurrentNetwork;
use crate::rnn::lemma_stack_output_parameters;
use crate::scalar::Scalar;

verus! {

/// Two forward passes of the same example through networks with the same
/// parameters fill every hidden layer alike.
proof fn lemma_forward_passes_agree<W: Scalar>(
    before: Network<W>,
    once: Network<W>,
    twice: Network<W>,
    example: Seq<W>,
    i: int,
)
    requires
        before.wf(),
        once.same_parameters(&before),
        once.forwarded_from(&before, example),
        twice.same_parameters(&once),
        twice.forwarded_from(&once, example),
        0 <= i < before.depth(),
    ensures
        twice.hidden_layers@[i].outputs@ == once.hidden_layers@[i].outputs@,
    decreases i,
{
    if i > 0 {
        lemma_forward_passes_agree(before, once, twice, example, i - 1);
    }
    assert(once.hidden_layers@[i].same_parameters(&before.hidden_layers@[i]));
    assert(twice.layer_input(example, i) == once.layer_input(example, i));
}

/// Running the forward pass (`compute`) twice on the same example, with no
/// training call in between, leaves every weight and bias as it was and gives
/// the same outputs both times.
pub proof fn law_compute_is_repeatable<W: Scalar>(
    before: Network<W>,
    once: Network<W>,
    twice: Network<W>,
    example: Seq<W>,
)
    requires
        before.wf(),
        once.same_parameters(&before),
        once.forwarded_from(&before, example),
        twice.same_parameters(&once),
        twice.forwarded_from(&once, example),
    ensures
        twice.same_parameters(&before),
        twice.outputs.outputs@ == once.outputs.outputs@,
{
    lemma_forward_passes_agree(before, once, twice, example, before.depth() - 1);
    assert(twice.last_hidden_outputs() == once.last_hidden_outputs());
    assert forall|i: int| 0 <= i < twice.depth() implies (#[trigger] twice.hidden_layers@[i]).same_parameters(
        &before.hidden_layers@[i],
    ) by {
        assert(once.hidden_layers@[i].same_parameters(&before.hidden_layers@[i]));
    }
}

/// Recurrent networks with the same parameters carry the same state through
/// a sequence.
proof fn lemma_states_agree<W: Scalar>(a: RecurrentNetwork<W>, b: RecurrentNetwork<W>, seq: Seq<Seq<W>>, k: nat)
    requires
        a.same_parameters(&b),
    ensures
        a.state_at(seq, k) == b.state_at(seq, k),
    decreases k,
{
    if k > 0 {
        lemma_states_agree(a, b, seq, (k - 1) as nat);
        lemma_stack_output_parameters(
            a.recurrent_layer.recurrent_tree.layers@,
            b.recurrent_layer.recurrent_tree.layers@,
            a.state_at(seq, (k - 1) as nat) + seq[k - 1],
            a.recurrent_layer.recurrent_tree.depth(),
        );
    }
}

/// What a recurrent network predicts for a sequence depends on its
/// parameters alone: `predict` changes none of them, so predicting the same
/// sequence again, with no training call in between, gives the same outputs
/// at every step.
pub proof fn law_predict_is_repeatable<W: Scalar>(
    before: RecurrentNetwork<W>,
    after: RecurrentNetwork<W>,
    seq: Seq<Seq<W>>,
    step: int,
)
    requires
        after.same_parameters(&before),
    ensures
        after.output_at(seq, step) == before.output_at(seq, step),
{
    lemma_states_agree(after, before, seq, step as nat);
}

} // verus!
