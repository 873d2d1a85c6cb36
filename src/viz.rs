use vstd::prelude::*;

use crate::network::Network;
use crate::scalar::Scalar;

verus! {

/// Each neuron is drawn as a square of this many pixels a side.
pub const VIZ_SCALE_MULTIPLIER: usize = 24;

/// The size in bytes of the RGBA pixel buffer for a layer of `output_count`
/// neurons.
pub open spec fn layer_buf_len(output_count: nat) -> nat {
    output_count * 2304
}

/// A zeroed RGBA pixel buffer for a layer of `output_count` neurons.
pub fn build_layer_outputs_buf(output_count: usize) -> (r: Vec<u8>)
    requires
        output_count * 2304 <= usize::MAX,
    ensures
        r@ == Seq::new(layer_buf_len(output_count as nat), |i: int| 0u8),
{
    let len = output_count * (VIZ_SCALE_MULTIPLIER * VIZ_SCALE_MULTIPLIER * 4);
    let mut buf: Vec<u8> = Vec::new();
    for i in 0..len
        invariant
            buf@ == Seq::new(i as nat, |k: int| 0u8),
    {
        buf.push(0u8);
        assert(buf@ =~= Seq::new((i + 1) as nat, |k: int| 0u8));
    }
    buf
}

/// The pixel buffers that show a network's activations: one for its input,
/// one per hidden layer and one for its output layer.
pub struct LayerVizState {
    pub input_layer_buffer: Vec<u8>,
    pub hidden_layer_buffers: Vec<Vec<u8>>,
    pub output_layer_buffer: Vec<u8>,
}

impl LayerVizState {
    /// Zeroed buffers sized for `network`, with an input of `input_buf_size` values.
    pub fn new<W: Scalar>(network: &Network<W>, input_buf_size: usize) -> (r: Self)
        requires
            input_buf_size * 2304 <= usize::MAX,
            forall|i: int|
                0 <= i < network.hidden_layers@.len() ==> (#[trigger] network.hidden_layers@[i]).outputs@.len()
                    * 2304 <= usize::MAX,
            network.outputs.outputs@.len() * 2304 <= usize::MAX,
        ensures
            r.input_layer_buffer@.len() == layer_buf_len(input_buf_size as nat),
            r.hidden_layer_buffers@.len() == network.hidden_layers@.len(),
            forall|i: int|
                0 <= i < network.hidden_layers@.len() ==> (#[trigger] r.hidden_layer_buffers@[i])@.len()
                    == layer_buf_len(network.hidden_layers@[i].outputs@.len()),
            r.output_layer_buffer@.len() == layer_buf_len(network.outputs.outputs@.len()),
    {
        let input_layer_buffer = build_layer_outputs_buf(input_buf_size);
        let mut hidden_layer_buffers: Vec<Vec<u8>> = Vec::new();
        for i in 0..network.hidden_layers.len()
            invariant
                hidden_layer_buffers@.len() == i,
                i <= network.hidden_layers@.len(),
                forall|k: int|
                    0 <= k < network.hidden_layers@.len() ==> (#[trigger] network.hidden_layers@[k]).outputs@.len()
                        * 2304 <= usize::MAX,
                forall|k: int|
                    0 <= k < i ==> (#[trigger] hidden_layer_buffers@[k])@.len() == layer_buf_len(
                        network.hidden_layers@[k].outputs@.len(),
                    ),
        {
            assert(network.hidden_layers@[i as int].outputs@.len() * 2304 <= usize::MAX);
            hidden_layer_buffers.push(build_layer_outputs_buf(network.hidden_layers[i].outputs.len()));
        }
        let output_layer_buffer = build_layer_outputs_buf(network.outputs.outputs.len());
        LayerVizState { input_layer_buffer, hidden_layer_buffers, output_layer_buffer }
    }
}

} // verus!
