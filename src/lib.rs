//! A numeric engine for small feedforward and recurrent neural networks:
//! dense layers, an output layer scored by a cost function, networks that
//! train on one example by back-propagation, and recurrent layers that train
//! on one sequence by back-propagation through time.
//!
//! The engine is generic over its arithmetic (`Scalar`), and every operation
//! states exactly which arithmetic it performs, in which order.

pub mod activation;
pub mod cost;
pub mod dense;
pub mod laws;
pub mod network;
pub mod output;
pub mod recurrent_layer;
pub mod recurrent_network;
pub mod rnn;
pub mod scalar;
pub mod viz;

pub use activation::{
    ActivationFunctionType, Ameo, Gaussian, GrowingCosineUnit, Identity, LeakyReLU, ReLU, Sigmoid,
    Swish, Tanh,
};
pub use cost::{CostFunctionType, MeanSquaredError, MeanSquaredErrorMultiplied};
pub use dense::DenseLayer;
pub use network::Network;
pub use output::OutputLayer;
pub use recurrent_layer::RecurrentLayer;
pub use recurrent_network::RecurrentNetwork;
pub use rnn::{RecurrentTree, RecurrentTreeLayerDef};
pub use scalar::Scalar;
pub use viz::{build_layer_outputs_buf, LayerVizState};
