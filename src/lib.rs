//! Event-driven simulation of small networks of leaky integrate-and-fire
//! neurons, with a library of wiring motifs and stimulus generators.
//!
//! All quantities are fixed-point integers: potentials in microvolts, times
//! in microseconds (or whole ticks), and synaptic weights and conductances
//! in millionths (see [`neuro::neuron::WEIGHT_ONE`]).

pub mod cli;
pub mod isa;
pub mod neuro;
pub mod templates;
