pub mod neuron;
pub mod network;
pub mod motifs;
pub mod stimuli;
