//! Building blocks for fixed-step simulation of spiking neurons and synapses.
//!
//! Quantities are exact: a time or an output level is a whole number of ticks
//! of a base unit that the caller chooses (microseconds and microvolts, say).

pub mod macros;
pub mod spike_generators;
