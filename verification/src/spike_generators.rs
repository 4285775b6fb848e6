//! Neurons, generalised as "spike generators": units that are driven tick by
//! tick and say on each tick whether they spike and what they put out.

use vstd::prelude::*;

pub mod continuous;
pub mod discrete;

verus! {

/// A unit that, on every tick, either spikes or does not and reports an output
/// level of type `V`.
pub trait SpikeGenerator<V> {
    /// Whether the unit spikes on the current tick.
    spec fn spiking(&self) -> bool;

    /// Whether `level` is an output that the unit may report on the current tick.
    spec fn reports(&self, level: V) -> bool;

    /// Whether the unit spikes on the current tick. Asking changes nothing.
    fn did_spike(&self) -> (spiked: bool)
        ensures
            spiked == self.spiking(),
    ;

    /// The output of the unit on the current tick. Asking changes nothing.
    fn get_voltage(&self) -> (level: V)
        ensures
            self.reports(level),
    ;
}

/// A unit of a hidden layer: every step takes an input level and a time step.
pub trait InnerSpikeGenerator<V, T>: SpikeGenerator<V> {
    /// Applies exactly one step, driven by `input` over the duration `dt`.
    fn handle_input(&mut self, input: V, dt: T);
}

/// A unit of the input layer: a step takes nothing but the time step.
pub trait InputSpikeGenerator<V, T>: SpikeGenerator<V> {
    /// Whether a step of `dt` stays within what the unit's counters can hold.
    spec fn can_advance(&self, dt: T) -> bool;

    /// Whether `next` is a state that one step of `dt` may lead to from `self`.
    spec fn advanced(&self, dt: T, next: &Self) -> bool;

    /// Applies exactly one step of duration `dt`.
    fn advance(&mut self, dt: T)
        requires
            old(self).can_advance(dt),
        ensures
            old(self).advanced(dt, final(self)),
    ;
}

} // verus!
