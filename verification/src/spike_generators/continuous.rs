//! Ways of making the output of a discrete generator continuous in time.

use vstd::prelude::*;
use crate::spike_generators::{InputSpikeGenerator, SpikeGenerator};

verus! {

/// A decay function that answers for every time and every level.
struct Decay<F: Fn(i64, i64) -> i64> {
    decay_fn: F,
}

impl<F: Fn(i64, i64) -> i64> Decay<F> {
    #[verifier::type_invariant]
    spec fn inv(self) -> bool {
        forall|elapsed: i64, level: i64| call_requires(self.decay_fn, (elapsed, level))
    }

    fn at(&self, elapsed: i64, level: i64) -> (decayed: i64)
        ensures
            call_ensures(self.decay_fn, (elapsed, level), decayed),
    {
        proof {
            use_type_invariant(self);
        }
        (self.decay_fn)(elapsed, level)
    }
}

/// Adds a decay in time to the output of the discrete generator `D`. The
/// output is 0 until the generator spikes. On a tick on which it spikes the
/// output is the generator's own. From then on, between spikes, it is what the
/// decay function makes of the time since the last spike and of the output at
/// that spike. Spikes are seen once a tick, when the decorator is made and at
/// the end of every step: the time since a spike may be off by as much as one
/// step.
pub struct WithSpikeDecay<D: InputSpikeGenerator<i64, i64>, F: Fn(i64, i64) -> i64> {
    time_since_spike: i64,
    discrete_neuron: D,
    spike_voltage: i64,
    spiked_yet: bool,
    spike_decay_fn: Decay<F>,
}

impl<D: InputSpikeGenerator<i64, i64>, F: Fn(i64, i64) -> i64> WithSpikeDecay<D, F> {
    /// The generator inside.
    pub closed spec fn inner(self) -> D {
        self.discrete_neuron
    }

    /// The decay function.
    pub closed spec fn decay_fn(self) -> F {
        self.spike_decay_fn.decay_fn
    }

    /// Whether the generator inside has spiked on this tick or on a tick
    /// before it.
    pub closed spec fn has_spiked(self) -> bool {
        self.spiked_yet
    }

    /// The time since the last tick on which the generator inside spiked;
    /// before the first such tick, the time since the start.
    pub closed spec fn elapsed(self) -> int {
        self.time_since_spike as int
    }

    /// The output of the generator inside on the last tick on which it
    /// spiked; 0 before the first.
    pub closed spec fn recorded(self) -> int {
        self.spike_voltage as int
    }

    /// The time since the last spike and the output at that spike are
    /// numbers that the decay function can be given.
    pub proof fn lemma_counters_fit(self)
        ensures
            i64::MIN <= self.elapsed() <= i64::MAX,
            i64::MIN <= self.recorded() <= i64::MAX,
    {
    }

    /// Wraps `discrete_neuron`. `spike_decay_fn` takes the time since the last
    /// spike and the output at that spike, and must answer for every pair. A
    /// generator that spikes on the tick on which it is wrapped has spiked:
    /// its output is recorded, and the decay starts from there.
    pub fn new(discrete_neuron: D, spike_decay_fn: F) -> (made: Self)
        requires
            forall|elapsed: i64, level: i64| call_requires(spike_decay_fn, (elapsed, level)),
        ensures
            made.inner() == discrete_neuron,
            made.decay_fn() == spike_decay_fn,
            made.has_spiked() == discrete_neuron.spiking(),
            made.elapsed() == 0,
            discrete_neuron.spiking() ==> discrete_neuron.reports(made.recorded() as i64),
            !discrete_neuron.spiking() ==> made.recorded() == 0,
    {
        let spiked_yet = discrete_neuron.did_spike();
        let spike_voltage = if spiked_yet {
            discrete_neuron.get_voltage()
        } else {
            0
        };
        WithSpikeDecay {
            time_since_spike: 0,
            discrete_neuron,
            spike_voltage,
            spiked_yet,
            spike_decay_fn: Decay { decay_fn: spike_decay_fn },
        }
    }

    /// The generator inside.
    pub fn discrete_neuron(&self) -> (inner: &D)
        ensures
            *inner == self.inner(),
    {
        &self.discrete_neuron
    }

    /// The time since the last tick on which the generator inside spiked.
    pub fn time_since_spike(&self) -> (elapsed: i64)
        ensures
            elapsed == self.elapsed(),
    {
        self.time_since_spike
    }
}

impl<D: InputSpikeGenerator<i64, i64>, F: Fn(i64, i64) -> i64> SpikeGenerator<
    i64,
> for WithSpikeDecay<D, F> {
    open spec fn spiking(&self) -> bool {
        self.inner().spiking()
    }

    open spec fn reports(&self, level: i64) -> bool {
        if self.inner().spiking() {
            self.inner().reports(level)
        } else if !self.has_spiked() {
            level == 0
        } else {
            call_ensures(self.decay_fn(), (self.elapsed() as i64, self.recorded() as i64), level)
        }
    }

    fn did_spike(&self) -> (spiked: bool) {
        self.discrete_neuron.did_spike()
    }

    fn get_voltage(&self) -> (level: i64) {
        if self.did_spike() {
            self.discrete_neuron.get_voltage()
        } else if !self.spiked_yet {
            0
        } else {
            self.spike_decay_fn.at(self.time_since_spike, self.spike_voltage)
        }
    }
}

impl<D: InputSpikeGenerator<i64, i64>, F: Fn(i64, i64) -> i64> InputSpikeGenerator<
    i64,
    i64,
> for WithSpikeDecay<D, F> {
    open spec fn can_advance(&self, dt: i64) -> bool {
        &&& self.inner().can_advance(dt)
        &&& i64::MIN <= self.elapsed() + dt <= i64::MAX
    }

    open spec fn advanced(&self, dt: i64, next: &Self) -> bool {
        &&& self.inner().advanced(dt, &next.inner())
        &&& next.decay_fn() == self.decay_fn()
        &&& if next.inner().spiking() {
            &&& next.has_spiked()
            &&& next.elapsed() == 0
            &&& next.inner().reports(next.recorded() as i64)
        } else {
            &&& next.has_spiked() == self.has_spiked()
            &&& next.elapsed() == self.elapsed() + dt
            &&& next.recorded() == self.recorded()
        }
    }

    fn advance(&mut self, dt: i64) {
        self.discrete_neuron.advance(dt);
        if self.discrete_neuron.did_spike() {
            self.spiked_yet = true;
            self.time_since_spike = 0;
            self.spike_voltage = self.discrete_neuron.get_voltage();
            return ;
        }
        self.time_since_spike = self.time_since_spike + dt;
    }
}

impl<D: InputSpikeGenerator<i64, i64>, F: Fn(i64, i64) -> i64> WithSpikeDecay<D, F> {
    /// What the decorator is as a `SpikeGenerator` and as an
    /// `InputSpikeGenerator`, for a caller that holds one with a function of
    /// its own.
    pub proof fn lemma_as_generator(self)
        ensures
            self.spiking() == self.inner().spiking(),
            forall|level: i64| #[trigger]
                self.reports(level) == (if self.inner().spiking() {
                    self.inner().reports(level)
                } else if !self.has_spiked() {
                    level == 0
                } else {
                    call_ensures(
                        self.decay_fn(),
                        (self.elapsed() as i64, self.recorded() as i64),
                        level,
                    )
                }),
            forall|dt: i64| #[trigger]
                self.can_advance(dt) == (self.inner().can_advance(dt) && i64::MIN <= self.elapsed()
                    + dt <= i64::MAX),
            forall|dt: i64, next: Self| #[trigger]
                self.advanced(dt, &next) == (self.inner().advanced(dt, &next.inner())
                    && next.decay_fn() == self.decay_fn() && if next.inner().spiking() {
                    next.has_spiked() && next.elapsed() == 0 && next.inner().reports(
                        next.recorded() as i64,
                    )
                } else {
                    next.has_spiked() == self.has_spiked() && next.elapsed() == self.elapsed() + dt
                        && next.recorded() == self.recorded()
                }),
    {
    }
}

/// A run of a decorator from the state in which `new` made it: `states` holds
/// the state on every tick, and each follows from the one before by the step
/// of `dts` that lies between them.
pub open spec fn is_run<D: InputSpikeGenerator<i64, i64>, F: Fn(i64, i64) -> i64>(
    states: Seq<WithSpikeDecay<D, F>>,
    dts: Seq<i64>,
) -> bool {
    &&& states.len() == dts.len() + 1
    &&& states[0].has_spiked() == states[0].inner().spiking()
    &&& forall|tick: int| 0 <= tick < dts.len() ==> states[tick].advanced(dts[tick], &states[tick + 1])
}

/// Up to the first spike of the generator inside, the decorator of a run has
/// seen no spike.
pub proof fn lemma_quiet_until_first_spike<D: InputSpikeGenerator<i64, i64>, F: Fn(i64, i64) -> i64>(
    states: Seq<WithSpikeDecay<D, F>>,
    dts: Seq<i64>,
    tick: int,
)
    requires
        is_run(states, dts),
        0 <= tick < states.len(),
        forall|earlier: int| 0 <= earlier <= tick ==> !states[earlier].spiking(),
    ensures
        !states[tick].has_spiked(),
    decreases tick,
{
    if tick > 0 {
        lemma_quiet_until_first_spike(states, dts, tick - 1);
        assert(states[tick - 1].advanced(dts[tick - 1], &states[tick - 1 + 1]));
        assert(!states[tick].spiking());
    } else {
        assert(!states[0].spiking());
    }
}

/// From the first spike of the generator inside on, whenever that is, the
/// decorator of a run has seen a spike: on the tick of the spike and on
/// every tick after it.
pub proof fn lemma_spiked_from_first_spike<D: InputSpikeGenerator<i64, i64>, F: Fn(i64, i64) -> i64>(
    states: Seq<WithSpikeDecay<D, F>>,
    dts: Seq<i64>,
    spike: int,
    tick: int,
)
    requires
        is_run(states, dts),
        0 <= spike <= tick < states.len(),
        states[spike].spiking(),
    ensures
        states[tick].has_spiked(),
    decreases tick,
{
    if tick > 0 {
        assert(states[tick - 1].advanced(dts[tick - 1], &states[tick - 1 + 1]));
        if spike < tick {
            lemma_spiked_from_first_spike(states, dts, spike, tick - 1);
        }
    }
}

/// On every tick that comes before the first spike of the generator inside,
/// the decorator puts out exactly 0. On every tick on which that generator
/// spikes, whenever that is, it puts out what the generator does. And on
/// every silent tick after a spike it puts out what the decay function makes
/// of the time since the last spike and of the output recorded at it.
pub proof fn lemma_decay_baseline<D: InputSpikeGenerator<i64, i64>, F: Fn(i64, i64) -> i64>(
    states: Seq<WithSpikeDecay<D, F>>,
    dts: Seq<i64>,
    tick: int,
    level: i64,
)
    requires
        is_run(states, dts),
        0 <= tick < states.len(),
        states[tick].reports(level),
    ensures
        (forall|earlier: int| 0 <= earlier <= tick ==> !states[earlier].spiking()) ==> level == 0,
        states[tick].spiking() ==> states[tick].inner().reports(level),
        !states[tick].spiking() && (exists|earlier: int|
            0 <= earlier <= tick && states[earlier].spiking()) ==> call_ensures(
            states[tick].decay_fn(),
            (states[tick].elapsed() as i64, states[tick].recorded() as i64),
            level,
        ),
{
    if forall|earlier: int| 0 <= earlier <= tick ==> !states[earlier].spiking() {
        lemma_quiet_until_first_spike(states, dts, tick);
    }
    if exists|earlier: int| 0 <= earlier <= tick && states[earlier].spiking() {
        let earlier = choose|earlier: int| 0 <= earlier <= tick && states[earlier].spiking();
        lemma_spiked_from_first_spike(states, dts, earlier, tick);
    }
}

} // verus!
