//! Discrete input generators: units that spike at instants fixed in advance.

use std::cmp::Ordering;
use vstd::prelude::*;
use crate::spike_generators::{InputSpikeGenerator, SpikeGenerator};

verus! {

/// What a fixed-schedule generator is, as mathematics: the scheduled instants,
/// the current time, the tolerance and the cursor into the schedule.
pub struct Schedule {
    pub times: Seq<int>,
    pub now: int,
    pub tolerance: int,
    pub cursor: nat,
    pub spike_level: int,
}

impl Schedule {
    /// The schedule is not empty and the cursor is at most one past its end.
    pub open spec fn wf(self) -> bool {
        self.times.len() > 0 && self.cursor <= self.times.len()
    }

    /// The entry that the generator compares the time with: the one under the
    /// cursor, or the last one once the cursor has left the schedule.
    pub open spec fn target(self) -> int {
        if self.cursor >= self.times.len() {
            self.times.len() - 1
        } else {
            self.cursor as int
        }
    }

    /// The generator spikes when the time is strictly closer to the targeted
    /// instant than the tolerance.
    pub open spec fn spiking(self) -> bool {
        let away = self.times[self.target()] - self.now;
        -self.tolerance < away < self.tolerance
    }

    /// The level put out on the current tick.
    pub open spec fn level(self) -> int {
        if self.spiking() {
            self.spike_level
        } else {
            0
        }
    }

    /// The state after one step of `dt`: the time moves first, the cursor follows.
    pub open spec fn advance(self, dt: int) -> Schedule {
        Schedule { now: self.now + dt, cursor: cursor_after(self.times, self.cursor, self.now + dt), ..self }
    }
}

/// Where a cursor stands once it has left behind, starting at `from`, every
/// instant of `times` that lies strictly before `now`, up to the first that
/// does not.
pub open spec fn cursor_after(times: Seq<int>, from: nat, now: int) -> nat
    decreases times.len() - from,
{
    if from < times.len() && times[from as int] < now {
        cursor_after(times, from + 1, now)
    } else {
        from
    }
}

/// An input neuron that spikes at given instants.
#[derive(Debug)]
pub struct SpikeAtTimes {
    times: Vec<i64>,
    time: i64,
    error_tolerance: i64,
    idx: usize,
    spike_voltage: i64,
}

impl View for SpikeAtTimes {
    type V = Schedule;

    closed spec fn view(&self) -> Schedule {
        Schedule {
            times: self.times@.map_values(|t: i64| t as int),
            now: self.time as int,
            tolerance: self.error_tolerance as int,
            cursor: self.idx as nat,
            spike_level: self.spike_voltage as int,
        }
    }
}

impl SpikeAtTimes {
    #[verifier::type_invariant]
    spec fn inv(self) -> bool {
        self.times@.len() > 0 && self.idx <= self.times@.len()
    }

    /// Makes a generator that spikes at the instants of `times`, each within
    /// `tolerance` on either side, and then puts out `spike_voltage`.
    pub fn new(times: Vec<i64>, tolerance: i64, spike_voltage: i64) -> (made: SpikeAtTimes)
        requires
            times@.len() > 0,
        ensures
            made@ == (Schedule {
                times: times@.map_values(|t: i64| t as int),
                now: 0,
                tolerance: tolerance as int,
                cursor: 0,
                spike_level: spike_voltage as int,
            }),
    {
        SpikeAtTimes { times, time: 0, error_tolerance: tolerance, idx: 0, spike_voltage }
    }

    /// The current time.
    pub fn time(&self) -> (now: i64)
        ensures
            now == self@.now,
    {
        self.time
    }

    /// Where the cursor stands in the schedule.
    pub fn cursor(&self) -> (cursor: usize)
        ensures
            cursor == self@.cursor,
    {
        self.idx
    }
}

impl SpikeGenerator<i64> for SpikeAtTimes {
    open spec fn spiking(&self) -> bool {
        self@.spiking()
    }

    open spec fn reports(&self, level: i64) -> bool {
        level == self@.level()
    }

    fn did_spike(&self) -> (spiked: bool) {
        proof {
            use_type_invariant(self);
        }
        let at: usize = if self.idx >= self.times.len() {
            self.times.len() - 1
        } else {
            self.idx
        };
        let away: i128 = self.times[at] as i128 - self.time as i128;
        let tolerance: i128 = self.error_tolerance as i128;
        -tolerance < away && away < tolerance
    }

    fn get_voltage(&self) -> (level: i64) {
        if self.did_spike() {
            self.spike_voltage
        } else {
            0
        }
    }
}

impl InputSpikeGenerator<i64, i64> for SpikeAtTimes {
    open spec fn can_advance(&self, dt: i64) -> bool {
        i64::MIN <= self@.now + dt <= i64::MAX
    }

    open spec fn advanced(&self, dt: i64, next: &Self) -> bool {
        next@ == self@.advance(dt as int)
    }

    fn advance(&mut self, dt: i64) {
        proof {
            use_type_invariant(&*self);
        }
        self.time = self.time + dt;
        while self.idx < self.times.len() && self.times[self.idx] < self.time
            invariant
                self.times@.len() > 0,
                self.idx <= self.times@.len(),
                self.times == old(self).times,
                self.error_tolerance == old(self).error_tolerance,
                self.spike_voltage == old(self).spike_voltage,
                self.time == old(self).time + dt,
                old(self).idx <= self.idx,
                cursor_after(self@.times, self.idx as nat, self.time as int) == cursor_after(
                    self@.times,
                    old(self).idx as nat,
                    self.time as int,
                ),
            decreases self.times@.len() - self.idx,
        {
            self.idx = self.idx + 1;
        }
    }
}

/// The state after the steps of `dts`, taken in order.
pub open spec fn advance_all(start: Schedule, dts: Seq<int>) -> Schedule
    decreases dts.len(),
{
    if dts.len() == 0 {
        start
    } else {
        advance_all(start.advance(dts[0]), dts.drop_first())
    }
}

/// The cursor never goes back, and never leaves the schedule by more than one:
/// one step keeps it between where it stood and the schedule's length.
pub proof fn lemma_cursor_after_bounds(times: Seq<int>, from: nat, now: int)
    requires
        from <= times.len(),
    ensures
        from <= cursor_after(times, from, now) <= times.len(),
        forall|i: int| from <= i < cursor_after(times, from, now) ==> times[i] < now,
        cursor_after(times, from, now) < times.len() ==> times[cursor_after(times, from, now) as int]
            >= now,
    decreases times.len() - from,
{
    if from < times.len() && times[from as int] < now {
        lemma_cursor_after_bounds(times, from + 1, now);
    }
}

/// Whatever the steps are, in size and in sign, the cursor after them stands
/// at or beyond where it stood before, and the schedule itself is unchanged.
pub proof fn lemma_cursor_never_decreases(start: Schedule, dts: Seq<int>)
    requires
        start.wf(),
    ensures
        advance_all(start, dts).wf(),
        advance_all(start, dts).cursor >= start.cursor,
        advance_all(start, dts).times == start.times,
    decreases dts.len(),
{
    if dts.len() > 0 {
        lemma_cursor_after_bounds(start.times, start.cursor, start.now + dts[0]);
        lemma_cursor_never_decreases(start.advance(dts[0]), dts.drop_first());
    }
}

} // verus!

verus! {

/// What a rate-slot generator is, as mathematics: the current time, the slot
/// it is in, how many spikes the slot asks for and how many were counted.
pub struct Slots {
    pub now: int,
    pub slot_start: int,
    pub slot_end: int,
    pub rate: int,
    pub spiked: int,
    pub tolerance: int,
    pub spike_level: int,
}

impl Slots {
    /// A slot of length `D` that asks for `N > 0` spikes is cut into `N` parts
    /// of length `D / N`. The generator spikes when the time spent in the slot,
    /// less one part for every spike already counted, lies in `(0, tolerance]`.
    /// The inequalities are stated multiplied through by `N`, which keeps them
    /// exact. A slot that asks for no spikes, or for less, never spikes.
    pub open spec fn spiking(self) -> bool {
        let owed = self.rate * (self.now - self.slot_start) - self.spiked * (self.slot_end
            - self.slot_start);
        self.rate > 0 && 0 < owed <= self.rate * self.tolerance
    }

    /// The level put out on the current tick.
    pub open spec fn level(self) -> int {
        if self.spiking() {
            self.spike_level
        } else {
            0
        }
    }

    /// The first half of a step: a spike of the current tick is counted.
    pub open spec fn counted(self) -> Slots {
        if self.spiking() {
            Slots { spiked: self.spiked + 1, ..self }
        } else {
            self
        }
    }

    /// The second half of a step: the time moves by `dt`.
    pub open spec fn moved(self, dt: int) -> Slots {
        Slots { now: self.now + dt, ..self }
    }

    /// The time has left the slot, and the slots have not run out before.
    pub open spec fn slot_over(self) -> bool {
        self.now > self.slot_end && self.rate > -1
    }

    /// The state in the slot that follows. `next` is what the rate function
    /// gave for the current time: the spikes the new slot asks for and its
    /// end, or `None` when no slot is left, which silences the generator for
    /// good.
    pub open spec fn entered(self, next: Option<(i32, i64)>) -> Slots {
        match next {
            Some((rate, slot_end)) => Slots {
                slot_start: self.slot_end,
                slot_end: slot_end as int,
                rate: rate as int,
                spiked: 0,
                ..self
            },
            None => Slots { slot_start: self.slot_end, rate: -1, ..self },
        }
    }

    /// One step of `dt`: count, then move, then enter the next slot if the
    /// time has left this one. `next` is only looked at in that last case.
    pub open spec fn advance_with(self, dt: int, next: Option<(i32, i64)>) -> Slots {
        let moved = self.counted().moved(dt);
        if moved.slot_over() {
            moved.entered(next)
        } else {
            moved
        }
    }

    /// A step with its halves swapped: move and enter first, count last.
    pub open spec fn move_then_count(self, dt: int, next: Option<(i32, i64)>) -> Slots {
        let moved = self.moved(dt);
        if moved.slot_over() {
            moved.entered(next).counted()
        } else {
            moved.counted()
        }
    }
}

/// The order of the slot table: by start time, and by spike count where the
/// start times are equal.
pub open spec fn slot_before(a: (i64, i32), b: (i64, i32)) -> bool {
    a.0 < b.0 || (a.0 == b.0 && a.1 < b.1)
}

/// No slot of the table stands behind one that it is before.
pub open spec fn slots_sorted(table: Seq<(i64, i32)>) -> bool {
    forall|i: int, j: int| 0 <= i < j < table.len() ==> !slot_before(table[j], table[i])
}

/// The answer of a slot table at `time`, read from index `from` on: the first
/// slot that starts strictly before `time`, as the pair of its spike count
/// and its start time.
pub open spec fn first_started(table: Seq<(i64, i32)>, from: int, time: i64) -> Option<(i32, i64)>
    decreases table.len() - from,
{
    if 0 <= from < table.len() {
        if time > table[from].0 {
            Some((table[from].1, table[from].0))
        } else {
            first_started(table, from + 1, time)
        }
    } else {
        None
    }
}

/// Whatever the time, a sorted table answers with its first slot or not at
/// all: if any slot starts before the time, the first does.
pub proof fn lemma_sorted_table_answers_with_first_slot(table: Seq<(i64, i32)>, time: i64)
    requires
        slots_sorted(table),
    ensures
        first_started(table, 0, time) == if table.len() > 0 && time > table[0].0 {
            Some((table[0].1, table[0].0))
        } else {
            None::<(i32, i64)>
        },
{
    if table.len() > 0 && !(time > table[0].0) {
        lemma_none_started(table, 1, time);
    }
}

/// In a sorted table whose first slot has not started before the time, no
/// slot has.
proof fn lemma_none_started(table: Seq<(i64, i32)>, from: int, time: i64)
    requires
        slots_sorted(table),
        table.len() > 0,
        time <= table[0].0,
        1 <= from,
    ensures
        first_started(table, from, time).is_none(),
    decreases table.len() - from,
{
    if from < table.len() {
        assert(!slot_before(table[from], table[0]));
        lemma_none_started(table, from + 1, time);
    }
}

/// Compares two slots in the order of the table.
pub fn slot_order(a: &(i64, i32), b: &(i64, i32)) -> (order: Ordering)
    ensures
        order == Ordering::Less <==> slot_before(*a, *b),
        order == Ordering::Greater <==> slot_before(*b, *a),
        order == Ordering::Equal <==> *a == *b,
{
    if a.0 < b.0 {
        Ordering::Less
    } else if a.0 > b.0 {
        Ordering::Greater
    } else if a.1 < b.1 {
        Ordering::Less
    } else if a.1 > b.1 {
        Ordering::Greater
    } else {
        Ordering::Equal
    }
}

/// Sorts the table with `slice::sort_unstable_by`, which is given
/// `slot_order` to compare with. Trusted: that the slots afterwards are the
/// slots from before, each as often as before, and that none stands behind a
/// slot that it is before. `slot_order` is a total order, which is what the
/// sort asks of its comparison.
#[verifier::external_body]
fn sort_slots(table: &mut Vec<(i64, i32)>)
    ensures
        slots_sorted(final(table)@),
        final(table)@.to_multiset() == old(table)@.to_multiset(),
{
    table.sort_unstable_by(|a, b| slot_order(a, b));
}

/// A sorted slot table, read as a rate function.
pub struct SlotTable<'a> {
    slots: &'a Vec<(i64, i32)>,
}

impl<'a> View for SlotTable<'a> {
    type V = Seq<(i64, i32)>;

    closed spec fn view(&self) -> Seq<(i64, i32)> {
        self.slots@
    }
}

impl<'a> SlotTable<'a> {
    /// The answer of the table at `time`: the first slot that starts strictly
    /// before `time`, as the pair of its spike count and its start time, or
    /// `None` if no slot does.
    pub fn rate_at(&self, time: i64) -> (answer: Option<(i32, i64)>)
        ensures
            answer == first_started(self@, 0, time),
    {
        let mut at: usize = 0;
        while at < self.slots.len()
            invariant
                at <= self.slots.len(),
                first_started(self@, 0, time) == first_started(self@, at as int, time),
            decreases self.slots.len() - at,
        {
            if time > self.slots[at].0 {
                return Some((self.slots[at].1, self.slots[at].0));
            }
            at = at + 1;
        }
        None
    }
}

/// A neuron that spikes a given number of times in each of a run of time
/// slots. The slots come from `rate_at_time`, which is asked once for each
/// slot, with the time at which the slot before it was left.
pub struct SpikeAtRate<R: Fn(i64) -> Option<(i32, i64)>> {
    rate_at_time: R,
    time: i64,
    slot_start_time: i64,
    slot_end_time: i64,
    spike_voltage: i64,
    current_rate: i32,
    num_spiked: i32,
    tolerance: i64,
}

impl<R: Fn(i64) -> Option<(i32, i64)>> View for SpikeAtRate<R> {
    type V = Slots;

    closed spec fn view(&self) -> Slots {
        Slots {
            now: self.time as int,
            slot_start: self.slot_start_time as int,
            slot_end: self.slot_end_time as int,
            rate: self.current_rate as int,
            spiked: self.num_spiked as int,
            tolerance: self.tolerance as int,
            spike_level: self.spike_voltage as int,
        }
    }
}

impl<R: Fn(i64) -> Option<(i32, i64)>> SpikeAtRate<R> {
    #[verifier::type_invariant]
    spec fn inv(self) -> bool {
        forall|time: i64| call_requires(self.rate_at_time, (time,))
    }

    /// The rate function that the generator was made with.
    pub closed spec fn rate_fn(self) -> R {
        self.rate_at_time
    }

    /// Makes a generator at time 0 whose first slot ends at `slot_end_time`
    /// and asks for `starting_rate` spikes. `rate_fn` must answer at every
    /// time. A spike is seen within `tolerance` after the start of its part of
    /// the slot: to see each spike exactly once, step by more than
    /// `tolerance` and by less than twice as much.
    pub fn new(
        rate_fn: R,
        slot_end_time: i64,
        spike_voltage: i64,
        starting_rate: i32,
        tolerance: i64,
    ) -> (made: Self)
        requires
            forall|time: i64| call_requires(rate_fn, (time,)),
        ensures
            made.rate_fn() == rate_fn,
            made@ == (Slots {
                now: 0,
                slot_start: 0,
                slot_end: slot_end_time as int,
                rate: starting_rate as int,
                spiked: 0,
                tolerance: tolerance as int,
                spike_level: spike_voltage as int,
            }),
    {
        SpikeAtRate {
            rate_at_time: rate_fn,
            time: 0,
            slot_start_time: 0,
            slot_end_time,
            spike_voltage,
            current_rate: starting_rate,
            num_spiked: 0,
            tolerance,
        }
    }

    /// The current time.
    pub fn time(&self) -> (now: i64)
        ensures
            now == self@.now,
    {
        self.time
    }

    /// The end of the current slot.
    pub fn slot_end_time(&self) -> (slot_end: i64)
        ensures
            slot_end == self@.slot_end,
    {
        self.slot_end_time
    }

    /// The spikes that the current slot asks for; -1 once the slots have run out.
    pub fn current_rate(&self) -> (rate: i32)
        ensures
            rate == self@.rate,
    {
        self.current_rate
    }

    /// The spikes counted in the current slot.
    pub fn num_spiked(&self) -> (spiked: i32)
        ensures
            spiked == self@.spiked,
    {
        self.num_spiked
    }

    /// Enters the slot that follows the current one, as `next` describes it.
    pub fn enter_slot(&mut self, next: Option<(i32, i64)>)
        ensures
            final(self)@ == old(self)@.entered(next),
            final(self).rate_fn() == old(self).rate_fn(),
    {
        proof {
            use_type_invariant(&*self);
        }
        self.slot_start_time = self.slot_end_time;
        match next {
            Some((rate, slot_end)) => {
                self.current_rate = rate;
                self.slot_end_time = slot_end;
                self.num_spiked = 0;
            },
            None => {
                self.current_rate = -1;
            },
        }
    }
}

impl SpikeAtRate<fn(i64) -> Option<(i32, i64)>> {
    /// Sorts a table of slots, each a start time with the spikes asked for,
    /// by start time and then by spike count, and hands it back as a rate
    /// function: see `SlotTable::rate_at`.
    pub fn rate_fn_of_times<'a>(slot_starts_to_rate: &'a mut Vec<(i64, i32)>) -> (rate_fn:
        SlotTable<'a>)
        ensures
            slots_sorted(final(slot_starts_to_rate)@),
            final(slot_starts_to_rate)@.to_multiset() == old(slot_starts_to_rate)@.to_multiset(),
            rate_fn@ == final(slot_starts_to_rate)@,
    {
        sort_slots(slot_starts_to_rate);
        SlotTable { slots: &*slot_starts_to_rate }
    }
}

impl<R: Fn(i64) -> Option<(i32, i64)>> SpikeGenerator<i64> for SpikeAtRate<R> {
    open spec fn spiking(&self) -> bool {
        self@.spiking()
    }

    open spec fn reports(&self, level: i64) -> bool {
        level == self@.level()
    }

    fn did_spike(&self) -> (spiked: bool) {
        if self.current_rate <= 0 {
            return false;
        }
        let rate: i128 = self.current_rate as i128;
        let counted: i128 = self.num_spiked as i128;
        let spent: i128 = self.time as i128 - self.slot_start_time as i128;
        let length: i128 = self.slot_end_time as i128 - self.slot_start_time as i128;
        let tolerance: i128 = self.tolerance as i128;
        assert(-0x8000_0000_0000_0000_0000_0000 <= rate * spent <= 0x8000_0000_0000_0000_0000_0000
            && -0x8000_0000_0000_0000_0000_0000 <= counted * length
            <= 0x8000_0000_0000_0000_0000_0000 && -0x8000_0000_0000_0000_0000_0000 <= rate
            * tolerance <= 0x8000_0000_0000_0000_0000_0000) by (nonlinear_arith)
            requires
                0 < rate <= 0x7fff_ffff,
                -0x8000_0000 <= counted <= 0x7fff_ffff,
                -0x1_0000_0000_0000_0000 <= spent <= 0x1_0000_0000_0000_0000,
                -0x1_0000_0000_0000_0000 <= length <= 0x1_0000_0000_0000_0000,
                -0x1_0000_0000_0000_0000 <= tolerance <= 0x1_0000_0000_0000_0000,
        ;
        let owed: i128 = rate * spent - counted * length;
        0 < owed && owed <= rate * tolerance
    }

    fn get_voltage(&self) -> (level: i64) {
        if self.did_spike() {
            self.spike_voltage
        } else {
            0
        }
    }
}

impl<R: Fn(i64) -> Option<(i32, i64)>> InputSpikeGenerator<i64, i64> for SpikeAtRate<R> {
    open spec fn can_advance(&self, dt: i64) -> bool {
        &&& i64::MIN <= self@.now + dt <= i64::MAX
        &&& self@.spiking() ==> self@.spiked < i32::MAX
    }

    open spec fn advanced(&self, dt: i64, next: &Self) -> bool {
        let moved = self@.counted().moved(dt as int);
        &&& next.rate_fn() == self.rate_fn()
        &&& if moved.slot_over() {
            exists|answer: Option<(i32, i64)>|
                call_ensures(self.rate_fn(), (moved.now as i64,), answer) && next@
                    == self@.advance_with(dt as int, answer)
        } else {
            forall|answer: Option<(i32, i64)>| next@ == self@.advance_with(dt as int, answer)
        }
    }

    fn advance(&mut self, dt: i64) {
        proof {
            use_type_invariant(&*self);
        }
        // The spike of this tick is counted before the time moves: a caller
        // asks `did_spike` after a step, and counting at that point would hide
        // from it the very spike it asks about.
        if self.did_spike() {
            self.num_spiked = self.num_spiked + 1;
        }
        self.time = self.time + dt;
        if self.time > self.slot_end_time && self.current_rate > -1 {
            let answer = (self.rate_at_time)(self.time);
            self.enter_slot(answer);
            assert(self@ == old(self)@.advance_with(dt as int, answer));
        } else {
            assert(!old(self)@.counted().moved(dt as int).slot_over());
        }
    }
}

impl<R: Fn(i64) -> Option<(i32, i64)>> SpikeAtRate<R> {
    /// What the generator is as a `SpikeGenerator` and as an
    /// `InputSpikeGenerator`, for a caller that holds one with a function of
    /// its own.
    pub proof fn lemma_as_generator(self)
        ensures
            self.spiking() == self@.spiking(),
            forall|level: i64| #[trigger] self.reports(level) == (level == self@.level()),
            forall|dt: i64| #[trigger]
                self.can_advance(dt) == (i64::MIN <= self@.now + dt <= i64::MAX && (
                self@.spiking() ==> self@.spiked < i32::MAX)),
            forall|dt: i64, next: Self| #[trigger]
                self.advanced(dt, &next) == (next.rate_fn() == self.rate_fn() && if self@.counted().moved(
                    dt as int,
                ).slot_over() {
                    exists|answer: Option<(i32, i64)>|
                        call_ensures(
                            self.rate_fn(),
                            ((self@.now + dt) as i64,),
                            answer,
                        ) && next@ == self@.advance_with(dt as int, answer)
                } else {
                    next@ == self@.counted().moved(dt as int)
                }),
    {
        assert forall|dt: i64, next: Self| #[trigger]
            self.advanced(dt, &next) == (next.rate_fn() == self.rate_fn() && if self@.counted().moved(
                dt as int,
            ).slot_over() {
                exists|answer: Option<(i32, i64)>|
                    call_ensures(self.rate_fn(), ((self@.now + dt) as i64,), answer) && next@
                        == self@.advance_with(dt as int, answer)
            } else {
                next@ == self@.counted().moved(dt as int)
            }) by {
            if !self@.counted().moved(dt as int).slot_over() {
                assert(self@.advance_with(dt as int, None) == self@.counted().moved(dt as int));
            }
        }
    }
}

/// Once the slots have run out, they have run out for good: whatever the
/// steps that follow, and whatever the rate function would answer, the
/// generator stays out of slots and does not spike.
pub proof fn lemma_run_out_for_good(start: Slots, dt: int, next: Option<(i32, i64)>)
    requires
        start.rate <= -1,
    ensures
        !start.spiking(),
        start.advance_with(dt, next) == start.moved(dt),
        start.advance_with(dt, next).rate == start.rate,
        !start.advance_with(dt, next).spiking(),
{
}

/// With the halves of a step swapped, a spike would be counted on the tick on
/// which it is due, before anyone could ask for it: as long as a part of the
/// slot is at least as long as the tolerance, no tick would ever be seen to
/// spike.
pub proof fn lemma_move_then_count_hides_spikes(start: Slots, dt: int, next: Option<(i32, i64)>)
    requires
        ({
            let after = start.move_then_count(dt, next);
            after.rate > 0 ==> after.slot_end - after.slot_start >= after.rate * after.tolerance
        }),
    ensures
        !start.move_then_count(dt, next).spiking(),
{
    let moved = start.moved(dt);
    let entered = if moved.slot_over() {
        moved.entered(next)
    } else {
        moved
    };
    if entered.spiking() {
        let after = entered.counted();
        assert(after.spiked * (after.slot_end - after.slot_start) == entered.spiked * (
        entered.slot_end - entered.slot_start) + (entered.slot_end - entered.slot_start))
            by (nonlinear_arith)
            requires
                after.spiked == entered.spiked + 1,
                after.slot_end == entered.slot_end,
                after.slot_start == entered.slot_start,
        ;
    }
}

/// In the order that `advance` keeps, a spike that is due after a step is
/// seen after that step, where the swapped order would have hidden it: there
/// is a state and a step on which the two orders differ.
pub proof fn lemma_count_then_move_shows_spikes()
    ensures
        exists|start: Slots, dt: int, next: Option<(i32, i64)>|
            start.advance_with(dt, next).spiking() && !start.move_then_count(dt, next).spiking(),
{
    let start = Slots {
        now: 0,
        slot_start: 0,
        slot_end: 10,
        rate: 1,
        spiked: 0,
        tolerance: 2,
        spike_level: 1,
    };
    let next: Option<(i32, i64)> = None;
    let shown = start.advance_with(1, next);
    let hidden = start.move_then_count(1, next);
    assert(!start.spiking());
    assert(shown == start.moved(1));
    assert(start.moved(1).spiking());
    assert(hidden == Slots { spiked: 1, ..start.moved(1) });
    assert(!hidden.spiking());
}

} // verus!
