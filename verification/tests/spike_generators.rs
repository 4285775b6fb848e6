use brian_rs::spike_generators::continuous::WithSpikeDecay;
use brian_rs::spike_generators::discrete::{SlotTable, SpikeAtRate, SpikeAtTimes};
use brian_rs::spike_generators::{InputSpikeGenerator, SpikeGenerator};

// Times are counted in milliseconds and levels in millivolts.

#[test]
fn spike_generator_at_times() {
    let times = vec![1000, 2000];
    let mut spiker = SpikeAtTimes::new(times.clone(), 100, 300);

    for i in 0..=30 {
        assert_eq!(spiker.did_spike(), i == 5 || i == 10);
        spiker.advance(200);
    }
}

#[test]
fn exp_decay_on_generator() {
    let times = vec![1000, 2000];
    let discrete_spiker = SpikeAtTimes::new(times.clone(), 100, 500);
    // The decay is level * 2.0 * e^(-0.0 * t): nothing until the first spike,
    // 0.5 V on a spike and 1.0 V after it.
    let decay = |time: i64, spike: i64| {
        ((-(time as f64 / 1000.0) * 0.0).exp() * (spike as f64 / 1000.0) * 2.0 * 1000.0) as i64
    };
    let mut euler = WithSpikeDecay::new(discrete_spiker, decay);
    for i in 0..30 {
        assert_eq!(euler.did_spike(), i == 5 || i == 10);
        if euler.did_spike() {
            assert_eq!(euler.get_voltage(), 500);
        } else if i > 5 {
            assert_eq!(euler.get_voltage(), 1000);
        } else {
            assert_eq!(euler.get_voltage(), 0);
        }
        euler.advance(200);
    }
}

fn test_rate_fn(time: i64) -> Option<(i32, i64)> {
    assert!(time <= 2100, "Got invalid time {}", time);
    if time < 1000 {
        Option::Some((0, 1000))
    } else if time < 2000 {
        Option::Some((5, 2000))
    } else {
        Option::None
    }
}

#[test]
fn rate_input_generator() {
    let mut rate_neuron = SpikeAtRate::new(test_rate_fn, 1000, 500, 0, 150);
    let mut spike_count = 0;
    for i in 0..30 {
        if rate_neuron.did_spike() {
            assert!(i >= 10 && i <= 20);
            spike_count += 1;
        }
        rate_neuron.advance(100);
    }
    assert_eq!(spike_count, 5);
}

#[test]
fn schedule_spikes_strictly_within_tolerance() {
    let mut spiker = SpikeAtTimes::new(vec![1000], 100, 7);
    spiker.advance(900);
    assert!(!spiker.did_spike());
    assert_eq!(spiker.get_voltage(), 0);
    spiker.advance(1);
    assert!(spiker.did_spike());
    assert_eq!(spiker.get_voltage(), 7);
    spiker.advance(198);
    assert_eq!(spiker.time(), 1099);
    assert!(spiker.did_spike());
    spiker.advance(1);
    assert!(!spiker.did_spike());
}

#[test]
fn schedule_cursor_only_moves_forward() {
    let mut spiker = SpikeAtTimes::new(vec![10, 20, 30], 1, 1);
    let steps = [5, 6, -11, 0, 25, -40, 100, -100];
    let mut before = spiker.cursor();
    assert_eq!(before, 0);
    let mut seen = Vec::new();
    for dt in steps {
        spiker.advance(dt);
        assert!(spiker.cursor() >= before);
        before = spiker.cursor();
        seen.push(before);
    }
    assert_eq!(seen, vec![0, 1, 1, 1, 2, 2, 3, 3]);
}

#[test]
fn schedule_cursor_stops_at_first_instant_not_before_now() {
    // The instants need not be in order: the cursor passes those before the
    // time and stops at the first that is not.
    let mut spiker = SpikeAtTimes::new(vec![10, 50, 20], 1, 1);
    spiker.advance(30);
    assert_eq!(spiker.cursor(), 1);
    spiker.advance(30);
    assert_eq!(spiker.cursor(), 3);
}

#[test]
fn schedule_last_instant_is_kept_once_the_cursor_has_left() {
    let mut spiker = SpikeAtTimes::new(vec![10, 20], 5, 9);
    spiker.advance(22);
    assert_eq!(spiker.cursor(), 2);
    // 22 is within 5 of the last instant, 20.
    assert!(spiker.did_spike());
    assert_eq!(spiker.get_voltage(), 9);
    spiker.advance(3);
    assert!(!spiker.did_spike());
    // Going back in time brings the last instant within reach again.
    spiker.advance(-4);
    assert_eq!(spiker.cursor(), 2);
    assert!(spiker.did_spike());
}

#[test]
fn schedule_handles_the_ends_of_the_number_range() {
    let mut spiker = SpikeAtTimes::new(vec![i64::MAX], i64::MAX, 1);
    spiker.advance(i64::MIN);
    assert!(!spiker.did_spike());
    spiker.advance(i64::MAX);
    spiker.advance(2);
    assert_eq!(spiker.time(), 1);
    assert!(spiker.did_spike());
}

#[test]
fn rate_slot_without_spikes_is_silent() {
    let mut neuron = SpikeAtRate::new(|_time: i64| None, 1000, 500, 0, 150);
    for _ in 0..10 {
        assert!(!neuron.did_spike());
        assert_eq!(neuron.get_voltage(), 0);
        neuron.advance(100);
    }
    let mut negative = SpikeAtRate::new(|_time: i64| None, 1000, 500, -3, 150);
    for _ in 0..10 {
        assert!(!negative.did_spike());
        negative.advance(100);
    }
    assert_eq!(negative.current_rate(), -3);
}

#[test]
fn rate_slot_window_is_open_at_zero_and_closed_at_tolerance() {
    // One slot of 1000 that asks for 4 spikes: parts of 250.
    let mut neuron = SpikeAtRate::new(|_time: i64| None, 1000, 42, 4, 30);
    assert!(!neuron.did_spike());
    neuron.advance(30);
    assert!(neuron.did_spike());
    assert_eq!(neuron.get_voltage(), 42);
    neuron.advance(1);
    assert_eq!(neuron.num_spiked(), 1);
    assert!(!neuron.did_spike());
    neuron.advance(219);
    assert_eq!(neuron.time(), 250);
    assert!(!neuron.did_spike());
    neuron.advance(1);
    assert!(neuron.did_spike());
}

#[test]
fn rate_slot_parts_are_exact_fractions() {
    // A slot of 10 that asks for 3 spikes: parts of 10/3. After one counted
    // spike the window is (10/3, 10/3 + 1], which holds 4 and nothing else.
    let mut neuron = SpikeAtRate::new(|_time: i64| None, 10, 1, 3, 1);
    neuron.advance(1);
    assert!(neuron.did_spike());
    neuron.advance(2);
    assert_eq!(neuron.num_spiked(), 1);
    assert!(!neuron.did_spike());
    neuron.advance(1);
    assert!(neuron.did_spike());
    neuron.advance(1);
    assert!(!neuron.did_spike());
}

#[test]
fn rate_slots_roll_over_and_run_out() {
    let mut neuron = SpikeAtRate::new(
        |time: i64| if time < 25 { Some((2, 30)) } else { None },
        10,
        1,
        1,
        3,
    );
    neuron.advance(11);
    assert_eq!(neuron.current_rate(), 2);
    assert_eq!(neuron.slot_end_time(), 30);
    assert_eq!(neuron.num_spiked(), 0);
    // The new slot runs from 10 to 30: the time spent in it is 1.
    assert!(neuron.did_spike());
    neuron.advance(20);
    assert_eq!(neuron.current_rate(), -1);
    assert_eq!(neuron.slot_end_time(), 30);
    assert_eq!(neuron.num_spiked(), 1);
    assert!(!neuron.did_spike());
    neuron.advance(1000);
    assert_eq!(neuron.current_rate(), -1);
    assert!(!neuron.did_spike());
}

#[test]
fn rate_slot_entered_by_hand() {
    let mut neuron = SpikeAtRate::new(|_time: i64| None, 10, 1, 1, 3);
    neuron.advance(12);
    assert_eq!(neuron.current_rate(), -1);
    neuron.enter_slot(Some((4, 50)));
    assert_eq!(neuron.current_rate(), 4);
    assert_eq!(neuron.slot_end_time(), 50);
    assert_eq!(neuron.num_spiked(), 0);
    // The slot runs from 10 to 50 in parts of 10: the time spent in it is 2.
    assert!(neuron.did_spike());
    neuron.enter_slot(None);
    assert_eq!(neuron.current_rate(), -1);
    assert!(!neuron.did_spike());
}

#[test]
fn rate_table_is_sorted_and_answers_with_first_started_slot() {
    let mut table = vec![(30, 2), (10, 7), (20, 1), (10, 3)];
    let answers: Vec<Option<(i32, i64)>> = {
        let rates: SlotTable = SpikeAtRate::rate_fn_of_times(&mut table);
        vec![rates.rate_at(5), rates.rate_at(10), rates.rate_at(11), rates.rate_at(1000)]
    };
    assert_eq!(table, vec![(10, 3), (10, 7), (20, 1), (30, 2)]);
    assert_eq!(answers, vec![None, None, Some((3, 10)), Some((3, 10))]);
}

#[test]
fn rate_table_drives_a_generator() {
    let mut table = vec![(0, 2)];
    let rates = SpikeAtRate::rate_fn_of_times(&mut table);
    let mut neuron = SpikeAtRate::new(|time: i64| rates.rate_at(time), 10, 5, 0, 1);
    neuron.advance(11);
    assert_eq!(neuron.current_rate(), 2);
    assert_eq!(neuron.slot_end_time(), 0);
}

#[test]
fn empty_rate_table_has_no_slots() {
    let mut table: Vec<(i64, i32)> = Vec::new();
    let rates = SpikeAtRate::rate_fn_of_times(&mut table);
    assert_eq!(rates.rate_at(i64::MAX), None);
}

#[test]
fn decay_is_zero_until_the_first_spike() {
    let inner = SpikeAtTimes::new(vec![50], 5, 80);
    let mut unit = WithSpikeDecay::new(inner, |elapsed: i64, level: i64| level - elapsed);
    for _ in 0..4 {
        assert!(!unit.did_spike());
        assert_eq!(unit.get_voltage(), 0);
        unit.advance(10);
    }
    assert_eq!(unit.time_since_spike(), 40);
    unit.advance(10);
    assert!(unit.did_spike());
    assert_eq!(unit.get_voltage(), 80);
    assert_eq!(unit.time_since_spike(), 0);
    unit.advance(10);
    assert!(!unit.did_spike());
    assert_eq!(unit.get_voltage(), 70);
    unit.advance(10);
    assert_eq!(unit.get_voltage(), 60);
    assert_eq!(unit.discrete_neuron().time(), 70);
}

#[test]
fn decay_records_each_spike_anew() {
    let inner = SpikeAtTimes::new(vec![10, 30], 1, 8);
    let mut unit = WithSpikeDecay::new(inner, |elapsed: i64, level: i64| level * 100 + elapsed);
    unit.advance(10);
    assert_eq!(unit.get_voltage(), 8);
    unit.advance(10);
    assert_eq!(unit.get_voltage(), 810);
    unit.advance(10);
    assert!(unit.did_spike());
    assert_eq!(unit.get_voltage(), 8);
    assert_eq!(unit.time_since_spike(), 0);
    unit.advance(7);
    assert_eq!(unit.get_voltage(), 807);
}

#[test]
fn spike_at_construction_is_recorded() {
    let inner = SpikeAtTimes::new(vec![0], 5, 3);
    let mut unit = WithSpikeDecay::new(inner, |_elapsed: i64, _level: i64| 99);
    assert!(unit.did_spike());
    assert_eq!(unit.get_voltage(), 3);
    unit.advance(5);
    // The generator has spiked on the tick on which it was wrapped: the
    // silent tick that follows is one after the first spike.
    assert!(!unit.did_spike());
    assert_eq!(unit.get_voltage(), 99);
}

#[test]
fn decay_starts_from_a_spike_at_construction() {
    let inner = SpikeAtTimes::new(vec![0], 100, 500);
    let mut unit = WithSpikeDecay::new(inner, |_elapsed: i64, level: i64| level * 2);
    assert_eq!(unit.time_since_spike(), 0);
    unit.advance(250);
    assert!(!unit.did_spike());
    assert_eq!(unit.get_voltage(), 1000);
    assert_eq!(unit.time_since_spike(), 250);
}

#[test]
fn decay_sees_elapsed_time_and_recorded_level_from_construction() {
    let inner = SpikeAtTimes::new(vec![0], 5, 8);
    let mut unit = WithSpikeDecay::new(inner, |elapsed: i64, level: i64| level * 100 + elapsed);
    unit.advance(7);
    assert_eq!(unit.get_voltage(), 807);
    unit.advance(7);
    assert_eq!(unit.get_voltage(), 814);
}

#[test]
fn silent_generator_is_wrapped_without_a_record() {
    let inner = SpikeAtTimes::new(vec![50], 5, 8);
    let mut unit = WithSpikeDecay::new(inner, |_elapsed: i64, _level: i64| 99);
    assert!(!unit.did_spike());
    assert_eq!(unit.get_voltage(), 0);
    unit.advance(10);
    assert_eq!(unit.get_voltage(), 0);
}

#[test]
fn decay_decorators_nest() {
    let inner = SpikeAtTimes::new(vec![10], 1, 4);
    let once = WithSpikeDecay::new(inner, |_elapsed: i64, level: i64| level / 2);
    let mut twice = WithSpikeDecay::new(once, |elapsed: i64, level: i64| level + elapsed);
    twice.advance(10);
    assert!(twice.did_spike());
    assert_eq!(twice.get_voltage(), 4);
    twice.advance(3);
    assert!(!twice.did_spike());
    assert_eq!(twice.get_voltage(), 7);
}

#[test]
fn rate_slot_counts_a_spike_at_the_start_of_the_next_step() {
    // One slot of 10 that asks for one spike, seen within 2 of its start.
    let mut neuron = SpikeAtRate::new(|_time: i64| None, 10, 1, 1, 2);
    assert!(!neuron.did_spike());
    neuron.advance(1);
    // The step has reached the spike and has not counted it: it is seen.
    assert!(neuron.did_spike());
    assert_eq!(neuron.num_spiked(), 0);
    neuron.advance(1);
    // The next step has counted it before moving on: it is not seen twice,
    // though the time is still within the tolerance.
    assert_eq!(neuron.num_spiked(), 1);
    assert_eq!(neuron.time(), 2);
    assert!(!neuron.did_spike());
}
