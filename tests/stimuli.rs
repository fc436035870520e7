use neurorisc::neuro::network::Network;
use neurorisc::neuro::neuron::{NeuronConfig, NeuronKind, WEIGHT_ONE};
use neurorisc::neuro::stimuli::{trial_fires, StimulusMode, StimulusRunner, StimulusSpec};

const DT: u32 = 1000;

fn network() -> Network {
    let mut net = Network::new();
    let mut c = NeuronConfig::default();
    c.theta = 1_000_000;
    net.add_neuron(NeuronKind::Excitatory, c);
    net.add_neuron(NeuronKind::Excitatory, c);
    net.resize_events();
    net
}

fn spec(mode: StimulusMode) -> StimulusSpec {
    StimulusSpec { mode, enabled: true }
}

/// Runs `ticks` steps of apply-then-tick; gives, per tick, the events queued for it.
fn drive(runner: &mut StimulusRunner, net: &mut Network, ticks: usize) -> Vec<Vec<(usize, i64)>> {
    let mut out = Vec::new();
    for _ in 0..ticks {
        runner.apply(net);
        let slot = net.t % net.events.len();
        out.push(net.events[slot].clone());
        net.tick(DT);
    }
    out
}

fn event_ticks(events: &[Vec<(usize, i64)>]) -> Vec<(usize, usize)> {
    events.iter().enumerate().filter(|(_, e)| !e.is_empty()).map(|(t, e)| (t, e.len())).collect()
}

#[test]
fn manual_pulse_fires_once() {
    let mut net = network();
    let mut runner = StimulusRunner::new(DT);
    runner.fire(1, 1, &spec(StimulusMode::ManualPulse { amplitude: 7 * WEIGHT_ONE }), &net);
    let ev = drive(&mut runner, &mut net, 4);
    assert_eq!(ev[0], vec![(1, 7 * WEIGHT_ONE)]);
    assert_eq!(event_ticks(&ev), vec![(0, 1)]);
}

#[test]
fn fire_replaces_same_id() {
    let mut net = network();
    let mut runner = StimulusRunner::new(DT);
    runner.fire(3, 0, &spec(StimulusMode::ManualPulse { amplitude: 1 }), &net);
    runner.fire(3, 0, &spec(StimulusMode::ManualPulse { amplitude: 2 }), &net);
    runner.fire(4, 1, &spec(StimulusMode::ManualPulse { amplitude: 5 }), &net);
    let ev = drive(&mut runner, &mut net, 2);
    assert_eq!(ev[0], vec![(0, 2), (1, 5)]);
}

#[test]
fn clear_drops_all_stimuli() {
    let mut net = network();
    let mut runner = StimulusRunner::new(DT);
    runner.fire(1, 0, &spec(StimulusMode::ManualPulse { amplitude: 1 }), &net);
    runner.clear();
    let ev = drive(&mut runner, &mut net, 3);
    assert!(event_ticks(&ev).is_empty());
}

#[test]
fn spike_train_fires_at_offsets() {
    let mut net = network();
    let mut runner = StimulusRunner::new(DT);
    runner.fire(1, 0, &spec(StimulusMode::SpikeTrain { times: vec![0, 2, 5], looped: false }), &net);
    let ev = drive(&mut runner, &mut net, 10);
    assert_eq!(event_ticks(&ev), vec![(0, 1), (2, 1), (5, 1)]);
    assert_eq!(ev[2], vec![(0, WEIGHT_ONE)]);
}

#[test]
fn looped_spike_train_repeats() {
    let mut net = network();
    let mut runner = StimulusRunner::new(DT);
    runner.fire(1, 0, &spec(StimulusMode::SpikeTrain { times: vec![0, 2, 5], looped: true }), &net);
    let ev = drive(&mut runner, &mut net, 13);
    assert_eq!(event_ticks(&ev), vec![(0, 1), (2, 1), (5, 2), (7, 1), (10, 2), (12, 1)]);
}

#[test]
fn spike_train_times_round_to_ticks() {
    let mut net = network();
    let mut runner = StimulusRunner::new(300);
    runner.fire(1, 0, &spec(StimulusMode::SpikeTrain { times: vec![1, 2], looped: false }), &net);
    let ev = drive(&mut runner, &mut net, 10);
    assert_eq!(event_ticks(&ev), vec![(3, 1), (7, 1)]);
}

#[test]
fn empty_spike_train_registers_nothing() {
    let mut net = network();
    let mut runner = StimulusRunner::new(DT);
    runner.fire(1, 0, &spec(StimulusMode::ManualPulse { amplitude: 1 }), &net);
    runner.fire(1, 0, &spec(StimulusMode::SpikeTrain { times: vec![], looped: true }), &net);
    let ev = drive(&mut runner, &mut net, 3);
    assert!(event_ticks(&ev).is_empty());
}

#[test]
fn current_step_pulses_at_rate() {
    let mut net = network();
    let mut runner = StimulusRunner::new(DT);
    runner.fire(1, 1, &spec(StimulusMode::CurrentStep { amp: 7, start: 2, stop: 6, rate: 500 }), &net);
    let ev = drive(&mut runner, &mut net, 10);
    assert_eq!(event_ticks(&ev), vec![(2, 1), (4, 1), (6, 1)]);
    assert_eq!(ev[4], vec![(1, 7)]);
}

#[test]
fn current_step_with_zero_rate_pulses_every_tick() {
    let mut net = network();
    let mut runner = StimulusRunner::new(DT);
    runner.fire(1, 1, &spec(StimulusMode::CurrentStep { amp: 7, start: 1, stop: 3, rate: 0 }), &net);
    let ev = drive(&mut runner, &mut net, 6);
    assert_eq!(event_ticks(&ev), vec![(1, 1), (2, 1), (3, 1)]);
}

#[test]
fn stimulus_starts_relative_to_current_tick() {
    let mut net = network();
    for _ in 0..4 {
        net.tick(DT);
    }
    let mut runner = StimulusRunner::new(DT);
    runner.fire(1, 0, &spec(StimulusMode::SpikeTrain { times: vec![1], looped: false }), &net);
    let ev = drive(&mut runner, &mut net, 4);
    assert_eq!(event_ticks(&ev), vec![(1, 1)]);
}

fn poisson_events(seed: u64) -> Vec<Vec<(usize, i64)>> {
    let mut net = network();
    let mut runner = StimulusRunner::new(DT);
    let mode = StimulusMode::Poisson { rate: 200, seed, start: 0, stop: Some(300) };
    runner.fire(9, 0, &spec(mode), &net);
    drive(&mut runner, &mut net, 320)
}

#[test]
fn poisson_is_reproducible_from_seed() {
    let a = poisson_events(42);
    let b = poisson_events(42);
    assert_eq!(a, b);
    let n = event_ticks(&a).len();
    assert!(n > 20 && n < 120, "{} events", n);
    assert!(event_ticks(&a).iter().all(|&(t, c)| t >= 1 && t <= 300 && c == 1));
    assert_ne!(a, poisson_events(43));
}

#[test]
fn poisson_rejects_empty_descriptions() {
    let mut net = network();
    let mut runner = StimulusRunner::new(DT);
    runner.fire(1, 0, &spec(StimulusMode::Poisson { rate: 0, seed: 1, start: 0, stop: None }), &net);
    runner.fire(2, 0, &spec(StimulusMode::Poisson { rate: 900, seed: 1, start: 5, stop: Some(4) }), &net);
    let ev = drive(&mut runner, &mut net, 20);
    assert!(event_ticks(&ev).is_empty());
}

#[test]
fn trial_threshold_is_exact() {
    // rate 250 Hz over 1 ms: probability 1/4, threshold 2^62.
    assert!(trial_fires((1u64 << 62) - 1, 250, 1000));
    assert!(!trial_fires(1u64 << 62, 250, 1000));
    assert!(!trial_fires(0, 0, 1000));
    assert!(trial_fires(u64::MAX, 1000, 1000));
}
