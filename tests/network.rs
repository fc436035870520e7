use neurorisc::neuro::network::{ConnectError, Network};
use neurorisc::neuro::neuron::{Neuron, NeuronConfig, NeuronKind, NeuronState, WEIGHT_ONE};

const DT: u32 = 1000;

fn spiked(net: &Network, id: usize) -> bool {
    let n = &net.neurons[id];
    n.state.refractory_left == n.config.refractory_period && n.state.v == n.config.v_reset
}

#[test]
fn default_config_values() {
    let c = NeuronConfig::default();
    assert_eq!(c.v_rest, -65_000);
    assert_eq!(c.v_reset, -75_000);
    assert_eq!(c.tau_m, 20_000);
    assert_eq!(c.theta, -50_000);
    assert_eq!(c.refractory_period, 5);
    assert_eq!(c.tau_syn, 5_000);
    assert_eq!(c.e_exc, 0);
    assert_eq!(c.e_inh, -70_000);
}

#[test]
fn new_neuron_starts_at_rest() {
    let c = NeuronConfig::default();
    let n = Neuron::new(NeuronKind::Inhibitory, c);
    assert_eq!(n.kind, NeuronKind::Inhibitory);
    assert_eq!(n.state, NeuronState { v: -65_000, refractory_left: 0, g_exc: 0, g_inh: 0 });
}

#[test]
fn receive_splits_by_sign() {
    let mut n = Neuron::new(NeuronKind::Excitatory, NeuronConfig::default());
    n.receive(3 * WEIGHT_ONE);
    n.receive(-2 * WEIGHT_ONE);
    n.receive(i64::MIN);
    assert_eq!(n.state.g_exc, 3_000_000);
    assert_eq!(n.state.g_inh, 2_000_000 + (1u64 << 63));
    n.receive(i64::MIN);
    assert_eq!(n.state.g_inh, u64::MAX);
}

#[test]
fn update_integrates_exactly() {
    let mut n = Neuron::new(NeuronKind::Excitatory, NeuronConfig::default());
    n.receive(WEIGHT_ONE);
    // g decays by a fifth to 0.8; drive = 0.8 * 65 mV = 52 mV; dv = 52 / 20 = 2.6 mV.
    assert!(!n.update(DT));
    assert_eq!(n.state.g_exc, 800_000);
    assert_eq!(n.state.v, -65_000 + 2_600);
}

#[test]
fn add_neuron_assigns_sequential_ids() {
    let mut net = Network::new();
    let c = NeuronConfig::default();
    assert_eq!(net.add_neuron(NeuronKind::Excitatory, c), 0);
    assert_eq!(net.add_neuron(NeuronKind::Inhibitory, c), 1);
    assert_eq!(net.neurons.len(), 2);
    assert_eq!(net.adjacency_list.len(), 2);
    assert!(net.adjacency_list[1].is_empty());
}

#[test]
fn connect_rejects_unknown_ids() {
    let mut net = Network::new();
    let a = net.add_neuron(NeuronKind::Excitatory, NeuronConfig::default());
    assert_eq!(net.connect(a, 5, WEIGHT_ONE, 1), Err(ConnectError::InvalidId));
    assert_eq!(net.connect(5, a, WEIGHT_ONE, 1), Err(ConnectError::InvalidId));
    assert!(net.adjacency_list[a].is_empty());
    assert_eq!(net.connect(a, a, -WEIGHT_ONE, 3), Ok(()));
    assert_eq!(net.adjacency_list[a], vec![(a, -WEIGHT_ONE, 3)]);
}

#[test]
fn resize_events_covers_largest_delay() {
    let mut net = Network::new();
    let c = NeuronConfig::default();
    let a = net.add_neuron(NeuronKind::Excitatory, c);
    let b = net.add_neuron(NeuronKind::Excitatory, c);
    net.resize_events();
    assert_eq!(net.events.len(), 2);
    net.connect(a, b, WEIGHT_ONE, 7).unwrap();
    net.connect(b, a, WEIGHT_ONE, 3).unwrap();
    net.resize_events();
    assert_eq!(net.events.len(), 9);
    net.connect(b, a, WEIGHT_ONE, 1).unwrap();
    net.resize_events();
    assert_eq!(net.events.len(), 9);
}

#[test]
fn resting_neuron_stays_at_rest() {
    let mut net = Network::new();
    let a = net.add_neuron(NeuronKind::Excitatory, NeuronConfig::default());
    net.resize_events();
    for _ in 0..200 {
        net.tick(DT);
        assert_eq!(net.neurons[a].state.v, -65_000);
        assert_eq!(net.neurons[a].state.g_exc, 0);
    }
    assert_eq!(net.t, 200);
}

#[test]
fn scheduled_spike_arrives_after_exact_delay() {
    for d in 0..6u32 {
        let mut net = Network::new();
        let mut c = NeuronConfig::default();
        c.theta = 1_000_000;
        let a = net.add_neuron(NeuronKind::Excitatory, c);
        let b = net.add_neuron(NeuronKind::Excitatory, c);
        net.connect(a, b, WEIGHT_ONE, 5).unwrap();
        net.resize_events();
        for _ in 0..3 {
            net.tick(DT);
        }
        let t0 = net.t;
        net.schedule_spike(b, 2 * WEIGHT_ONE, d);
        let mut arrivals = Vec::new();
        for _ in 0..20 {
            let before = net.neurons[b].state.g_exc;
            let at = net.t;
            net.tick(DT);
            if net.neurons[b].state.g_exc > before {
                arrivals.push(at);
            }
        }
        assert_eq!(arrivals, vec![t0 + d as usize]);
    }
}

#[test]
fn delay_zero_is_delivered_by_next_tick() {
    let mut net = Network::new();
    let a = net.add_neuron(NeuronKind::Excitatory, NeuronConfig::default());
    net.resize_events();
    net.schedule_spike(a, -WEIGHT_ONE, 0);
    net.tick(DT);
    assert_eq!(net.neurons[a].state.g_inh, 800_000);
}

#[test]
fn refractory_period_holds_under_strong_drive() {
    let mut net = Network::new();
    let a = net.add_neuron(NeuronKind::Excitatory, NeuronConfig::default());
    net.resize_events();
    let mut spikes = Vec::new();
    for t in 0..30 {
        net.schedule_spike(a, 50 * WEIGHT_ONE, 0);
        net.tick(DT);
        if spiked(&net, a) {
            spikes.push(t);
        } else if !spikes.is_empty() && net.neurons[a].state.refractory_left > 0 {
            assert_eq!(net.neurons[a].state.v, -75_000);
        }
    }
    assert_eq!(spikes, vec![0, 6, 12, 18, 24]);
}

#[test]
fn spike_propagates_along_synapses() {
    let mut net = Network::new();
    let c = NeuronConfig::default();
    let a = net.add_neuron(NeuronKind::Excitatory, c);
    let b = net.add_neuron(NeuronKind::Excitatory, c);
    net.connect(a, b, 20 * WEIGHT_ONE, 2).unwrap();
    net.resize_events();
    net.schedule_spike(a, 20 * WEIGHT_ONE, 0);
    net.tick(DT);
    assert!(spiked(&net, a));
    net.tick(DT);
    assert_eq!(net.neurons[b].state.g_exc, 0);
    net.tick(DT);
    assert!(spiked(&net, b));
}

#[test]
fn delay_zero_edge_arrives_on_next_tick() {
    let mut net = Network::new();
    let c = NeuronConfig::default();
    let a = net.add_neuron(NeuronKind::Excitatory, c);
    let b = net.add_neuron(NeuronKind::Excitatory, c);
    net.connect(a, b, 20 * WEIGHT_ONE, 0).unwrap();
    net.resize_events();
    assert_eq!(net.events.len(), 2);
    net.schedule_spike(a, 20 * WEIGHT_ONE, 0);
    net.tick(DT);
    assert!(spiked(&net, a));
    assert_eq!(net.events[net.t % net.events.len()], vec![(b, 20 * WEIGHT_ONE)]);
    net.tick(DT);
    assert!(spiked(&net, b));
}
