use neurorisc::neuro::motifs::{
    convergent_excitation, cross_inhibition_following, disinhibition, divergent_excitation,
    feedback_excitation, feedback_inhibition, feedforward_excitation, feedforward_inhibition,
    lateral_inhibition, recurrent_excitation, ConnectionSpec, InputSpec, MotifError, OutputSpec,
};
use neurorisc::neuro::network::Network;
use neurorisc::neuro::neuron::{NeuronConfig, NeuronKind, WEIGHT_ONE};

const DT: u32 = 1000;

fn conn(weight: i64, delay: u32) -> ConnectionSpec {
    ConnectionSpec { weight, delay }
}

fn net_with(n: usize) -> Network {
    let mut net = Network::new();
    for _ in 0..n {
        net.add_neuron(NeuronKind::Excitatory, NeuronConfig::default());
    }
    net
}

fn spiked(net: &Network, id: usize) -> bool {
    let n = &net.neurons[id];
    n.state.refractory_left == n.config.refractory_period && n.state.v == n.config.v_reset
}

#[test]
fn ensure_polarity_checks() {
    assert_eq!(conn(0, 1).ensure_excitatory(), Ok(()));
    assert_eq!(conn(0, 1).ensure_inhibitory(), Ok(()));
    assert_eq!(conn(-1, 1).ensure_excitatory(), Err(MotifError::PolarityViolation));
    assert_eq!(conn(1, 1).ensure_inhibitory(), Err(MotifError::PolarityViolation));
}

#[test]
fn convergent_excitation_wires_inputs() {
    let mut net = net_with(2);
    let inputs = vec![InputSpec { id: 0, connection: conn(5, 1) }, InputSpec { id: 1, connection: conn(6, 2) }];
    let r = convergent_excitation(&mut net, inputs, NeuronConfig::default()).unwrap();
    assert_eq!(r, 2);
    assert_eq!(net.neurons[2].kind, NeuronKind::Excitatory);
    assert_eq!(net.adjacency_list[0], vec![(2, 5, 1)]);
    assert_eq!(net.adjacency_list[1], vec![(2, 6, 2)]);
    assert!(net.adjacency_list[2].is_empty());
}

#[test]
fn convergent_excitation_rejects_negative_weight() {
    let mut net = net_with(2);
    let config = NeuronConfig::default();
    let inputs = vec![InputSpec { id: 0, connection: conn(5, 1) }, InputSpec { id: 1, connection: conn(-1, 1) }];
    assert_eq!(convergent_excitation(&mut net, inputs, config), Err(MotifError::PolarityViolation));
    assert_eq!(net.neurons.len(), 2);
    assert!(net.adjacency_list[0].is_empty());
    assert_eq!(config, NeuronConfig::default());
    let inputs = vec![InputSpec { id: 9, connection: conn(5, 1) }];
    assert_eq!(convergent_excitation(&mut net, inputs, config), Err(MotifError::InvalidId));
    assert_eq!(net.neurons.len(), 2);
}

#[test]
fn divergent_excitation_creates_one_neuron_per_output() {
    let mut net = net_with(1);
    let c = NeuronConfig::default();
    let outputs = vec![
        OutputSpec { config: c, connection: conn(1, 1) },
        OutputSpec { config: c, connection: conn(2, 2) },
        OutputSpec { config: c, connection: conn(3, 3) },
    ];
    let ids = divergent_excitation(&mut net, 0, outputs).unwrap();
    assert_eq!(ids, vec![1, 2, 3]);
    assert_eq!(net.adjacency_list[0], vec![(1, 1, 1), (2, 2, 2), (3, 3, 3)]);
}

#[test]
fn divergent_excitation_rejects_negative_weight() {
    let mut net = net_with(1);
    let c = NeuronConfig::default();
    let outputs = vec![OutputSpec { config: c, connection: conn(1, 1) }, OutputSpec { config: c, connection: conn(-3, 1) }];
    assert_eq!(divergent_excitation(&mut net, 0, outputs), Err(MotifError::PolarityViolation));
    assert_eq!(net.neurons.len(), 1);
    assert!(net.adjacency_list[0].is_empty());
    let outputs = vec![OutputSpec { config: c, connection: conn(1, 1) }];
    assert_eq!(divergent_excitation(&mut net, 4, outputs), Err(MotifError::InvalidId));
    assert_eq!(net.neurons.len(), 1);
}

#[test]
fn feedforward_and_feedback_excitation() {
    let mut net = net_with(1);
    let c = NeuronConfig::default();
    let post = feedforward_excitation(&mut net, 0, OutputSpec { config: c, connection: conn(4, 1) }).unwrap();
    assert_eq!(post, 1);
    assert_eq!(net.adjacency_list[0], vec![(1, 4, 1)]);
    let back = feedback_excitation(&mut net, 1, c, conn(2, 1), conn(3, 2)).unwrap();
    assert_eq!(back, 2);
    assert_eq!(net.adjacency_list[1], vec![(2, 2, 1)]);
    assert_eq!(net.adjacency_list[2], vec![(1, 3, 2)]);
    assert_eq!(
        feedback_excitation(&mut net, 1, c, conn(2, 1), conn(-3, 2)),
        Err(MotifError::PolarityViolation)
    );
    assert_eq!(
        feedforward_excitation(&mut net, 0, OutputSpec { config: c, connection: conn(-4, 1) }),
        Err(MotifError::PolarityViolation)
    );
    assert_eq!(net.neurons.len(), 3);
}

#[test]
fn disinhibition_requires_inhibitory_source() {
    let mut net = net_with(1);
    let c = NeuronConfig::default();
    let inh = net.add_neuron(NeuronKind::Inhibitory, c);
    let out = OutputSpec { config: c, connection: conn(-2, 1) };
    assert_eq!(disinhibition(&mut net, 0, out), Err(MotifError::RoleViolation));
    assert_eq!(disinhibition(&mut net, 7, out), Err(MotifError::InvalidId));
    assert_eq!(
        disinhibition(&mut net, inh, OutputSpec { config: c, connection: conn(2, 1) }),
        Err(MotifError::PolarityViolation)
    );
    assert_eq!(net.neurons.len(), 2);
    let post = disinhibition(&mut net, inh, out).unwrap();
    assert_eq!(post, 2);
    assert_eq!(net.neurons[2].kind, NeuronKind::Inhibitory);
    assert_eq!(net.adjacency_list[inh], vec![(2, -2, 1)]);
}

#[test]
fn recurrent_excitation_connects_all_pairs() {
    let mut net = net_with(3);
    let inputs = vec![
        InputSpec { id: 0, connection: conn(1, 1) },
        InputSpec { id: 1, connection: conn(2, 2) },
        InputSpec { id: 2, connection: conn(3, 3) },
    ];
    recurrent_excitation(&mut net, &inputs).unwrap();
    assert_eq!(net.adjacency_list[0], vec![(1, 1, 1), (2, 1, 1)]);
    assert_eq!(net.adjacency_list[1], vec![(0, 2, 2), (2, 2, 2)]);
    assert_eq!(net.adjacency_list[2], vec![(0, 3, 3), (1, 3, 3)]);
}

#[test]
fn recurrent_excitation_errors() {
    let mut net = net_with(3);
    let one = vec![InputSpec { id: 0, connection: conn(1, 1) }];
    assert_eq!(recurrent_excitation(&mut net, &one), Err(MotifError::TooFewInputs));
    let neg = vec![InputSpec { id: 0, connection: conn(1, 1) }, InputSpec { id: 1, connection: conn(-1, 1) }];
    assert_eq!(recurrent_excitation(&mut net, &neg), Err(MotifError::PolarityViolation));
    let bad = vec![InputSpec { id: 0, connection: conn(1, 1) }, InputSpec { id: 8, connection: conn(1, 1) }];
    assert_eq!(recurrent_excitation(&mut net, &bad), Err(MotifError::InvalidId));
    assert!(net.adjacency_list.iter().all(|r| r.is_empty()));
}

#[test]
fn feedforward_inhibition_wiring() {
    let mut net = net_with(1);
    let c = NeuronConfig::default();
    let (f, i) = feedforward_inhibition(&mut net, 0, conn(5, 1), conn(6, 1), c, c, conn(-7, 2)).unwrap();
    assert_eq!((f, i), (1, 2));
    assert_eq!(net.neurons[2].kind, NeuronKind::Inhibitory);
    assert_eq!(net.adjacency_list[0], vec![(1, 5, 1), (2, 6, 1)]);
    assert_eq!(net.adjacency_list[2], vec![(1, -7, 2)]);
    assert_eq!(
        feedforward_inhibition(&mut net, 0, conn(5, 1), conn(6, 1), c, c, conn(7, 2)),
        Err(MotifError::PolarityViolation)
    );
}

#[test]
fn feedback_inhibition_wiring() {
    let mut net = net_with(1);
    let c = NeuronConfig::default();
    let (f, i) = feedback_inhibition(&mut net, 0, conn(5, 1), conn(6, 1), c, c, conn(-7, 2)).unwrap();
    assert_eq!((f, i), (1, 2));
    assert_eq!(net.adjacency_list[0], vec![(1, 5, 1)]);
    assert_eq!(net.adjacency_list[1], vec![(2, 6, 1)]);
    assert_eq!(net.adjacency_list[2], vec![(1, -7, 2)]);
    assert_eq!(
        feedback_inhibition(&mut net, 3, conn(5, 1), conn(6, 1), c, c, conn(-7, 2)),
        Err(MotifError::InvalidId)
    );
}

#[test]
fn cross_inhibition_wiring() {
    let mut net = net_with(4);
    let c = NeuronConfig::default();
    let (ia, ib) =
        cross_inhibition_following(&mut net, 0, 1, 2, 3, conn(1, 1), conn(2, 1), conn(-3, 1), conn(-4, 1), c, c)
            .unwrap();
    assert_eq!((ia, ib), (4, 5));
    assert_eq!(net.adjacency_list[0], vec![(4, 1, 1)]);
    assert_eq!(net.adjacency_list[4], vec![(3, -4, 1)]);
    assert_eq!(net.adjacency_list[2], vec![(5, 2, 1)]);
    assert_eq!(net.adjacency_list[5], vec![(1, -3, 1)]);
    assert_eq!(
        cross_inhibition_following(&mut net, 0, 1, 2, 3, conn(1, 1), conn(2, 1), conn(3, 1), conn(-4, 1), c, c),
        Err(MotifError::PolarityViolation)
    );
}

#[test]
fn lateral_inhibition_wiring() {
    let mut net = net_with(2);
    let c = NeuronConfig::default();
    let i = lateral_inhibition(&mut net, vec![(0, conn(5, 1)), (1, conn(5, 1))], vec![(0, conn(-9, 1)), (1, conn(-9, 2))], c)
        .unwrap();
    assert_eq!(i, 2);
    assert_eq!(net.adjacency_list[0], vec![(2, 5, 1)]);
    assert_eq!(net.adjacency_list[2], vec![(0, -9, 1), (1, -9, 2)]);
    assert_eq!(
        lateral_inhibition(&mut net, vec![(0, conn(5, 1))], vec![(1, conn(9, 1))], c),
        Err(MotifError::PolarityViolation)
    );
    assert_eq!(
        lateral_inhibition(&mut net, vec![(0, conn(5, 1))], vec![(11, conn(-9, 1))], c),
        Err(MotifError::InvalidId)
    );
    assert_eq!(net.neurons.len(), 3);
}

#[test]
fn divergent_circuit_spikes_by_second_tick() {
    let mut net = Network::new();
    let c = NeuronConfig::default();
    let input = net.add_neuron(NeuronKind::Excitatory, c);
    let outputs = vec![OutputSpec { config: c, connection: conn(16 * WEIGHT_ONE, 1) }; 3];
    let branches = divergent_excitation(&mut net, input, outputs).unwrap();
    net.resize_events();
    net.schedule_spike(input, 20 * WEIGHT_ONE, 0);
    let mut fired = vec![false; 3];
    for _ in 0..3 {
        net.tick(DT);
        for (k, &b) in branches.iter().enumerate() {
            fired[k] |= spiked(&net, b);
        }
    }
    assert_eq!(fired, vec![true, true, true]);
    assert!(net.t <= 3);
}

fn pair_drive(with_inhibition: bool) -> Vec<usize> {
    let mut net = net_with(2);
    if with_inhibition {
        lateral_inhibition(
            &mut net,
            vec![(0, conn(16 * WEIGHT_ONE, 1)), (1, conn(16 * WEIGHT_ONE, 1))],
            vec![(0, conn(-10 * WEIGHT_ONE, 1)), (1, conn(-10 * WEIGHT_ONE, 1))],
            NeuronConfig::default(),
        )
        .unwrap();
    }
    net.resize_events();
    net.schedule_spike(0, 20 * WEIGHT_ONE, 0);
    net.schedule_spike(1, 3 * WEIGHT_ONE, 0);
    let mut b_spikes = Vec::new();
    for t in 0..10 {
        net.tick(DT);
        if spiked(&net, 1) {
            b_spikes.push(t);
        }
    }
    b_spikes
}

#[test]
fn lateral_inhibition_suppresses_second_spike() {
    assert_eq!(pair_drive(false), vec![2]);
    assert_eq!(pair_drive(true), Vec::<usize>::new());
}
