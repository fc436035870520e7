use neurorisc::neuro::motifs::MotifError;
use neurorisc::neuro::network::Network;
use neurorisc::neuro::neuron::{NeuronKind, WEIGHT_ONE};
use neurorisc::templates::{build_sensory_circuit, sensory_circuit, CircuitParams, Jitter};

fn params() -> CircuitParams {
    CircuitParams { strong_weight: 4 * WEIGHT_ONE, inhibitory_weight: -10 * WEIGHT_ONE, noise_amt: 10_000 }
}

#[test]
fn sensory_circuit_layout() {
    let mut net = Network::new();
    let jitter = vec![
        Jitter { theta: 1_000, weight: 0 },
        Jitter { theta: -2_000, weight: 500_000 },
        Jitter { theta: 0, weight: -500_000 },
    ];
    let (input, decision) = sensory_circuit(&mut net, &params(), &jitter).unwrap();
    assert_eq!((input, decision), (0, 5));
    assert_eq!(net.neurons.len(), 6);
    assert_eq!(net.neurons[4].kind, NeuronKind::Inhibitory);
    assert_eq!(net.neurons[1].config.theta, -49_000);
    assert_eq!(net.neurons[2].config.theta, -52_000);
    assert_eq!(net.adjacency_list[0], vec![(1, 4_000_000, 1), (2, 4_500_000, 1), (3, 3_500_000, 1)]);
    assert_eq!(net.adjacency_list[1], vec![(4, 4 * WEIGHT_ONE, 1), (5, 4 * WEIGHT_ONE, 1)]);
    assert_eq!(net.adjacency_list[4], vec![(1, -10 * WEIGHT_ONE, 1), (2, -10 * WEIGHT_ONE, 1), (3, -10 * WEIGHT_ONE, 1)]);
}

#[test]
fn sensory_circuit_rejects_wrong_signs() {
    let mut net = Network::new();
    let jitter = vec![Jitter { theta: 0, weight: 0 }; 3];
    let mut p = params();
    p.inhibitory_weight = 1;
    assert_eq!(sensory_circuit(&mut net, &p, &jitter), Err(MotifError::PolarityViolation));
    assert_eq!(net.neurons.len(), 0);
    let mut p = params();
    p.strong_weight = -1;
    assert_eq!(build_sensory_circuit(&mut net, &p), Err(MotifError::PolarityViolation));
    assert_eq!(net.neurons.len(), 0);
}

#[test]
fn built_circuit_jitter_stays_in_range() {
    let mut weights = Vec::new();
    for _ in 0..8 {
        let mut net = Network::new();
        assert_eq!(build_sensory_circuit(&mut net, &params()), Ok((0, 5)));
        for k in 1..4 {
            let theta = net.neurons[k].config.theta;
            assert!(theta >= -60_000 && theta < -40_000);
        }
        for &(_, w, d) in &net.adjacency_list[0] {
            assert!(w >= 2 * WEIGHT_ONE && w < 6 * WEIGHT_ONE);
            assert_eq!(d, 1);
            weights.push(w);
        }
    }
    assert!(weights.iter().any(|&w| w != 2 * WEIGHT_ONE));
    assert!(weights.iter().any(|&w| w != weights[0]));
}
