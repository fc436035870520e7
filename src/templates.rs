use vstd::prelude::*;

use rand::Rng;

use crate::neuro::motifs::{
    convergent_excitation, diverge, divergent_excitation, lateral_inhibition, spawn, wire_into,
    wire_pairs_from, wire_pairs_into, ConnectionSpec, InputSpec, MotifError, OutputSpec,
};
use crate::neuro::network::{with_neuron, Network};
use crate::neuro::neuron::{default_config, NeuronConfig, NeuronId, NeuronKind};

verus! {

/// Weight of the edges from the input to the processing layer, before jitter.
pub const BASE_WEIGHT: i64 = 4_000_000;

/// Bound of the jitter of those weights: offsets lie in `-WEIGHT_NOISE .. WEIGHT_NOISE`.
pub const WEIGHT_NOISE: i64 = 2_000_000;

/// Number of neurons in the processing layer.
pub const LAYER_SIZE: usize = 3;

/// Weights of the circuit's strong and inhibitory edges, in millionths, and the
/// largest jitter (exclusive) of the processing neurons' thresholds, in microvolts.
#[derive(Clone, Copy, Debug, PartialEq, Eq, Structural)]
pub struct CircuitParams {
    pub strong_weight: i64,
    pub inhibitory_weight: i64,
    pub noise_amt: i32,
}

/// Random offsets of one processing neuron: of its threshold (microvolts) and of
/// the weight of the edge that reaches it.
#[derive(Clone, Copy, Debug, PartialEq, Eq, Structural)]
pub struct Jitter {
    pub theta: i32,
    pub weight: i64,
}

/// The processing neuron that a jitter describes: default parameters with the
/// threshold shifted (saturating), reached by an edge of delay 1.
pub open spec fn jittered_output(j: Jitter) -> OutputSpec {
    OutputSpec {
        config: NeuronConfig {
            theta: if default_config().theta + j.theta < i32::MIN {
                i32::MIN
            } else if default_config().theta + j.theta > i32::MAX {
                i32::MAX
            } else {
                (default_config().theta + j.theta) as i32
            },
            ..default_config()
        },
        connection: ConnectionSpec { weight: (BASE_WEIGHT + j.weight) as i64, delay: 1 },
    }
}

pub open spec fn layer_outputs(jitter: Seq<Jitter>) -> Seq<OutputSpec> {
    jitter.map_values(|j: Jitter| jittered_output(j))
}

/// Each processing neuron, paired with one edge of the given weight and delay 1.
pub open spec fn layer_pairs(first: NeuronId, weight: i64) -> Seq<(NeuronId, ConnectionSpec)> {
    Seq::new(LAYER_SIZE as nat, |k: int| ((first + k) as NeuronId, ConnectionSpec { weight, delay: 1 }))
}

pub open spec fn layer_inputs(first: NeuronId, weight: i64) -> Seq<InputSpec> {
    Seq::new(
        LAYER_SIZE as nat,
        |k: int| InputSpec { id: (first + k) as NeuronId, connection: ConnectionSpec { weight, delay: 1 } },
    )
}

/// Every weight offset lies in `-WEIGHT_NOISE .. WEIGHT_NOISE`.
pub open spec fn jitter_bounded(jitter: Seq<Jitter>) -> bool {
    forall|k: int| 0 <= k < jitter.len() ==> -WEIGHT_NOISE <= (#[trigger] jitter[k]).weight < WEIGHT_NOISE
}

/// The sensory circuit, built with the given jitter, is what `after` adds to `before`:
/// the neurons and synapses that [`sensory_circuit`] describes, with pending events
/// and time unchanged.
pub open spec fn circuit_wired(before: Network, after: Network, params: CircuitParams, jitter: Seq<Jitter>) -> bool {
    let n = before.neurons@.len();
    let outs = layer_outputs(jitter);
    &&& after.neurons@ == with_neuron(
        with_neuron(
            spawn(with_neuron(before.neurons@, NeuronKind::Excitatory, default_config()), outs),
            NeuronKind::Inhibitory,
            default_config(),
        ),
        NeuronKind::Excitatory,
        default_config(),
    )
    &&& after.adjacency() == wire_into(
        wire_pairs_from(
            wire_pairs_into(
                diverge(before.adjacency().push(seq![]), n as NeuronId, outs).push(seq![]),
                layer_pairs((n + 1) as NeuronId, params.strong_weight),
                (n + 4) as NeuronId,
            ),
            (n + 4) as NeuronId,
            layer_pairs((n + 1) as NeuronId, params.inhibitory_weight),
        ).push(seq![]),
        layer_inputs((n + 1) as NeuronId, params.strong_weight),
        (n + 5) as NeuronId,
    )
    &&& after.same_clock(before)
}

/// A jitter that `build_sensory_circuit` can draw: one per processing neuron, weight
/// offsets in `-WEIGHT_NOISE .. WEIGHT_NOISE`, threshold offsets in
/// `-noise_amt .. noise_amt` (zero where `noise_amt` is not positive).
pub open spec fn jitter_drawn(jitter: Seq<Jitter>, noise_amt: i32) -> bool {
    &&& jitter.len() == LAYER_SIZE
    &&& jitter_bounded(jitter)
    &&& forall|k: int|
        0 <= k < jitter.len() ==> if noise_amt > 0 {
            -(noise_amt as int) <= (#[trigger] jitter[k]).theta < noise_amt
        } else {
            jitter[k].theta == 0
        }
}

/// Relies on rand's `rng` and `Rng::random_range`: a value of the thread's
/// generator within `lo .. hi` (the range must not be empty).
#[verifier::external_body]
fn random_in(lo: i64, hi: i64) -> (r: i64)
    requires
        lo < hi,
    ensures
        lo <= r < hi,
{
    rand::rng().random_range(lo..hi)
}

/// Builds the sensory circuit with the given jitter (one per processing neuron):
/// an input neuron; a processing layer of three neurons that the input reaches by
/// divergence; a lateral inhibitor that every processing neuron drives with
/// `strong_weight` and that inhibits every one with `inhibitory_weight`; and a
/// decision neuron that the layer reaches by convergence with `strong_weight`.
/// Every edge has delay 1. Gives the input and decision neurons. The weights are
/// checked first: on an error the network is unchanged.
pub fn sensory_circuit(network: &mut Network, params: &CircuitParams, jitter: &Vec<Jitter>) -> (r: Result<
    (NeuronId, NeuronId),
    MotifError,
>)
    requires
        old(network).wf(),
        jitter@.len() == LAYER_SIZE,
        jitter_bounded(jitter@),
        old(network).neurons@.len() + 6 < usize::MAX,
    ensures
        final(network).wf(),
        r is Err ==> final(network).same_as(*old(network)),
        r is Ok <==> (params.strong_weight >= 0 && params.inhibitory_weight <= 0),
        r is Err ==> r == Err::<(NeuronId, NeuronId), MotifError>(MotifError::PolarityViolation),
        r is Ok ==> r == Ok::<(NeuronId, NeuronId), MotifError>(
            (old(network).neurons@.len() as NeuronId, (old(network).neurons@.len() + 5) as NeuronId),
        ),
        r is Ok ==> circuit_wired(*old(network), *final(network), *params, jitter@),
{
    let ghost n = old(network).neurons@.len();
    if params.strong_weight < 0 || params.inhibitory_weight > 0 {
        return Err(MotifError::PolarityViolation);
    }
    let default_cfg = NeuronConfig::default();
    let mut outputs: Vec<OutputSpec> = Vec::new();
    let mut k: usize = 0;
    while k < jitter.len()
        invariant
            k <= jitter@.len(),
            default_cfg == default_config(),
            outputs@ == layer_outputs(jitter@.take(k as int)),
            jitter_bounded(jitter@),
            *network == *old(network),
        decreases jitter@.len() - k,
    {
        let j = jitter[k];
        assert(jitter@[k as int] == j);
        let mut cfg = default_cfg;
        let shifted: i64 = cfg.theta as i64 + j.theta as i64;
        cfg.theta = if shifted < i32::MIN as i64 {
            i32::MIN
        } else if shifted > i32::MAX as i64 {
            i32::MAX
        } else {
            shifted as i32
        };
        outputs.push(OutputSpec { config: cfg, connection: ConnectionSpec { weight: BASE_WEIGHT + j.weight, delay: 1 } });
        assert(outputs@ =~= layer_outputs(jitter@.take(k + 1)));
        k += 1;
    }
    assert(jitter@.take(k as int) =~= jitter@);
    let ghost outs = outputs@;
    assert forall|i: int| 0 <= i < outs.len() implies (#[trigger] outs[i]).connection.excitatory() && outs[i].config.wf() by {
        assert(-WEIGHT_NOISE <= jitter@[i].weight < WEIGHT_NOISE);
    }
    let input_id = network.add_neuron(NeuronKind::Excitatory, default_cfg);
    let layer = match divergent_excitation(network, input_id, outputs) {
        Ok(ids) => ids,
        Err(e) => {
            return Err(e);
        },
    };
    assert(layer@.len() == 3);
    let strong = ConnectionSpec { weight: params.strong_weight, delay: 1 };
    let inhibitory = ConnectionSpec { weight: params.inhibitory_weight, delay: 1 };
    let mut exc_inputs: Vec<(NeuronId, ConnectionSpec)> = Vec::new();
    let mut inh_targets: Vec<(NeuronId, ConnectionSpec)> = Vec::new();
    let mut convergence: Vec<InputSpec> = Vec::new();
    let ghost mid = *network;
    let mut k: usize = 0;
    while k < layer.len()
        invariant
            network.wf(),
            network.same_as(mid),
            k <= layer@.len(),
            layer@ == Seq::new(3, |i: int| (n + 1 + i) as NeuronId),
            n + 6 < usize::MAX,
            exc_inputs@ == layer_pairs((n + 1) as NeuronId, params.strong_weight).take(k as int),
            inh_targets@ == layer_pairs((n + 1) as NeuronId, params.inhibitory_weight).take(k as int),
            convergence@ == layer_inputs((n + 1) as NeuronId, params.strong_weight).take(k as int),
            strong == (ConnectionSpec { weight: params.strong_weight, delay: 1 }),
            inhibitory == (ConnectionSpec { weight: params.inhibitory_weight, delay: 1 }),
        decreases layer@.len() - k,
    {
        let id = layer[k];
        exc_inputs.push((id, strong));
        inh_targets.push((id, inhibitory));
        convergence.push(InputSpec { id, connection: strong });
        assert(exc_inputs@ =~= layer_pairs((n + 1) as NeuronId, params.strong_weight).take(k + 1));
        assert(inh_targets@ =~= layer_pairs((n + 1) as NeuronId, params.inhibitory_weight).take(k + 1));
        assert(convergence@ =~= layer_inputs((n + 1) as NeuronId, params.strong_weight).take(k + 1));
        k += 1;
    }
    assert(exc_inputs@ =~= layer_pairs((n + 1) as NeuronId, params.strong_weight));
    assert(inh_targets@ =~= layer_pairs((n + 1) as NeuronId, params.inhibitory_weight));
    assert(convergence@ =~= layer_inputs((n + 1) as NeuronId, params.strong_weight));
    let _inhibitor = match lateral_inhibition(network, exc_inputs, inh_targets, default_cfg) {
        Ok(id) => id,
        Err(e) => {
            return Err(e);
        },
    };
    let decision = match convergent_excitation(network, convergence, default_cfg) {
        Ok(id) => id,
        Err(e) => {
            return Err(e);
        },
    };
    Ok((input_id, decision))
}

/// Builds the sensory circuit (see [`sensory_circuit`]) with fresh random jitter:
/// each processing neuron's threshold is shifted by less than `noise_amt` either
/// way (not at all where `noise_amt` is not positive), and each edge into the layer
/// weighs `BASE_WEIGHT` give or take less than `WEIGHT_NOISE`.
pub fn build_sensory_circuit(network: &mut Network, params: &CircuitParams) -> (r: Result<
    (NeuronId, NeuronId),
    MotifError,
>)
    requires
        old(network).wf(),
        old(network).neurons@.len() + 6 < usize::MAX,
    ensures
        final(network).wf(),
        r is Err ==> final(network).same_as(*old(network)),
        r is Ok <==> (params.strong_weight >= 0 && params.inhibitory_weight <= 0),
        r is Err ==> r == Err::<(NeuronId, NeuronId), MotifError>(MotifError::PolarityViolation),
        r is Ok ==> r == Ok::<(NeuronId, NeuronId), MotifError>(
            (old(network).neurons@.len() as NeuronId, (old(network).neurons@.len() + 5) as NeuronId),
        ),
        r is Ok ==> final(network).neurons@.len() == old(network).neurons@.len() + 6,
        r is Ok ==> exists|jitter: Seq<Jitter>|
            jitter_drawn(jitter, params.noise_amt) && #[trigger] circuit_wired(
                *old(network),
                *final(network),
                *params,
                jitter,
            ),
{
    let mut jitter: Vec<Jitter> = Vec::new();
    let mut k: usize = 0;
    while k < LAYER_SIZE
        invariant
            k <= LAYER_SIZE,
            jitter@.len() == k,
            jitter_bounded(jitter@),
            forall|i: int|
                0 <= i < jitter@.len() ==> if params.noise_amt > 0 {
                    -(params.noise_amt as int) <= (#[trigger] jitter@[i]).theta < params.noise_amt
                } else {
                    jitter@[i].theta == 0
                },
        decreases LAYER_SIZE - k,
    {
        let theta: i32 = if params.noise_amt > 0 {
            random_in(-(params.noise_amt as i64), params.noise_amt as i64) as i32
        } else {
            0
        };
        let weight = random_in(-WEIGHT_NOISE, WEIGHT_NOISE);
        let ghost before = jitter@;
        jitter.push(Jitter { theta, weight });
        assert forall|i: int| 0 <= i < jitter@.len() implies -WEIGHT_NOISE <= (#[trigger] jitter@[i]).weight
            < WEIGHT_NOISE && if params.noise_amt > 0 {
            -(params.noise_amt as int) <= jitter@[i].theta < params.noise_amt
        } else {
            jitter@[i].theta == 0
        } by {
            if i < k {
                assert(jitter@[i] == before[i]);
            }
        }
        k += 1;
    }
    let r = sensory_circuit(network, params, &jitter);
    proof {
        if r is Ok {
            assert(jitter_drawn(jitter@, params.noise_amt));
            assert(circuit_wired(*old(network), *network, *params, jitter@));
            let n = old(network).neurons@.len();
            let outs = layer_outputs(jitter@);
            crate::neuro::motifs::lemma_spawn_len(
                with_neuron(old(network).neurons@, NeuronKind::Excitatory, default_config()),
                outs,
            );
        }
    }
    r
}

} // verus!
