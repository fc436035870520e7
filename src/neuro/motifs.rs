use vstd::prelude::*;

use crate::neuro::network::{with_neuron, with_synapse, Network, Synapse};
use crate::neuro::neuron::{Neuron, NeuronConfig, NeuronId, NeuronKind};

verus! {

/// Weight and delay (in ticks) of one edge that a motif wires.
#[derive(Clone, Copy, Debug, PartialEq, Eq, Structural)]
pub struct ConnectionSpec {
    pub weight: i64,
    pub delay: u32,
}

/// An existing neuron and the edge that leaves it.
#[derive(Clone, Copy, Debug, PartialEq, Eq, Structural)]
pub struct InputSpec {
    pub id: NeuronId,
    pub connection: ConnectionSpec,
}

/// A neuron to create and the edge that reaches it.
#[derive(Clone, Copy, Debug, PartialEq, Eq, Structural)]
pub struct OutputSpec {
    pub config: NeuronConfig,
    pub connection: ConnectionSpec,
}

/// Why a motif refused to wire. A motif checks everything before it changes the
/// network, so on any error the network is left as it was.
#[derive(Clone, Copy, Debug, PartialEq, Eq, Structural)]
pub enum MotifError {
    /// A given neuron id is not a neuron of the network.
    InvalidId,
    /// An edge's weight has the wrong sign for its role.
    PolarityViolation,
    /// A neuron's kind does not fit its role in the motif.
    RoleViolation,
    /// The motif needs more input neurons than were given.
    TooFewInputs,
}

impl ConnectionSpec {
    pub open spec fn excitatory(&self) -> bool {
        self.weight >= 0
    }

    pub open spec fn inhibitory(&self) -> bool {
        self.weight <= 0
    }

    /// Accepts an edge that may carry excitation: its weight is not negative.
    pub fn ensure_excitatory(&self) -> (r: Result<(), MotifError>)
        ensures
            r is Ok <==> self.excitatory(),
            r is Err ==> r == Err::<(), MotifError>(MotifError::PolarityViolation),
    {
        if self.weight >= 0 {
            Ok(())
        } else {
            Err(MotifError::PolarityViolation)
        }
    }

    /// Accepts an edge that may carry inhibition: its weight is not positive.
    pub fn ensure_inhibitory(&self) -> (r: Result<(), MotifError>)
        ensures
            r is Ok <==> self.inhibitory(),
            r is Err ==> r == Err::<(), MotifError>(MotifError::PolarityViolation),
    {
        if self.weight <= 0 {
            Ok(())
        } else {
            Err(MotifError::PolarityViolation)
        }
    }
}

impl Network {
    /// The two networks hold the same neurons, synapses, pending events and time.
    pub open spec fn same_as(&self, other: Network) -> bool {
        &&& self.neurons@ == other.neurons@
        &&& self.adjacency() == other.adjacency()
        &&& self.queue() == other.queue()
        &&& self.t == other.t
    }

    /// The two networks hold the same pending events and time.
    pub open spec fn same_clock(&self, other: Network) -> bool {
        &&& self.queue() == other.queue()
        &&& self.t == other.t
    }
}

/// Every input's edge may carry excitation.
pub open spec fn excitatory_inputs(inputs: Seq<InputSpec>) -> bool {
    forall|k: int| 0 <= k < inputs.len() ==> (#[trigger] inputs[k]).connection.excitatory()
}

/// Every input is one of the first `n` neurons.
pub open spec fn known_inputs(inputs: Seq<InputSpec>, n: nat) -> bool {
    forall|k: int| 0 <= k < inputs.len() ==> (#[trigger] inputs[k]).id < n
}

/// Every output's edge may carry excitation.
pub open spec fn excitatory_outputs(outputs: Seq<OutputSpec>) -> bool {
    forall|k: int| 0 <= k < outputs.len() ==> (#[trigger] outputs[k]).connection.excitatory()
}

/// Every output's configuration can be run.
pub open spec fn runnable_outputs(outputs: Seq<OutputSpec>) -> bool {
    forall|k: int| 0 <= k < outputs.len() ==> (#[trigger] outputs[k]).config.wf()
}

/// Every edge of the pairs satisfies the polarity `excitatory` (or else inhibitory).
pub open spec fn pairs_polarity(pairs: Seq<(NeuronId, ConnectionSpec)>, excitatory: bool) -> bool {
    forall|k: int|
        0 <= k < pairs.len() ==> if excitatory {
            (#[trigger] pairs[k]).1.excitatory()
        } else {
            pairs[k].1.inhibitory()
        }
}

/// Every neuron of the pairs is one of the first `n` neurons.
pub open spec fn known_pairs(pairs: Seq<(NeuronId, ConnectionSpec)>, n: nat) -> bool {
    forall|k: int| 0 <= k < pairs.len() ==> (#[trigger] pairs[k]).0 < n
}

/// The synapses after each input is wired to `post`, in order.
pub open spec fn wire_into(adj: Seq<Seq<Synapse>>, inputs: Seq<InputSpec>, post: NeuronId) -> Seq<
    Seq<Synapse>,
>
    decreases inputs.len(),
{
    if inputs.len() == 0 {
        adj
    } else {
        let i = inputs.last();
        with_synapse(
            wire_into(adj, inputs.drop_last(), post),
            i.id,
            post,
            i.connection.weight,
            i.connection.delay,
        )
    }
}

/// The synapses after each neuron of the pairs is wired to `post`, in order.
pub open spec fn wire_pairs_into(
    adj: Seq<Seq<Synapse>>,
    pairs: Seq<(NeuronId, ConnectionSpec)>,
    post: NeuronId,
) -> Seq<Seq<Synapse>>
    decreases pairs.len(),
{
    if pairs.len() == 0 {
        adj
    } else {
        let (id, c) = pairs.last();
        with_synapse(wire_pairs_into(adj, pairs.drop_last(), post), id, post, c.weight, c.delay)
    }
}

/// The synapses after `pre` is wired to each neuron of the pairs, in order.
pub open spec fn wire_pairs_from(
    adj: Seq<Seq<Synapse>>,
    pre: NeuronId,
    pairs: Seq<(NeuronId, ConnectionSpec)>,
) -> Seq<Seq<Synapse>>
    decreases pairs.len(),
{
    if pairs.len() == 0 {
        adj
    } else {
        let (id, c) = pairs.last();
        with_synapse(wire_pairs_from(adj, pre, pairs.drop_last()), pre, id, c.weight, c.delay)
    }
}

/// The neurons after one excitatory neuron is appended per output, in order.
pub open spec fn spawn(ns: Seq<Neuron>, outputs: Seq<OutputSpec>) -> Seq<Neuron>
    decreases outputs.len(),
{
    if outputs.len() == 0 {
        ns
    } else {
        with_neuron(spawn(ns, outputs.drop_last()), NeuronKind::Excitatory, outputs.last().config)
    }
}

/// The synapses after, per output in order, a row is appended for a new neuron
/// and `src` is wired to it.
pub open spec fn diverge(adj: Seq<Seq<Synapse>>, src: NeuronId, outputs: Seq<OutputSpec>) -> Seq<
    Seq<Synapse>,
>
    decreases outputs.len(),
{
    if outputs.len() == 0 {
        adj
    } else {
        let a = diverge(adj, src, outputs.drop_last());
        let o = outputs.last();
        with_synapse(a.push(seq![]), src, a.len() as NeuronId, o.connection.weight, o.connection.delay)
    }
}

/// The synapses after `src` is wired to every input other than itself, in order,
/// with the weight and delay of `src`'s own edge.
pub open spec fn wire_from(adj: Seq<Seq<Synapse>>, src: InputSpec, dsts: Seq<InputSpec>) -> Seq<
    Seq<Synapse>,
>
    decreases dsts.len(),
{
    if dsts.len() == 0 {
        adj
    } else {
        let a = wire_from(adj, src, dsts.drop_last());
        let d = dsts.last();
        if d.id == src.id {
            a
        } else {
            with_synapse(a, src.id, d.id, src.connection.weight, src.connection.delay)
        }
    }
}

/// The synapses after every source of `srcs`, in order, is wired to the inputs by `wire_from`.
pub open spec fn wire_all_pairs(
    adj: Seq<Seq<Synapse>>,
    srcs: Seq<InputSpec>,
    dsts: Seq<InputSpec>,
) -> Seq<Seq<Synapse>>
    decreases srcs.len(),
{
    if srcs.len() == 0 {
        adj
    } else {
        wire_from(wire_all_pairs(adj, srcs.drop_last(), dsts), srcs.last(), dsts)
    }
}

/// Each output adds one neuron.
pub proof fn lemma_spawn_len(ns: Seq<Neuron>, outputs: Seq<OutputSpec>)
    ensures
        spawn(ns, outputs).len() == ns.len() + outputs.len(),
    decreases outputs.len(),
{
    if outputs.len() > 0 {
        lemma_spawn_len(ns, outputs.drop_last());
    }
}

/// Wires `pre -> post`, both known to be neurons of the network.
fn link(network: &mut Network, pre: NeuronId, post: NeuronId, c: ConnectionSpec)
    requires
        old(network).wf(),
        pre < old(network).neurons@.len(),
        post < old(network).neurons@.len(),
    ensures
        final(network).wf(),
        final(network).neurons@ == old(network).neurons@,
        final(network).adjacency() == with_synapse(old(network).adjacency(), pre, post, c.weight, c.delay),
        final(network).same_clock(*old(network)),
{
    match network.connect(pre, post, c.weight, c.delay) {
        Ok(()) => {},
        Err(_) => {},
    }
}

fn check_inputs(inputs: &Vec<InputSpec>, n: usize) -> (r: Result<(), MotifError>)
    ensures
        !excitatory_inputs(inputs@) ==> r == Err::<(), MotifError>(MotifError::PolarityViolation),
        excitatory_inputs(inputs@) && !known_inputs(inputs@, n as nat) ==> r == Err::<(), MotifError>(MotifError::InvalidId),
        excitatory_inputs(inputs@) && known_inputs(inputs@, n as nat) ==> r is Ok,
{
    let mut k: usize = 0;
    while k < inputs.len()
        invariant
            k <= inputs@.len(),
            forall|j: int| 0 <= j < k ==> (#[trigger] inputs@[j]).connection.excitatory(),
        decreases inputs@.len() - k,
    {
        if let Err(e) = inputs[k].connection.ensure_excitatory() {
            return Err(e);
        }
        k += 1;
    }
    let mut k: usize = 0;
    while k < inputs.len()
        invariant
            k <= inputs@.len(),
            excitatory_inputs(inputs@),
            forall|j: int| 0 <= j < k ==> (#[trigger] inputs@[j]).id < n,
        decreases inputs@.len() - k,
    {
        if inputs[k].id >= n {
            return Err(MotifError::InvalidId);
        }
        k += 1;
    }
    Ok(())
}

fn check_pairs(pairs: &Vec<(NeuronId, ConnectionSpec)>, excitatory: bool) -> (r: Result<(), MotifError>)
    ensures
        r is Ok <==> pairs_polarity(pairs@, excitatory),
        r is Err ==> r == Err::<(), MotifError>(MotifError::PolarityViolation),
{
    let mut k: usize = 0;
    while k < pairs.len()
        invariant
            k <= pairs@.len(),
            pairs_polarity(pairs@.take(k as int), excitatory),
        decreases pairs@.len() - k,
    {
        let c = pairs[k].1;
        let r = if excitatory {
            c.ensure_excitatory()
        } else {
            c.ensure_inhibitory()
        };
        if let Err(e) = r {
            assert(pairs@[k as int].1 == c);
            return Err(e);
        }
        assert(pairs_polarity(pairs@.take(k + 1), excitatory)) by {
            assert forall|j: int| 0 <= j < k + 1 implies if excitatory {
                (#[trigger] pairs@.take(k + 1)[j]).1.excitatory()
            } else {
                pairs@.take(k + 1)[j].1.inhibitory()
            } by {
                if j < k {
                    assert(pairs@.take(k + 1)[j] == pairs@.take(k as int)[j]);
                }
            }
        }
        k += 1;
    }
    assert(pairs@.take(k as int) =~= pairs@);
    Ok(())
}

fn check_known_pairs(pairs: &Vec<(NeuronId, ConnectionSpec)>, n: usize) -> (r: bool)
    ensures
        r == known_pairs(pairs@, n as nat),
{
    let mut k: usize = 0;
    while k < pairs.len()
        invariant
            k <= pairs@.len(),
            forall|j: int| 0 <= j < k ==> (#[trigger] pairs@[j]).0 < n,
        decreases pairs@.len() - k,
    {
        if pairs[k].0 >= n {
            return false;
        }
        k += 1;
    }
    true
}

/// Convergence: creates one excitatory receiver with `config` and wires every
/// input to it, in order. Every edge must be excitatory.
pub fn convergent_excitation(network: &mut Network, inputs: Vec<InputSpec>, config: NeuronConfig) -> (r:
    Result<NeuronId, MotifError>)
    requires
        old(network).wf(),
        config.wf(),
        old(network).neurons@.len() < usize::MAX,
    ensures
        final(network).wf(),
        r is Err ==> final(network).same_as(*old(network)),
        !excitatory_inputs(inputs@) ==> r == Err::<NeuronId, MotifError>(MotifError::PolarityViolation),
        excitatory_inputs(inputs@) && !known_inputs(inputs@, old(network).neurons@.len())
            ==> r == Err::<NeuronId, MotifError>(MotifError::InvalidId),
        excitatory_inputs(inputs@) && known_inputs(inputs@, old(network).neurons@.len())
            ==> r == Ok::<NeuronId, MotifError>(old(network).neurons@.len() as NeuronId),
        r is Ok ==> {
            &&& final(network).neurons@ == with_neuron(old(network).neurons@, NeuronKind::Excitatory, config)
            &&& final(network).adjacency() == wire_into(
                old(network).adjacency().push(seq![]),
                inputs@,
                old(network).neurons@.len() as NeuronId,
            )
            &&& final(network).same_clock(*old(network))
        },
{
    match check_inputs(&inputs, network.neurons.len()) {
        Err(e) => {
            return Err(e);
        },
        Ok(()) => {},
    }
    let ghost n = old(network).neurons@.len();
    let receiver = network.add_neuron(NeuronKind::Excitatory, config);
    let ghost base = network.adjacency();
    let mut k: usize = 0;
    while k < inputs.len()
        invariant
            k <= inputs@.len(),
            network.wf(),
            receiver == n,
            network.neurons@.len() == n + 1,
            known_inputs(inputs@, n),
            network.neurons@ == with_neuron(old(network).neurons@, NeuronKind::Excitatory, config),
            network.adjacency() == wire_into(base, inputs@.take(k as int), receiver),
            network.same_clock(*old(network)),
        decreases inputs@.len() - k,
    {
        let i = inputs[k];
        assert(inputs@[k as int] == i);
        link(network, i.id, receiver, i.connection);
        assert(inputs@.take(k + 1).drop_last() =~= inputs@.take(k as int));
        k += 1;
    }
    assert(inputs@.take(k as int) =~= inputs@);
    Ok(receiver)
}

/// Divergence: per output, in order, creates an excitatory neuron with the output's
/// configuration and wires `neuron` to it. Every edge must be excitatory.
pub fn divergent_excitation(network: &mut Network, neuron: NeuronId, outputs: Vec<OutputSpec>) -> (r:
    Result<Vec<NeuronId>, MotifError>)
    requires
        old(network).wf(),
        runnable_outputs(outputs@),
        old(network).neurons@.len() + outputs@.len() < usize::MAX,
    ensures
        final(network).wf(),
        r is Err ==> final(network).same_as(*old(network)),
        !excitatory_outputs(outputs@) ==> r == Err::<Vec<NeuronId>, MotifError>(MotifError::PolarityViolation),
        excitatory_outputs(outputs@) && neuron >= old(network).neurons@.len()
            ==> r == Err::<Vec<NeuronId>, MotifError>(MotifError::InvalidId),
        excitatory_outputs(outputs@) && neuron < old(network).neurons@.len() ==> r is Ok,
        r matches Ok(ids) ==> {
            &&& ids@ == Seq::new(outputs@.len(), |k: int| (old(network).neurons@.len() + k) as NeuronId)
            &&& final(network).neurons@ == spawn(old(network).neurons@, outputs@)
            &&& final(network).neurons@.len() == old(network).neurons@.len() + outputs@.len()
            &&& final(network).adjacency() == diverge(old(network).adjacency(), neuron, outputs@)
            &&& final(network).same_clock(*old(network))
        },
{
    let mut k: usize = 0;
    while k < outputs.len()
        invariant
            k <= outputs@.len(),
            forall|j: int| 0 <= j < k ==> (#[trigger] outputs@[j]).connection.excitatory(),
            network.wf(),
            network.same_as(*old(network)),
        decreases outputs@.len() - k,
    {
        if let Err(e) = outputs[k].connection.ensure_excitatory() {
            return Err(e);
        }
        k += 1;
    }
    if neuron >= network.neurons.len() {
        return Err(MotifError::InvalidId);
    }
    let ghost n = old(network).neurons@.len();
    let mut ids: Vec<NeuronId> = Vec::new();
    let mut k: usize = 0;
    while k < outputs.len()
        invariant
            k <= outputs@.len(),
            neuron < n,
            n + outputs@.len() < usize::MAX,
            runnable_outputs(outputs@),
            network.wf(),
            network.neurons@.len() == n + k,
            ids@ == Seq::new(k as nat, |j: int| (n + j) as NeuronId),
            network.neurons@ == spawn(old(network).neurons@, outputs@.take(k as int)),
            network.adjacency() == diverge(old(network).adjacency(), neuron, outputs@.take(k as int)),
            network.same_clock(*old(network)),
        decreases outputs@.len() - k,
    {
        let o = outputs[k];
        assert(outputs@[k as int] == o);
        assert(outputs@.take(k + 1).drop_last() =~= outputs@.take(k as int));
        let post = network.add_neuron(NeuronKind::Excitatory, o.config);
        link(network, neuron, post, o.connection);
        ids.push(post);
        assert(ids@ =~= Seq::new((k + 1) as nat, |j: int| (n + j) as NeuronId));
        k += 1;
    }
    assert(outputs@.take(k as int) =~= outputs@);
    Ok(ids)
}

/// One excitatory step: creates an excitatory neuron with the output's configuration
/// and wires `pre` to it. The edge must be excitatory.
pub fn feedforward_excitation(network: &mut Network, pre: NeuronId, output: OutputSpec) -> (r: Result<
    NeuronId,
    MotifError,
>)
    requires
        old(network).wf(),
        output.config.wf(),
        old(network).neurons@.len() < usize::MAX,
    ensures
        final(network).wf(),
        r is Err ==> final(network).same_as(*old(network)),
        !output.connection.excitatory() ==> r == Err::<NeuronId, MotifError>(MotifError::PolarityViolation),
        output.connection.excitatory() && pre >= old(network).neurons@.len()
            ==> r == Err::<NeuronId, MotifError>(MotifError::InvalidId),
        output.connection.excitatory() && pre < old(network).neurons@.len()
            ==> r == Ok::<NeuronId, MotifError>(old(network).neurons@.len() as NeuronId),
        r is Ok ==> {
            &&& final(network).neurons@ == with_neuron(old(network).neurons@, NeuronKind::Excitatory, output.config)
            &&& final(network).adjacency() == with_synapse(
                old(network).adjacency().push(seq![]),
                pre,
                old(network).neurons@.len() as NeuronId,
                output.connection.weight,
                output.connection.delay,
            )
            &&& final(network).same_clock(*old(network))
        },
{
    if let Err(e) = output.connection.ensure_excitatory() {
        return Err(e);
    }
    if pre >= network.neurons.len() {
        return Err(MotifError::InvalidId);
    }
    let post = network.add_neuron(NeuronKind::Excitatory, output.config);
    link(network, pre, post, output.connection);
    Ok(post)
}

/// A loop of two excitatory edges: creates an excitatory neuron with `config`,
/// wires `pre` to it, then it back to `pre`. Both edges must be excitatory.
pub fn feedback_excitation(
    network: &mut Network,
    pre: NeuronId,
    config: NeuronConfig,
    forward_edge: ConnectionSpec,
    feedback_edge: ConnectionSpec,
) -> (r: Result<NeuronId, MotifError>)
    requires
        old(network).wf(),
        config.wf(),
        old(network).neurons@.len() < usize::MAX,
    ensures
        final(network).wf(),
        r is Err ==> final(network).same_as(*old(network)),
        !(forward_edge.excitatory() && feedback_edge.excitatory())
            ==> r == Err::<NeuronId, MotifError>(MotifError::PolarityViolation),
        forward_edge.excitatory() && feedback_edge.excitatory() && pre >= old(network).neurons@.len()
            ==> r == Err::<NeuronId, MotifError>(MotifError::InvalidId),
        forward_edge.excitatory() && feedback_edge.excitatory() && pre < old(network).neurons@.len()
            ==> r == Ok::<NeuronId, MotifError>(old(network).neurons@.len() as NeuronId),
        r matches Ok(post) ==> {
            &&& final(network).neurons@ == with_neuron(old(network).neurons@, NeuronKind::Excitatory, config)
            &&& final(network).adjacency() == with_synapse(
                with_synapse(
                    old(network).adjacency().push(seq![]),
                    pre,
                    post,
                    forward_edge.weight,
                    forward_edge.delay,
                ),
                post,
                pre,
                feedback_edge.weight,
                feedback_edge.delay,
            )
            &&& final(network).same_clock(*old(network))
        },
{
    if let Err(e) = forward_edge.ensure_excitatory() {
        return Err(e);
    }
    if let Err(e) = feedback_edge.ensure_excitatory() {
        return Err(e);
    }
    if pre >= network.neurons.len() {
        return Err(MotifError::InvalidId);
    }
    let post = network.add_neuron(NeuronKind::Excitatory, config);
    link(network, pre, post, forward_edge);
    link(network, post, pre, feedback_edge);
    Ok(post)
}

/// Disinhibition: `pre` must be an inhibitory neuron; creates an inhibitory neuron
/// with the output's configuration and wires `pre` to it with an inhibitory edge.
pub fn disinhibition(network: &mut Network, pre: NeuronId, output: OutputSpec) -> (r: Result<
    NeuronId,
    MotifError,
>)
    requires
        old(network).wf(),
        output.config.wf(),
        old(network).neurons@.len() < usize::MAX,
    ensures
        final(network).wf(),
        r is Err ==> final(network).same_as(*old(network)),
        pre >= old(network).neurons@.len() ==> r == Err::<NeuronId, MotifError>(MotifError::InvalidId),
        pre < old(network).neurons@.len() && old(network).neurons@[pre as int].kind != NeuronKind::Inhibitory
            ==> r == Err::<NeuronId, MotifError>(MotifError::RoleViolation),
        pre < old(network).neurons@.len() && old(network).neurons@[pre as int].kind == NeuronKind::Inhibitory
            && !output.connection.inhibitory() ==> r == Err::<NeuronId, MotifError>(
            MotifError::PolarityViolation,
        ),
        pre < old(network).neurons@.len() && old(network).neurons@[pre as int].kind == NeuronKind::Inhibitory
            && output.connection.inhibitory() ==> r == Ok::<NeuronId, MotifError>(
            old(network).neurons@.len() as NeuronId,
        ),
        r is Ok ==> {
            &&& final(network).neurons@ == with_neuron(old(network).neurons@, NeuronKind::Inhibitory, output.config)
            &&& final(network).adjacency() == with_synapse(
                old(network).adjacency().push(seq![]),
                pre,
                old(network).neurons@.len() as NeuronId,
                output.connection.weight,
                output.connection.delay,
            )
            &&& final(network).same_clock(*old(network))
        },
{
    if pre >= network.neurons.len() {
        return Err(MotifError::InvalidId);
    }
    if network.neurons[pre].kind != NeuronKind::Inhibitory {
        return Err(MotifError::RoleViolation);
    }
    if let Err(e) = output.connection.ensure_inhibitory() {
        return Err(e);
    }
    let post = network.add_neuron(NeuronKind::Inhibitory, output.config);
    link(network, pre, post, output.connection);
    Ok(post)
}

/// Recurrent excitation: wires every input to every other input (no self-loops),
/// each with its own edge's weight and delay, sources and targets in the given order.
/// Needs at least two inputs, all with excitatory edges.
pub fn recurrent_excitation(network: &mut Network, inputs: &Vec<InputSpec>) -> (r: Result<(), MotifError>)
    requires
        old(network).wf(),
    ensures
        final(network).wf(),
        r is Err ==> final(network).same_as(*old(network)),
        inputs@.len() < 2 ==> r == Err::<(), MotifError>(MotifError::TooFewInputs),
        inputs@.len() >= 2 && !excitatory_inputs(inputs@) ==> r == Err::<(), MotifError>(
            MotifError::PolarityViolation,
        ),
        inputs@.len() >= 2 && excitatory_inputs(inputs@) && !known_inputs(inputs@, old(network).neurons@.len())
            ==> r == Err::<(), MotifError>(MotifError::InvalidId),
        inputs@.len() >= 2 && excitatory_inputs(inputs@) && known_inputs(inputs@, old(network).neurons@.len())
            ==> r is Ok,
        r is Ok ==> {
            &&& final(network).neurons@ == old(network).neurons@
            &&& final(network).adjacency() == wire_all_pairs(old(network).adjacency(), inputs@, inputs@)
            &&& final(network).same_clock(*old(network))
        },
{
    if inputs.len() < 2 {
        return Err(MotifError::TooFewInputs);
    }
    match check_inputs(inputs, network.neurons.len()) {
        Err(e) => {
            return Err(e);
        },
        Ok(()) => {},
    }
    let ghost n = old(network).neurons@.len();
    let mut a: usize = 0;
    while a < inputs.len()
        invariant
            a <= inputs@.len(),
            network.wf(),
            network.neurons@ == old(network).neurons@,
            network.neurons@.len() == n,
            known_inputs(inputs@, n),
            network.adjacency() == wire_all_pairs(old(network).adjacency(), inputs@.take(a as int), inputs@),
            network.same_clock(*old(network)),
        decreases inputs@.len() - a,
    {
        let src = inputs[a];
        assert(inputs@[a as int] == src);
        let ghost before = network.adjacency();
        let mut b: usize = 0;
        while b < inputs.len()
            invariant
                b <= inputs@.len(),
                src.id < n,
                network.wf(),
                network.neurons@ == old(network).neurons@,
                network.neurons@.len() == n,
                known_inputs(inputs@, n),
                network.adjacency() == wire_from(before, src, inputs@.take(b as int)),
                network.same_clock(*old(network)),
            decreases inputs@.len() - b,
        {
            let dst = inputs[b];
            assert(inputs@[b as int] == dst);
            assert(inputs@.take(b + 1).drop_last() =~= inputs@.take(b as int));
            if src.id != dst.id {
                link(network, src.id, dst.id, src.connection);
            }
            b += 1;
        }
        assert(inputs@.take(b as int) =~= inputs@);
        assert(inputs@.take(a + 1).drop_last() =~= inputs@.take(a as int));
        a += 1;
    }
    assert(inputs@.take(a as int) =~= inputs@);
    Ok(())
}

/// Feedforward inhibition: creates an excitatory forward neuron and an inhibitory
/// one; wires `pre -> forward`, `pre -> inhibitor`, `inhibitor -> forward`.
/// The edge into the inhibitor and the forward edge must be excitatory, the
/// inhibitor's edge inhibitory.
pub fn feedforward_inhibition(
    network: &mut Network,
    pre: NeuronId,
    forward_connection: ConnectionSpec,
    pre_inhibition_connection: ConnectionSpec,
    forward_config: NeuronConfig,
    inhibitor_config: NeuronConfig,
    inhibition_connection: ConnectionSpec,
) -> (r: Result<(NeuronId, NeuronId), MotifError>)
    requires
        old(network).wf(),
        forward_config.wf(),
        inhibitor_config.wf(),
        old(network).neurons@.len() + 1 < usize::MAX,
    ensures
        final(network).wf(),
        r is Err ==> final(network).same_as(*old(network)),
        !(forward_connection.excitatory() && inhibition_connection.inhibitory()
            && pre_inhibition_connection.excitatory()) ==> r == Err::<(NeuronId, NeuronId), MotifError>(
            MotifError::PolarityViolation,
        ),
        forward_connection.excitatory() && inhibition_connection.inhibitory()
            && pre_inhibition_connection.excitatory() && pre >= old(network).neurons@.len()
            ==> r == Err::<(NeuronId, NeuronId), MotifError>(MotifError::InvalidId),
        forward_connection.excitatory() && inhibition_connection.inhibitory()
            && pre_inhibition_connection.excitatory() && pre < old(network).neurons@.len()
            ==> r == Ok::<(NeuronId, NeuronId), MotifError>(
            (old(network).neurons@.len() as NeuronId, (old(network).neurons@.len() + 1) as NeuronId),
        ),
        r matches Ok((forward, inhibitor)) ==> {
            &&& final(network).neurons@ == with_neuron(
                with_neuron(old(network).neurons@, NeuronKind::Excitatory, forward_config),
                NeuronKind::Inhibitory,
                inhibitor_config,
            )
            &&& final(network).adjacency() == with_synapse(
                with_synapse(
                    with_synapse(
                        old(network).adjacency().push(seq![]).push(seq![]),
                        pre,
                        forward,
                        forward_connection.weight,
                        forward_connection.delay,
                    ),
                    pre,
                    inhibitor,
                    pre_inhibition_connection.weight,
                    pre_inhibition_connection.delay,
                ),
                inhibitor,
                forward,
                inhibition_connection.weight,
                inhibition_connection.delay,
            )
            &&& final(network).same_clock(*old(network))
        },
{
    if let Err(e) = forward_connection.ensure_excitatory() {
        return Err(e);
    }
    if let Err(e) = inhibition_connection.ensure_inhibitory() {
        return Err(e);
    }
    if let Err(e) = pre_inhibition_connection.ensure_excitatory() {
        return Err(e);
    }
    if pre >= network.neurons.len() {
        return Err(MotifError::InvalidId);
    }
    let forward = network.add_neuron(NeuronKind::Excitatory, forward_config);
    let inhibitor = network.add_neuron(NeuronKind::Inhibitory, inhibitor_config);
    link(network, pre, forward, forward_connection);
    link(network, pre, inhibitor, pre_inhibition_connection);
    link(network, inhibitor, forward, inhibition_connection);
    Ok((forward, inhibitor))
}

/// Feedback inhibition: creates an excitatory forward neuron and an inhibitory
/// one; wires `pre -> forward`, `forward -> inhibitor`, `inhibitor -> forward`.
/// The edge into the inhibitor and the forward edge must be excitatory, the
/// inhibitor's edge inhibitory.
pub fn feedback_inhibition(
    network: &mut Network,
    pre: NeuronId,
    forward_connection: ConnectionSpec,
    pre_inhibition_connection: ConnectionSpec,
    forward_config: NeuronConfig,
    inhibitor_config: NeuronConfig,
    inhibition_connection: ConnectionSpec,
) -> (r: Result<(NeuronId, NeuronId), MotifError>)
    requires
        old(network).wf(),
        forward_config.wf(),
        inhibitor_config.wf(),
        old(network).neurons@.len() + 1 < usize::MAX,
    ensures
        final(network).wf(),
        r is Err ==> final(network).same_as(*old(network)),
        !(forward_connection.excitatory() && inhibition_connection.inhibitory()
            && pre_inhibition_connection.excitatory()) ==> r == Err::<(NeuronId, NeuronId), MotifError>(
            MotifError::PolarityViolation,
        ),
        forward_connection.excitatory() && inhibition_connection.inhibitory()
            && pre_inhibition_connection.excitatory() && pre >= old(network).neurons@.len()
            ==> r == Err::<(NeuronId, NeuronId), MotifError>(MotifError::InvalidId),
        forward_connection.excitatory() && inhibition_connection.inhibitory()
            && pre_inhibition_connection.excitatory() && pre < old(network).neurons@.len()
            ==> r == Ok::<(NeuronId, NeuronId), MotifError>(
            (old(network).neurons@.len() as NeuronId, (old(network).neurons@.len() + 1) as NeuronId),
        ),
        r matches Ok((forward, inhibitor)) ==> {
            &&& final(network).neurons@ == with_neuron(
                with_neuron(old(network).neurons@, NeuronKind::Excitatory, forward_config),
                NeuronKind::Inhibitory,
                inhibitor_config,
            )
            &&& final(network).adjacency() == with_synapse(
                with_synapse(
                    with_synapse(
                        old(network).adjacency().push(seq![]).push(seq![]),
                        pre,
                        forward,
                        forward_connection.weight,
                        forward_connection.delay,
                    ),
                    forward,
                    inhibitor,
                    pre_inhibition_connection.weight,
                    pre_inhibition_connection.delay,
                ),
                inhibitor,
                forward,
                inhibition_connection.weight,
                inhibition_connection.delay,
            )
            &&& final(network).same_clock(*old(network))
        },
{
    if let Err(e) = forward_connection.ensure_excitatory() {
        return Err(e);
    }
    if let Err(e) = inhibition_connection.ensure_inhibitory() {
        return Err(e);
    }
    if let Err(e) = pre_inhibition_connection.ensure_excitatory() {
        return Err(e);
    }
    if pre >= network.neurons.len() {
        return Err(MotifError::InvalidId);
    }
    let forward = network.add_neuron(NeuronKind::Excitatory, forward_config);
    let inhibitor = network.add_neuron(NeuronKind::Inhibitory, inhibitor_config);
    link(network, pre, forward, forward_connection);
    link(network, forward, inhibitor, pre_inhibition_connection);
    link(network, inhibitor, forward, inhibition_connection);
    Ok((forward, inhibitor))
}

/// Cross inhibition between two pathways `a_pre -> a_post` and `b_pre -> b_post`:
/// creates two inhibitory neurons and wires `a_pre -> inhib_a -> b_post` and
/// `b_pre -> inhib_b -> a_post`. Edges into the inhibitors must be excitatory,
/// edges out of them inhibitory.
pub fn cross_inhibition_following(
    network: &mut Network,
    a_pre: NeuronId,
    a_post: NeuronId,
    b_pre: NeuronId,
    b_post: NeuronId,
    a_pre_to_inhib: ConnectionSpec,
    b_pre_to_inhib: ConnectionSpec,
    inhib_to_a_post: ConnectionSpec,
    inhib_to_b_post: ConnectionSpec,
    inhib_a_config: NeuronConfig,
    inhib_b_config: NeuronConfig,
) -> (r: Result<(NeuronId, NeuronId), MotifError>)
    requires
        old(network).wf(),
        inhib_a_config.wf(),
        inhib_b_config.wf(),
        old(network).neurons@.len() + 1 < usize::MAX,
    ensures
        final(network).wf(),
        r is Err ==> final(network).same_as(*old(network)),
        !(a_pre_to_inhib.excitatory() && b_pre_to_inhib.excitatory() && inhib_to_a_post.inhibitory()
            && inhib_to_b_post.inhibitory()) ==> r == Err::<(NeuronId, NeuronId), MotifError>(
            MotifError::PolarityViolation,
        ),
        a_pre_to_inhib.excitatory() && b_pre_to_inhib.excitatory() && inhib_to_a_post.inhibitory()
            && inhib_to_b_post.inhibitory() ==> (r is Ok <==> (a_pre < old(network).neurons@.len()
            && a_post < old(network).neurons@.len() && b_pre < old(network).neurons@.len()
            && b_post < old(network).neurons@.len())),
        r is Err && a_pre_to_inhib.excitatory() && b_pre_to_inhib.excitatory()
            && inhib_to_a_post.inhibitory() && inhib_to_b_post.inhibitory()
            ==> r == Err::<(NeuronId, NeuronId), MotifError>(MotifError::InvalidId),
        r matches Ok((inhib_a, inhib_b)) ==> {
            &&& inhib_a == old(network).neurons@.len()
            &&& inhib_b == old(network).neurons@.len() + 1
            &&& final(network).neurons@ == with_neuron(
                with_neuron(old(network).neurons@, NeuronKind::Inhibitory, inhib_a_config),
                NeuronKind::Inhibitory,
                inhib_b_config,
            )
            &&& final(network).adjacency() == with_synapse(
                with_synapse(
                    with_synapse(
                        with_synapse(
                            old(network).adjacency().push(seq![]).push(seq![]),
                            a_pre,
                            inhib_a,
                            a_pre_to_inhib.weight,
                            a_pre_to_inhib.delay,
                        ),
                        inhib_a,
                        b_post,
                        inhib_to_b_post.weight,
                        inhib_to_b_post.delay,
                    ),
                    b_pre,
                    inhib_b,
                    b_pre_to_inhib.weight,
                    b_pre_to_inhib.delay,
                ),
                inhib_b,
                a_post,
                inhib_to_a_post.weight,
                inhib_to_a_post.delay,
            )
            &&& final(network).same_clock(*old(network))
        },
{
    if let Err(e) = a_pre_to_inhib.ensure_excitatory() {
        return Err(e);
    }
    if let Err(e) = b_pre_to_inhib.ensure_excitatory() {
        return Err(e);
    }
    if let Err(e) = inhib_to_a_post.ensure_inhibitory() {
        return Err(e);
    }
    if let Err(e) = inhib_to_b_post.ensure_inhibitory() {
        return Err(e);
    }
    let n = network.neurons.len();
    if a_pre >= n || a_post >= n || b_pre >= n || b_post >= n {
        return Err(MotifError::InvalidId);
    }
    let inhib_a = network.add_neuron(NeuronKind::Inhibitory, inhib_a_config);
    let inhib_b = network.add_neuron(NeuronKind::Inhibitory, inhib_b_config);
    link(network, a_pre, inhib_a, a_pre_to_inhib);
    link(network, inhib_a, b_post, inhib_to_b_post);
    link(network, b_pre, inhib_b, b_pre_to_inhib);
    link(network, inhib_b, a_post, inhib_to_a_post);
    Ok((inhib_a, inhib_b))
}

/// Lateral inhibition: creates one inhibitory neuron with `inhibitory_config`,
/// wires every excitatory input to it, then it to every inhibitory target, each in
/// the given order. Input edges must be excitatory, target edges inhibitory.
pub fn lateral_inhibition(
    network: &mut Network,
    excitatory: Vec<(NeuronId, ConnectionSpec)>,
    inhibitory: Vec<(NeuronId, ConnectionSpec)>,
    inhibitory_config: NeuronConfig,
) -> (r: Result<NeuronId, MotifError>)
    requires
        old(network).wf(),
        inhibitory_config.wf(),
        old(network).neurons@.len() < usize::MAX,
    ensures
        final(network).wf(),
        r is Err ==> final(network).same_as(*old(network)),
        !(pairs_polarity(excitatory@, true) && pairs_polarity(inhibitory@, false))
            ==> r == Err::<NeuronId, MotifError>(MotifError::PolarityViolation),
        pairs_polarity(excitatory@, true) && pairs_polarity(inhibitory@, false) ==> (r is Ok <==> (
        known_pairs(excitatory@, old(network).neurons@.len()) && known_pairs(
            inhibitory@,
            old(network).neurons@.len(),
        ))),
        r is Err && pairs_polarity(excitatory@, true) && pairs_polarity(inhibitory@, false)
            ==> r == Err::<NeuronId, MotifError>(MotifError::InvalidId),
        r matches Ok(inhibitor) ==> {
            &&& inhibitor == old(network).neurons@.len()
            &&& final(network).neurons@ == with_neuron(old(network).neurons@, NeuronKind::Inhibitory, inhibitory_config)
            &&& final(network).adjacency() == wire_pairs_from(
                wire_pairs_into(old(network).adjacency().push(seq![]), excitatory@, inhibitor),
                inhibitor,
                inhibitory@,
            )
            &&& final(network).same_clock(*old(network))
        },
{
    if let Err(e) = check_pairs(&excitatory, true) {
        return Err(e);
    }
    if let Err(e) = check_pairs(&inhibitory, false) {
        return Err(e);
    }
    if !check_known_pairs(&excitatory, network.neurons.len()) || !check_known_pairs(
        &inhibitory,
        network.neurons.len(),
    ) {
        return Err(MotifError::InvalidId);
    }
    let ghost n = old(network).neurons@.len();
    let inhibitor = network.add_neuron(NeuronKind::Inhibitory, inhibitory_config);
    let ghost base = network.adjacency();
    let mut k: usize = 0;
    while k < excitatory.len()
        invariant
            k <= excitatory@.len(),
            network.wf(),
            inhibitor == n,
            network.neurons@.len() == n + 1,
            known_pairs(excitatory@, n),
            network.neurons@ == with_neuron(old(network).neurons@, NeuronKind::Inhibitory, inhibitory_config),
            network.adjacency() == wire_pairs_into(base, excitatory@.take(k as int), inhibitor),
            network.same_clock(*old(network)),
        decreases excitatory@.len() - k,
    {
        let (id, c) = excitatory[k];
        assert(excitatory@[k as int] == (id, c));
        link(network, id, inhibitor, c);
        assert(excitatory@.take(k + 1).drop_last() =~= excitatory@.take(k as int));
        k += 1;
    }
    assert(excitatory@.take(k as int) =~= excitatory@);
    let ghost mid = network.adjacency();
    let mut k: usize = 0;
    while k < inhibitory.len()
        invariant
            k <= inhibitory@.len(),
            network.wf(),
            inhibitor == n,
            network.neurons@.len() == n + 1,
            known_pairs(inhibitory@, n),
            network.neurons@ == with_neuron(old(network).neurons@, NeuronKind::Inhibitory, inhibitory_config),
            network.adjacency() == wire_pairs_from(mid, inhibitor, inhibitory@.take(k as int)),
            network.same_clock(*old(network)),
        decreases inhibitory@.len() - k,
    {
        let (id, c) = inhibitory[k];
        assert(inhibitory@[k as int] == (id, c));
        link(network, inhibitor, id, c);
        assert(inhibitory@.take(k + 1).drop_last() =~= inhibitory@.take(k as int));
        k += 1;
    }
    assert(inhibitory@.take(k as int) =~= inhibitory@);
    Ok(inhibitor)
}

} // verus!
