use vstd::arithmetic::div_mod::{lemma_mod_equivalence, lemma_add_mod_noop, lemma_mod_add_multiples_vanish, lemma_small_mod};
use vstd::prelude::*;

use crate::neuro::neuron::{lemma_rest_is_fixed_point, received, rest_state, step, Neuron, NeuronConfig, NeuronId, NeuronKind};

verus! {

/// Why [`Network::connect`] refused an edge.
#[derive(Clone, Copy, Debug, PartialEq, Eq, Structural)]
pub enum ConnectError {
    /// An endpoint is not a neuron of the network.
    InvalidId,
}

/// An outgoing synapse: target, weight, delay in ticks.
pub type Synapse = (NeuronId, i64, u32);

/// A pending delivery: target and weight.
pub type Event = (NeuronId, i64);

/// The neurons, their synapses, and a ring buffer of pending events indexed
/// by the tick (modulo its length) at which they are due.
pub struct Network {
    pub neurons: Vec<Neuron>,
    pub adjacency_list: Vec<Vec<Synapse>>,
    pub events: Vec<Vec<Event>>,
    pub t: usize,
}

/// The contents of each row of a table of vectors.
pub open spec fn rows<T>(v: Seq<Vec<T>>) -> Seq<Seq<T>> {
    v.map_values(|r: Vec<T>| r@)
}

/// Every synapse targets one of `n` neurons.
pub open spec fn synapses_within(adj: Seq<Seq<Synapse>>, n: nat) -> bool {
    forall|i: int, j: int|
        0 <= i < adj.len() && 0 <= j < adj[i].len() ==> (#[trigger] adj[i][j]).0 < n
}

/// Every pending event targets one of `n` neurons.
pub open spec fn events_within(q: Seq<Seq<Event>>, n: nat) -> bool {
    forall|i: int, j: int| 0 <= i < q.len() && 0 <= j < q[i].len() ==> (#[trigger] q[i][j]).0 < n
}

/// The network after a neuron of the given kind and configuration is appended, at rest
/// and with no outgoing synapse.
pub open spec fn with_neuron(
    neurons: Seq<Neuron>,
    kind: NeuronKind,
    config: NeuronConfig,
) -> Seq<Neuron> {
    neurons.push(Neuron { kind, state: rest_state(config), config })
}

/// The adjacency rows after a synapse `pre -> post` is appended to the row of `pre`.
pub open spec fn with_synapse(
    adj: Seq<Seq<Synapse>>,
    pre: NeuronId,
    post: NeuronId,
    weight: i64,
    delay: u32,
) -> Seq<Seq<Synapse>> {
    adj.update(pre as int, adj[pre as int].push((post, weight, delay)))
}

/// The neurons after each event of `evs`, in order, is received by its target.
pub open spec fn deliver_all(ns: Seq<Neuron>, evs: Seq<Event>) -> Seq<Neuron>
    decreases evs.len(),
{
    if evs.len() == 0 {
        ns
    } else {
        let prev = deliver_all(ns, evs.drop_last());
        let e = evs.last();
        prev.update(e.0 as int, Neuron { state: received(prev[e.0 as int].state, e.1), ..prev[e.0 as int] })
    }
}

/// Every neuron after one run of the update rule.
pub open spec fn stepped(ns: Seq<Neuron>, dt: u32) -> Seq<Neuron> {
    Seq::new(ns.len(), |i: int| Neuron { state: step(ns[i].state, ns[i].config, dt).0, ..ns[i] })
}

/// The ids, ascending, among the first `n` neurons that spike when updated.
pub open spec fn spiking(ns: Seq<Neuron>, dt: u32, n: nat) -> Seq<NeuronId>
    decreases n,
{
    if n == 0 {
        seq![]
    } else {
        let prev = spiking(ns, dt, (n - 1) as nat);
        if step(ns[n - 1].state, ns[n - 1].config, dt).1 {
            prev.push((n - 1) as NeuronId)
        } else {
            prev
        }
    }
}

/// The outgoing synapses of the given neurons, row after row.
pub open spec fn fanout(adj: Seq<Seq<Synapse>>, ids: Seq<NeuronId>) -> Seq<Synapse>
    decreases ids.len(),
{
    if ids.len() == 0 {
        seq![]
    } else {
        fanout(adj, ids.drop_last()) + adj[ids.last() as int]
    }
}

/// The ring slot that an event issued at tick `t` with the given delay goes to.
pub open spec fn slot_of(t: int, delay: int, len: int) -> int {
    (t + delay) % len
}

/// The ring after one event is queued at tick `t`.
pub open spec fn enqueue(q: Seq<Seq<Event>>, t: int, target: NeuronId, weight: i64, delay: u32) -> Seq<
    Seq<Event>,
> {
    let s = slot_of(t, delay as int, q.len() as int);
    q.update(s, q[s].push((target, weight)))
}

/// The delay with which a spike travels along a synapse: its own delay, but at
/// least one tick, since the slot of the current tick has already been drained.
pub open spec fn travel_delay(delay: u32) -> u32 {
    if delay == 0 {
        1
    } else {
        delay
    }
}

/// The ring after an event is queued, at tick `t`, for each synapse of `syn` in
/// order, each with its travel delay.
pub open spec fn enqueue_all(q: Seq<Seq<Event>>, t: int, syn: Seq<Synapse>) -> Seq<Seq<Event>>
    decreases syn.len(),
{
    if syn.len() == 0 {
        q
    } else {
        let e = syn.last();
        enqueue(enqueue_all(q, t, syn.drop_last()), t, e.0, e.1, travel_delay(e.2))
    }
}

/// No synapse of a row is slower than the row's largest delay.
pub proof fn lemma_row_max_delay_bound(row: Seq<Synapse>, j: int)
    requires
        0 <= j < row.len(),
    ensures
        row[j].2 <= row_max_delay(row),
    decreases row.len(),
{
    if j < row.len() - 1 {
        lemma_row_max_delay_bound(row.drop_last(), j);
        assert(row.drop_last()[j] == row[j]);
    }
}

/// No synapse is slower than the largest delay.
pub proof fn lemma_max_delay_bound(adj: Seq<Seq<Synapse>>, i: int, j: int)
    requires
        0 <= i < adj.len(),
        0 <= j < adj[i].len(),
    ensures
        adj[i][j].2 <= max_delay(adj),
    decreases adj.len(),
{
    if i < adj.len() - 1 {
        lemma_max_delay_bound(adj.drop_last(), i, j);
        assert(adj.drop_last()[i] == adj[i]);
    } else {
        lemma_row_max_delay_bound(adj[i], j);
    }
}

/// The largest delay among the synapses (0 when there is none).
pub open spec fn max_delay(adj: Seq<Seq<Synapse>>) -> nat
    decreases adj.len(),
{
    if adj.len() == 0 {
        0
    } else {
        let m = max_delay(adj.drop_last());
        let r = row_max_delay(adj.last());
        if m >= r { m } else { r }
    }
}

/// The largest delay in one row (0 when it is empty).
pub open spec fn row_max_delay(row: Seq<Synapse>) -> nat
    decreases row.len(),
{
    if row.len() == 0 {
        0
    } else {
        let m = row_max_delay(row.drop_last());
        let d = row.last().2 as nat;
        if m >= d { m } else { d }
    }
}

/// Events that do not target neuron `i` leave it as it is.
pub proof fn lemma_deliver_all_untargeted(ns: Seq<Neuron>, evs: Seq<Event>, i: int)
    requires
        0 <= i < ns.len(),
        forall|j: int| 0 <= j < evs.len() ==> (#[trigger] evs[j]).0 != i,
        forall|j: int| 0 <= j < evs.len() ==> (#[trigger] evs[j]).0 < ns.len(),
    ensures
        deliver_all(ns, evs).len() == ns.len(),
        deliver_all(ns, evs)[i] == ns[i],
    decreases evs.len(),
{
    if evs.len() > 0 {
        let init = evs.drop_last();
        assert forall|j: int| 0 <= j < init.len() implies (#[trigger] init[j]).0 != i && init[j].0 < ns.len() by {
            assert(init[j] == evs[j]);
        }
        assert(evs.last() == evs[evs.len() - 1]);
        lemma_deliver_all_untargeted(ns, init, i);
    }
}

/// Equilibrium in a network: a neuron at rest (below threshold, with no
/// conductance, not refractory) that no event of the drained slot targets is
/// still exactly at rest after the tick, and does not spike.
pub proof fn lemma_quiet_neuron_stays_at_rest(ns: Seq<Neuron>, evs: Seq<Event>, i: int, dt: u32)
    requires
        0 <= i < ns.len(),
        ns[i].config.wf(),
        ns[i].config.v_rest < ns[i].config.theta,
        ns[i].state == rest_state(ns[i].config),
        forall|j: int| 0 <= j < evs.len() ==> (#[trigger] evs[j]).0 != i,
        forall|j: int| 0 <= j < evs.len() ==> (#[trigger] evs[j]).0 < ns.len(),
    ensures
        stepped(deliver_all(ns, evs), dt)[i] == ns[i],
        !step(deliver_all(ns, evs)[i].state, ns[i].config, dt).1,
{
    lemma_deliver_all_untargeted(ns, evs, i);
    lemma_rest_is_fixed_point(ns[i].config, dt);
}

/// Delivering events changes no neuron's kind, configuration, potential or
/// refractory countdown, only conductances.
pub proof fn lemma_deliver_all_keeps_timing(ns: Seq<Neuron>, evs: Seq<Event>, i: int)
    requires
        0 <= i < ns.len(),
        forall|j: int| 0 <= j < evs.len() ==> (#[trigger] evs[j]).0 < ns.len(),
    ensures
        deliver_all(ns, evs).len() == ns.len(),
        deliver_all(ns, evs)[i].kind == ns[i].kind,
        deliver_all(ns, evs)[i].config == ns[i].config,
        deliver_all(ns, evs)[i].state.v == ns[i].state.v,
        deliver_all(ns, evs)[i].state.refractory_left == ns[i].state.refractory_left,
    decreases evs.len(),
{
    if evs.len() > 0 {
        let init = evs.drop_last();
        assert forall|j: int| 0 <= j < init.len() implies (#[trigger] init[j]).0 < ns.len() by {
            assert(init[j] == evs[j]);
        }
        assert(evs.last() == evs[evs.len() - 1]);
        lemma_deliver_all_keeps_timing(ns, init, i);
    }
}

/// Refractoriness in a network: a neuron with refractory ticks left does not spike
/// in a tick, whatever the drained slot delivers to it; it is held at `v_reset` and
/// has one refractory tick fewer.
pub proof fn lemma_refractory_neuron_is_silent(ns: Seq<Neuron>, evs: Seq<Event>, i: int, dt: u32)
    requires
        0 <= i < ns.len(),
        ns[i].state.refractory_left > 0,
        forall|j: int| 0 <= j < evs.len() ==> (#[trigger] evs[j]).0 < ns.len(),
    ensures
        !step(deliver_all(ns, evs)[i].state, ns[i].config, dt).1,
        stepped(deliver_all(ns, evs), dt)[i].state.refractory_left == ns[i].state.refractory_left - 1,
        stepped(deliver_all(ns, evs), dt)[i].state.v == ns[i].config.v_reset,
{
    lemma_deliver_all_keeps_timing(ns, evs, i);
}

/// Queuing events only appends to slots: every event already in a slot keeps its place.
pub proof fn lemma_enqueue_all_keeps(q: Seq<Seq<Event>>, t: int, syn: Seq<Synapse>, s: int, k: int)
    requires
        q.len() > 0,
        0 <= s < q.len(),
        0 <= k < q[s].len(),
    ensures
        enqueue_all(q, t, syn).len() == q.len(),
        k < enqueue_all(q, t, syn)[s].len(),
        enqueue_all(q, t, syn)[s][k] == q[s][k],
    decreases syn.len(),
{
    if syn.len() > 0 {
        lemma_enqueue_all_keeps(q, t, syn.drop_last(), s, k);
        let e = syn.last();
        let p = enqueue_all(q, t, syn.drop_last());
        let slot = slot_of(t, travel_delay(e.2) as int, p.len() as int);
        assert(0 <= slot < p.len());
    }
}

/// Never earlier, exactly once: a tick drains only the slot of its own time, so an
/// event pending in any other slot is still pending, in its place, after the tick;
/// the drained slot keeps none of the events it held.
pub proof fn lemma_pending_event_waits(
    q: Seq<Seq<Event>>,
    t: int,
    syn: Seq<Synapse>,
    s: int,
    k: int,
)
    requires
        q.len() > 0,
        t >= 0,
        0 <= s < q.len(),
        s != t % (q.len() as int),
        0 <= k < q[s].len(),
    ensures
        enqueue_all(q.update(t % (q.len() as int), seq![]), t, syn)[s][k] == q[s][k],
{
    let cleared = q.update(t % (q.len() as int), seq![]);
    assert(cleared[s] == q[s]);
    lemma_enqueue_all_keeps(cleared, t, syn, s, k);
}

/// Delivery time: an event queued at tick `t0` with delay `d` below the ring's
/// length sits in the one slot that, among the ticks `t0 .. t0 + len`, is drained
/// at tick `t0 + d` and at no other.
pub proof fn lemma_delivery_tick(t0: nat, d: nat, len: nat, u: nat)
    requires
        len > 0,
        d < len,
        t0 <= u < t0 + len,
    ensures
        (u as int % len as int == slot_of(t0 as int, d as int, len as int)) <==> u == t0 + d,
{
    lemma_mod_equivalence(u as int, (t0 + d) as int, len as int);
    if u as int % len as int == slot_of(t0 as int, d as int, len as int) {
        let k = u - (t0 + d);
        assert(k % (len as int) == 0);
        assert(-(len as int) < k < len as int);
        if k > 0 {
            lemma_small_mod(k as nat, len);
        } else if k < 0 {
            lemma_mod_add_multiples_vanish(k, len as int);
            lemma_small_mod((len + k) as nat, len);
        }
    }
}

impl Network {
    pub open spec fn adjacency(&self) -> Seq<Seq<Synapse>> {
        rows(self.adjacency_list@)
    }

    pub open spec fn queue(&self) -> Seq<Seq<Event>> {
        rows(self.events@)
    }

    /// Every neuron has a row of synapses, every configuration can be run, and
    /// every synapse and pending event targets a neuron of the network.
    pub open spec fn wf(&self) -> bool {
        &&& self.adjacency_list@.len() == self.neurons@.len()
        &&& forall|i: int| 0 <= i < self.neurons@.len() ==> (#[trigger] self.neurons@[i]).config.wf()
        &&& synapses_within(self.adjacency(), self.neurons@.len())
        &&& events_within(self.queue(), self.neurons@.len())
    }

    /// An empty network, with an empty ring.
    pub fn new() -> (r: Self)
        ensures
            r.wf(),
            r.neurons@ == Seq::<Neuron>::empty(),
            r.adjacency() == Seq::<Seq<Synapse>>::empty(),
            r.queue() == Seq::<Seq<Event>>::empty(),
            r.t == 0,
    {
        let r = Network { neurons: Vec::new(), adjacency_list: Vec::new(), events: Vec::new(), t: 0 };
        assert(r.adjacency() =~= Seq::<Seq<Synapse>>::empty());
        assert(r.queue() =~= Seq::<Seq<Event>>::empty());
        r
    }

    /// Appends a neuron, at rest and with an empty row of synapses; returns its id.
    pub fn add_neuron(&mut self, kind: NeuronKind, config: NeuronConfig) -> (id: NeuronId)
        requires
            old(self).wf(),
            config.wf(),
            old(self).neurons@.len() < usize::MAX,
        ensures
            final(self).wf(),
            id == old(self).neurons@.len(),
            final(self).neurons@ == with_neuron(old(self).neurons@, kind, config),
            final(self).adjacency() == old(self).adjacency().push(seq![]),
            final(self).queue() == old(self).queue(),
            final(self).t == old(self).t,
    {
        self.neurons.push(Neuron::new(kind, config));
        self.adjacency_list.push(Vec::new());
        proof {
            assert(self.adjacency() =~= old(self).adjacency().push(seq![]));
            assert(self.queue() =~= old(self).queue());
            let n = self.neurons@.len();
            assert forall|i: int, j: int|
                0 <= i < self.adjacency().len() && 0 <= j < self.adjacency()[i].len() implies (
                #[trigger] self.adjacency()[i][j]).0 < n by {
                assert(self.adjacency()[i] == old(self).adjacency()[i]);
            }
        }
        self.neurons.len() - 1
    }

    /// Appends the synapse `pre -> post` to the row of `pre`. Fails with
    /// `InvalidId`, changing nothing, where either id is not a neuron of the network.
    pub fn connect(&mut self, pre: NeuronId, post: NeuronId, weight: i64, delay: u32) -> (r: Result<
        (),
        ConnectError,
    >)
        requires
            old(self).wf(),
        ensures
            final(self).wf(),
            r is Ok <==> (pre < old(self).neurons@.len() && post < old(self).neurons@.len()),
            r is Ok ==> final(self).adjacency() == with_synapse(
                old(self).adjacency(),
                pre,
                post,
                weight,
                delay,
            ),
            r is Err ==> final(self).adjacency() == old(self).adjacency(),
            r is Err ==> r == Err::<(), ConnectError>(ConnectError::InvalidId),
            final(self).neurons@ == old(self).neurons@,
            final(self).queue() == old(self).queue(),
            final(self).t == old(self).t,
    {
        if pre >= self.adjacency_list.len() || post >= self.neurons.len() {
            return Err(ConnectError::InvalidId);
        }
        let mut row = Vec::new();
        std::mem::swap(&mut row, &mut self.adjacency_list[pre]);
        row.push((post, weight, delay));
        std::mem::swap(&mut row, &mut self.adjacency_list[pre]);
        proof {
            assert(self.adjacency() =~= with_synapse(old(self).adjacency(), pre, post, weight, delay));
            let n = self.neurons@.len();
            assert forall|i: int, j: int|
                0 <= i < self.adjacency().len() && 0 <= j < self.adjacency()[i].len() implies (
                #[trigger] self.adjacency()[i][j]).0 < n by {
                if i != pre as int || j < old(self).adjacency()[i].len() {
                    assert(self.adjacency()[i][j] == old(self).adjacency()[i][j]);
                }
            }
        }
        Ok(())
    }

    /// Queues the delivery of `weight` to `target` in the slot of tick `t + delay`
    /// (modulo the ring's length). With delay 0 it is delivered by the next `tick`.
    pub fn schedule_spike(&mut self, target: NeuronId, weight: i64, delay: u32)
        requires
            old(self).wf(),
            old(self).events@.len() > 0,
            delay < old(self).events@.len(),
            target < old(self).neurons@.len(),
        ensures
            final(self).wf(),
            final(self).queue() == enqueue(old(self).queue(), old(self).t as int, target, weight, delay),
            final(self).events@.len() == old(self).events@.len(),
            final(self).neurons@ == old(self).neurons@,
            final(self).adjacency() == old(self).adjacency(),
            final(self).t == old(self).t,
    {
        let len = self.events.len();
        let a = self.t % len;
        let b = (delay as usize) % len;
        let s = if a >= len - b {
            a - (len - b)
        } else {
            a + b
        };
        proof {
            lemma_add_mod_noop(self.t as int, delay as int, len as int);
            if a >= len - b {
                lemma_mod_add_multiples_vanish((a + b - len) as int, len as int);
                lemma_small_mod((a + b - len) as nat, len as nat);
            } else {
                lemma_small_mod((a + b) as nat, len as nat);
            }
            assert(s == slot_of(self.t as int, delay as int, len as int));
        }
        let mut row = Vec::new();
        std::mem::swap(&mut row, &mut self.events[s]);
        row.push((target, weight));
        std::mem::swap(&mut row, &mut self.events[s]);
        proof {
            assert(self.queue() =~= enqueue(old(self).queue(), old(self).t as int, target, weight, delay));
            let n = self.neurons@.len();
            assert forall|i: int, j: int|
                0 <= i < self.queue().len() && 0 <= j < self.queue()[i].len() implies (
                #[trigger] self.queue()[i][j]).0 < n by {
                if i != s as int || j < old(self).queue()[i].len() {
                    assert(self.queue()[i][j] == old(self).queue()[i][j]);
                }
            }
        }
    }

    /// Grows the ring so that it holds more slots than the largest synapse delay
    /// (two more, up to the largest `usize`). It never shrinks; slots already there
    /// keep their events, and new slots are empty. Meant for the setup phase, before
    /// events are queued: a longer ring maps later ticks to other slots.
    pub fn resize_events(&mut self)
        requires
            old(self).wf(),
        ensures
            final(self).wf(),
            ({
                let need = if max_delay(old(self).adjacency()) + 2 <= usize::MAX {
                    max_delay(old(self).adjacency()) + 2
                } else {
                    usize::MAX as nat
                };
                final(self).events@.len() == if old(self).events@.len() >= need {
                    old(self).events@.len() as nat
                } else {
                    need
                }
            }),
            final(self).queue().len() >= old(self).queue().len(),
            forall|i: int| 0 <= i < old(self).queue().len() ==> #[trigger] final(self).queue()[i] == old(self).queue()[i],
            forall|i: int| old(self).queue().len() <= i < final(self).queue().len() ==> #[trigger] final(self).queue()[i] == Seq::<Event>::empty(),
            final(self).neurons@ == old(self).neurons@,
            final(self).adjacency() == old(self).adjacency(),
            final(self).t == old(self).t,
    {
        let mut m: u32 = 0;
        let mut i: usize = 0;
        while i < self.adjacency_list.len()
            invariant
                i <= self.adjacency_list@.len(),
                m as nat == max_delay(self.adjacency().take(i as int)),
            decreases self.adjacency_list@.len() - i,
        {
            let row = &self.adjacency_list[i];
            let mut rm: u32 = 0;
            let mut j: usize = 0;
            while j < row.len()
                invariant
                    j <= row@.len(),
                    rm as nat == row_max_delay(row@.take(j as int)),
                decreases row@.len() - j,
            {
                assert(row@.take(j + 1).drop_last() =~= row@.take(j as int));
                if row[j].2 > rm {
                    rm = row[j].2;
                }
                j += 1;
            }
            assert(row@.take(j as int) =~= row@);
            assert(self.adjacency().take(i + 1).drop_last() =~= self.adjacency().take(i as int));
            if rm > m {
                m = rm;
            }
            i += 1;
        }
        assert(self.adjacency().take(i as int) =~= self.adjacency());
        let need: usize = (m as usize).saturating_add(2);
        while self.events.len() < need
            invariant
                self.events@.len() >= old(self).events@.len(),
                forall|k: int| 0 <= k < old(self).queue().len() ==> #[trigger] self.queue()[k] == old(self).queue()[k],
                forall|k: int| old(self).queue().len() <= k < self.queue().len() ==> #[trigger] self.queue()[k] == Seq::<Event>::empty(),
                self.events@.len() <= need || self.events@.len() == old(self).events@.len(),
                self.neurons@ == old(self).neurons@,
                self.adjacency_list@ == old(self).adjacency_list@,
                self.t == old(self).t,
            decreases need - self.events@.len(),
        {
            let ghost prev = self.queue();
            self.events.push(Vec::new());
            assert(self.queue() =~= prev.push(Seq::<Event>::empty()));
        }
        proof {
            let n = self.neurons@.len();
            assert forall|i: int, j: int|
                0 <= i < self.queue().len() && 0 <= j < self.queue()[i].len() implies (
                #[trigger] self.queue()[i][j]).0 < n by {
                assert(i < old(self).queue().len());
                assert(self.queue()[i][j] == old(self).queue()[i][j]);
            }
        }
    }

    /// One simulation step of `dt` microseconds: the events of slot `t` are taken
    /// out and received by their targets; every neuron is updated, in ascending id
    /// order; each outgoing synapse of each neuron that spiked queues an event for
    /// tick `t + delay` (`t + 1` for a delay of 0); `t` advances by one. The ring
    /// must be longer than every delay, and than one tick.
    pub fn tick(&mut self, dt: u32)
        requires
            old(self).wf(),
            old(self).events@.len() > 1,
            old(self).events@.len() > max_delay(old(self).adjacency()),
            old(self).t < usize::MAX,
        ensures
            final(self).wf(),
            ({
                let slot = old(self).t as int % old(self).events@.len() as int;
                let delivered = deliver_all(old(self).neurons@, old(self).queue()[slot]);
                &&& final(self).neurons@ == stepped(delivered, dt)
                &&& final(self).queue() == enqueue_all(
                    old(self).queue().update(slot, seq![]),
                    old(self).t as int,
                    fanout(old(self).adjacency(), spiking(delivered, dt, delivered.len())),
                )
            }),
            final(self).adjacency() == old(self).adjacency(),
            final(self).events@.len() == old(self).events@.len(),
            final(self).t == old(self).t + 1,
    {
        let len = self.events.len();
        let slot = self.t % len;
        let ghost n = self.neurons@.len();
        let ghost adj = self.adjacency();
        let mut drained: Vec<Event> = Vec::new();
        std::mem::swap(&mut drained, &mut self.events[slot]);
        proof {
            assert(self.queue() =~= old(self).queue().update(slot as int, seq![]));
            assert(drained@ == old(self).queue()[slot as int]);
            assert forall|i: int, j: int|
                0 <= i < self.queue().len() && 0 <= j < self.queue()[i].len() implies (
                #[trigger] self.queue()[i][j]).0 < n by {
                assert(self.queue()[i][j] == old(self).queue()[i][j]);
            }
        }
        let ghost cleared = self.queue();
        let mut k: usize = 0;
        while k < drained.len()
            invariant
                k <= drained@.len(),
                drained@ == old(self).queue()[slot as int],
                forall|j: int| 0 <= j < drained@.len() ==> (#[trigger] drained@[j]).0 < n,
                self.neurons@.len() == n,
                self.neurons@ == deliver_all(old(self).neurons@, drained@.take(k as int)),
                forall|i: int| 0 <= i < n ==> (#[trigger] self.neurons@[i]).config == old(self).neurons@[i].config,
                self.queue() == cleared,
                self.events@.len() == len,
                self.adjacency() == adj,
                self.adjacency_list@.len() == n,
                self.t == old(self).t,
            decreases drained@.len() - k,
        {
            let (id, w) = drained[k];
            self.neurons[id].receive(w);
            assert(drained@.take(k + 1).drop_last() =~= drained@.take(k as int));
            k += 1;
        }
        assert(drained@.take(k as int) =~= drained@);
        let ghost delivered = self.neurons@;
        let mut spiked: Vec<NeuronId> = Vec::new();
        let mut i: usize = 0;
        while i < self.neurons.len()
            invariant
                i <= n,
                self.neurons@.len() == n,
                delivered.len() == n,
                forall|j: int| 0 <= j < n ==> (#[trigger] delivered[j]).config == old(self).neurons@[j].config,
                forall|j: int| 0 <= j < i ==> #[trigger] self.neurons@[j] == stepped(delivered, dt)[j],
                forall|j: int| i <= j < n ==> #[trigger] self.neurons@[j] == delivered[j],
                spiked@ == spiking(delivered, dt, i as nat),
                forall|j: int| 0 <= j < spiked@.len() ==> (#[trigger] spiked@[j]) < n,
                self.queue() == cleared,
                self.events@.len() == len,
                self.adjacency() == adj,
                self.adjacency_list@.len() == n,
                self.t == old(self).t,
                old(self).neurons@.len() == n,
                forall|j: int| 0 <= j < old(self).neurons@.len() ==> (#[trigger] old(self).neurons@[j]).config.wf(),
            decreases n - i,
        {
            assert(old(self).neurons@[i as int].config.wf());
            assert(delivered[i as int].config == old(self).neurons@[i as int].config);
            let fired = self.neurons[i].update(dt);
            if fired {
                spiked.push(i);
            }
            i += 1;
        }
        assert(self.neurons@ =~= stepped(delivered, dt));
        proof {
            assert forall|j: int| 0 <= j < n implies (#[trigger] self.neurons@[j]).config.wf() by {
                assert(self.neurons@[j].config == old(self).neurons@[j].config);
            }
        }
        let mut a: usize = 0;
        while a < spiked.len()
            invariant
                a <= spiked@.len(),
                forall|j: int| 0 <= j < spiked@.len() ==> (#[trigger] spiked@[j]) < n,
                self.wf(),
                self.events@.len() == len,
                len > 1,
                len > max_delay(adj),
                self.neurons@.len() == n,
                self.neurons@ == stepped(delivered, dt),
                self.adjacency() == adj,
                self.t == old(self).t,
                self.queue() == enqueue_all(cleared, self.t as int, fanout(adj, spiked@.take(a as int))),
            decreases spiked@.len() - a,
        {
            let id = spiked[a];
            let ghost done = fanout(adj, spiked@.take(a as int));
            let mut b: usize = 0;
            while b < self.adjacency_list[id].len()
                invariant
                    id < n,
                    b <= adj[id as int].len(),
                    self.wf(),
                    self.events@.len() == len,
                    len > 1,
                    len > max_delay(adj),
                    self.neurons@.len() == n,
                    self.neurons@ == stepped(delivered, dt),
                    self.adjacency() == adj,
                    self.t == old(self).t,
                    self.queue() == enqueue_all(cleared, self.t as int, done + adj[id as int].take(b as int)),
                decreases adj[id as int].len() - b,
            {
                let (target, w, d) = self.adjacency_list[id][b];
                assert(adj[id as int][b as int] == (target, w, d));
                let ghost before = done + adj[id as int].take(b as int);
                proof {
                    lemma_max_delay_bound(adj, id as int, b as int);
                }
                let travel: u32 = if d == 0 {
                    1
                } else {
                    d
                };
                self.schedule_spike(target, w, travel);
                assert((done + adj[id as int].take(b + 1)).drop_last() =~= before);
                b += 1;
            }
            assert(adj[id as int].take(b as int) =~= adj[id as int]);
            assert(spiked@.take(a + 1).drop_last() =~= spiked@.take(a as int));
            a += 1;
        }
        assert(spiked@.take(a as int) =~= spiked@);
        self.t = self.t + 1;
    }
}

} // verus!
