use vstd::prelude::*;

use rand::rngs::StdRng;
use rand::{RngCore, SeedableRng};

use crate::neuro::network::{slot_of, Event, Network};
use crate::neuro::neuron::{NeuronId, WEIGHT_ONE};

verus! {

/// Most spikes (or Poisson trials) one generator produces in one call of `apply`.
pub const MAX_EVENTS_PER_APPLY: u32 = 1024;

#[verifier::external_type_specification]
#[verifier::external_body]
pub struct ExStdRng(StdRng);

/// Relies on rand's `SeedableRng::seed_from_u64` for `StdRng`: a generator whose
/// stream is fixed by `seed`.
#[verifier::external_body]
fn seeded_rng(seed: u64) -> (r: StdRng) {
    StdRng::seed_from_u64(seed)
}

/// Relies on rand's `RngCore::next_u64` for `StdRng`: the generator's next word.
#[verifier::external_body]
fn next_word(rng: &mut StdRng) -> (r: u64) {
    rng.next_u64()
}

pub open spec fn sat_add(a: u64, b: u64) -> u64 {
    if a + b > u64::MAX {
        u64::MAX
    } else {
        (a + b) as u64
    }
}

/// Regular pulses from tick `next`, one every `interval` ticks, up to `stop`:
/// those due by `now`, at most `budget` of them. Gives the next pulse's tick and
/// how many were due.
pub open spec fn pulses_due(next: u64, interval: u64, stop: u64, now: u64, budget: nat) -> (u64, nat)
    decreases budget,
{
    if budget == 0 || now < next || next > stop {
        (next, 0)
    } else {
        let (n, c) = pulses_due(sat_add(next, interval), interval, stop, now, (budget - 1) as nat);
        (n, c + 1)
    }
}

/// Spike-train cursor: from entry `index` of `times` (offsets from `base`), the
/// spikes due by `now`, at most `budget`; a looped train starts over, `period`
/// ticks later, after its last entry. Gives the new base, the new index and the
/// number of spikes.
pub open spec fn train_due(
    times: Seq<u64>,
    looped: bool,
    period: u64,
    base: u64,
    index: nat,
    now: u64,
    budget: nat,
) -> (u64, nat, nat)
    decreases budget,
{
    if budget == 0 || index >= times.len() || now < sat_add(base, times[index as int]) {
        (base, index, 0)
    } else {
        let (b1, i1) = if index + 1 >= times.len() && looped {
            (sat_add(base, period), 0nat)
        } else {
            (base, index + 1)
        };
        let (b2, i2, c) = train_due(times, looped, period, b1, i1, now, (budget - 1) as nat);
        (b2, i2, c + 1)
    }
}

/// Poisson trials: one per tick from `next` while it is at most `now` and, where
/// given, at most `stop`; at most `budget` of them. Gives the next trial's tick and
/// the number of trials.
pub open spec fn trials_due(next: u64, stop: Option<u64>, now: u64, budget: nat) -> (u64, nat)
    decreases budget,
{
    if budget == 0 || now < next || (stop matches Some(s) && next > s) {
        (next, 0)
    } else {
        let (n, c) = trials_due(sat_add(next, 1), stop, now, (budget - 1) as nat);
        (n, c + 1)
    }
}

/// A trial with rate `rate` hertz over a tick of `dt` microseconds succeeds with
/// probability `rate * dt / 1_000_000`: when the uniform word `word` falls below
/// that fraction of 2^64.
pub open spec fn trial_succeeds(word: u64, rate: u32, dt: u32) -> bool {
    (word as int) * 1_000_000 < (rate as int) * (dt as int) * 0x1_0000_0000_0000_0000
}

/// How many of the trials, one per drawn word, succeed.
pub open spec fn successes(words: Seq<u64>, rate: u32, dt: u32) -> nat
    decreases words.len(),
{
    if words.len() == 0 {
        0
    } else {
        successes(words.drop_last(), rate, dt) + if trial_succeeds(words.last(), rate, dt) {
            1nat
        } else {
            0nat
        }
    }
}

/// `count` events can come out of `trials` Poisson trials: for some words drawn,
/// one per trial, exactly `count` trials succeed.
pub open spec fn poisson_outcome(trials: nat, count: nat, rate: u32, dt: u32) -> bool {
    exists|words: Seq<u64>| words.len() == trials && #[trigger] successes(words, rate, dt) == count
}

/// Whether one Poisson trial succeeds, given the word drawn for it.
pub fn trial_fires(word: u64, rate: u32, dt: u32) -> (r: bool)
    ensures
        r == trial_succeeds(word, rate, dt),
{
    let lhs: u128 = (word as u128) * 1_000_000;
    assert(rate as int * dt as int <= 0xffff_ffff_ffff_ffff) by (nonlinear_arith)
        requires
            rate <= u32::MAX,
            dt <= u32::MAX,
    ;
    let p: u128 = (rate as u128) * (dt as u128);
    let rhs: u128 = p * 0x1_0000_0000_0000_0000;
    lhs < rhs
}

fn advance_pulses(next: u64, interval: u64, stop: u64, now: u64) -> (r: (u64, u32))
    ensures
        (r.0, r.1 as nat) == pulses_due(next, interval, stop, now, MAX_EVENTS_PER_APPLY as nat),
{
    let mut cur = next;
    let mut count: u32 = 0;
    while count < MAX_EVENTS_PER_APPLY && now >= cur && cur <= stop
        invariant
            count <= MAX_EVENTS_PER_APPLY,
            ({
                let (n, c) = pulses_due(cur, interval, stop, now, (MAX_EVENTS_PER_APPLY - count) as nat);
                pulses_due(next, interval, stop, now, MAX_EVENTS_PER_APPLY as nat) == (n, (c + count) as nat)
            }),
        decreases MAX_EVENTS_PER_APPLY - count,
    {
        cur = cur.saturating_add(interval);
        count += 1;
    }
    (cur, count)
}

fn not_past(tick: u64, stop: Option<u64>) -> (r: bool)
    ensures
        r == !(stop matches Some(s) && tick > s),
{
    match stop {
        Some(s) => tick <= s,
        None => true,
    }
}

fn advance_trials(rng: &mut StdRng, rate: u32, dt: u32, next: u64, stop: Option<u64>, now: u64) -> (r: (
    u64,
    u32,
))
    ensures
        r.0 == trials_due(next, stop, now, MAX_EVENTS_PER_APPLY as nat).0,
        poisson_outcome(trials_due(next, stop, now, MAX_EVENTS_PER_APPLY as nat).1, r.1 as nat, rate, dt),
{
    let mut cur = next;
    let mut trials: u32 = 0;
    let mut count: u32 = 0;
    let ghost mut words: Seq<u64> = seq![];
    while trials < MAX_EVENTS_PER_APPLY && now >= cur && not_past(cur, stop)
        invariant
            count <= trials <= MAX_EVENTS_PER_APPLY,
            words.len() == trials,
            successes(words, rate, dt) == count,
            ({
                let (n, c) = trials_due(cur, stop, now, (MAX_EVENTS_PER_APPLY - trials) as nat);
                trials_due(next, stop, now, MAX_EVENTS_PER_APPLY as nat) == (n, (c + trials) as nat)
            }),
        decreases MAX_EVENTS_PER_APPLY - trials,
    {
        let word = next_word(rng);
        proof {
            let ws = words.push(word);
            assert(ws.drop_last() =~= words);
            words = ws;
        }
        if trial_fires(word, rate, dt) {
            count += 1;
        }
        cur = cur.saturating_add(1);
        trials += 1;
    }
    assert(words.len() == trials && successes(words, rate, dt) == count);
    (cur, count)
}

fn advance_train(times: &Vec<u64>, looped: bool, period: u64, base: u64, index: usize, now: u64) -> (r: (
    u64,
    usize,
    u32,
))
    requires
        index <= times@.len(),
    ensures
        (r.0, r.1 as nat, r.2 as nat) == train_due(times@, looped, period, base, index as nat, now, MAX_EVENTS_PER_APPLY as nat),
        r.1 <= times@.len(),
{
    let mut b = base;
    let mut i = index;
    let mut count: u32 = 0;
    while count < MAX_EVENTS_PER_APPLY && i < times.len() && now >= b.saturating_add(times[i])
        invariant
            count <= MAX_EVENTS_PER_APPLY,
            i <= times@.len(),
            ({
                let (b2, i2, c) = train_due(times@, looped, period, b, i as nat, now, (MAX_EVENTS_PER_APPLY - count) as nat);
                train_due(times@, looped, period, base, index as nat, now, MAX_EVENTS_PER_APPLY as nat) == (b2, i2, (c + count) as nat)
            }),
        decreases MAX_EVENTS_PER_APPLY - count,
    {
        if i + 1 >= times.len() && looped {
            b = b.saturating_add(period);
            i = 0;
        } else {
            i = i + 1;
        }
        count += 1;
    }
    (b, i, count)
}

/// What a stimulus does, as a caller describes it. Times are in milliseconds,
/// rates in hertz, amplitudes in millionths of a unit weight.
#[allow(inconsistent_fields)]
#[derive(Clone, Debug, PartialEq)]
pub enum StimulusMode {
    /// One event of weight `amplitude`, on the next tick.
    ManualPulse { amplitude: i64 },
    /// Unit events at random: each tick from `start` to `stop` (or without end)
    /// an event comes with probability `rate * dt`, drawn from a generator
    /// seeded with `seed`.
    Poisson { rate: u32, seed: u64, start: u32, stop: Option<u32> },
    /// Unit events at the given offsets; a looped train starts over after the
    /// largest offset.
    SpikeTrain { times: Vec<u32>, looped: bool },
    /// Events of weight `amp` at `rate` hertz from `start` to `stop`.
    CurrentStep { amp: i64, start: u32, stop: u32, rate: u32 },
}

#[derive(Clone, Debug, PartialEq)]
pub struct StimulusSpec {
    pub mode: StimulusMode,
    pub enabled: bool,
}

/// The progress of an active generator, in ticks.
#[allow(inconsistent_fields)]
pub enum GeneratorView {
    Pulse { tick: u64 },
    Poisson { rate: u32, next_tick: u64, stop_tick: Option<u64> },
    Train { times: Seq<u64>, looped: bool, period: u64, base_tick: u64, index: nat },
    Step { stop_tick: u64, next_tick: u64, interval: u64 },
}

/// An active stimulus: its id, the neuron it drives, the weight of its events,
/// and its generator.
pub struct StimulusView {
    pub id: u64,
    pub target: NeuronId,
    pub amp: i64,
    pub generator: GeneratorView,
}

/// One call of `apply` at tick `now`: the generator's new progress, how many
/// events are due (for a Poisson generator, how many trials are run), and
/// whether the generator is then exhausted.
pub open spec fn advanced(g: GeneratorView, now: u64) -> (GeneratorView, nat, bool) {
    match g {
        GeneratorView::Pulse { tick } => (g, if now >= tick { 1nat } else { 0nat }, now >= tick),
        GeneratorView::Poisson { rate, next_tick, stop_tick } => {
            let (n, c) = trials_due(next_tick, stop_tick, now, MAX_EVENTS_PER_APPLY as nat);
            (
                GeneratorView::Poisson { rate, next_tick: n, stop_tick },
                c,
                stop_tick matches Some(s) && now >= s && n > s,
            )
        },
        GeneratorView::Train { times, looped, period, base_tick, index } => {
            let (b0, i0) = if index >= times.len() && looped {
                (sat_add(base_tick, period), 0nat)
            } else {
                (base_tick, index)
            };
            let (b, i, c) = train_due(times, looped, period, b0, i0, now, MAX_EVENTS_PER_APPLY as nat);
            (
                GeneratorView::Train { times, looped, period, base_tick: b, index: i },
                c,
                i >= times.len() && !looped,
            )
        },
        GeneratorView::Step { stop_tick, next_tick, interval } => {
            let (n, c) = pulses_due(next_tick, interval, stop_tick, now, MAX_EVENTS_PER_APPLY as nat);
            (GeneratorView::Step { stop_tick, next_tick: n, interval }, c, now > stop_tick)
        },
    }
}

/// The number of events a stimulus may emit at tick `now`, with ticks of `dt`
/// microseconds: exactly the number due, or for a Poisson generator the number of
/// its trials that succeed.
pub open spec fn count_allowed(v: StimulusView, now: u64, dt: u32, c: nat) -> bool {
    match v.generator {
        GeneratorView::Poisson { rate, .. } => poisson_outcome(advanced(v.generator, now).1, c, rate, dt),
        _ => c == advanced(v.generator, now).1,
    }
}

/// `n` copies of one event.
pub open spec fn repeated(e: Event, n: nat) -> Seq<Event> {
    Seq::new(n, |i: int| e)
}

/// The events that the stimuli emit, `counts[i]` copies of the event of stimulus `i`, in order.
pub open spec fn emitted(views: Seq<StimulusView>, counts: Seq<nat>) -> Seq<Event>
    decreases views.len(),
{
    if views.len() == 0 || counts.len() == 0 {
        seq![]
    } else {
        let v = views.last();
        emitted(views.drop_last(), counts.drop_last()) + repeated((v.target, v.amp), counts.last())
    }
}

/// The stimuli, advanced to tick `now`, without those that are then exhausted.
pub open spec fn survivors(views: Seq<StimulusView>, now: u64) -> Seq<StimulusView>
    decreases views.len(),
{
    if views.len() == 0 {
        seq![]
    } else {
        let prev = survivors(views.drop_last(), now);
        let v = views.last();
        let (g, _, done) = advanced(v.generator, now);
        if done {
            prev
        } else {
            prev.push(StimulusView { generator: g, ..v })
        }
    }
}

/// The stimuli without the one (if any) with the given id.
pub open spec fn without_id(views: Seq<StimulusView>, id: u64) -> Seq<StimulusView>
    decreases views.len(),
{
    if views.len() == 0 {
        seq![]
    } else {
        let prev = without_id(views.drop_last(), id);
        if views.last().id == id {
            prev
        } else {
            prev.push(views.last())
        }
    }
}

/// Milliseconds as whole ticks of `dt` microseconds, rounded to the nearest.
pub open spec fn ms_to_ticks(ms: u32, dt: u32) -> u64 {
    ((2 * 1000 * ms + dt) / (2 * dt)) as u64
}

/// The largest entry (0 for none).
pub open spec fn seq_max(s: Seq<u64>) -> u64
    decreases s.len(),
{
    if s.len() == 0 {
        0
    } else {
        let m = seq_max(s.drop_last());
        if s.last() > m { s.last() } else { m }
    }
}

/// Ticks between the events of a current step of `rate` hertz, rounded to the
/// nearest and at least one.
pub open spec fn step_interval(rate: u32, dt: u32) -> u64 {
    if rate == 0 {
        1
    } else {
        let q = (2 * 1_000_000 + rate * dt) / (2 * rate * dt);
        if q < 1 { 1 } else { q as u64 }
    }
}

/// The stimulus that `fire` registers at tick `base`, or none where the
/// description yields no event (a zero Poisson rate, a stop before the start,
/// an empty spike train).
pub open spec fn started(mode: StimulusMode, id: u64, target: NeuronId, base: u64, dt: u32) -> Option<StimulusView> {
    match mode {
        StimulusMode::ManualPulse { amplitude } => Some(
            StimulusView { id, target, amp: amplitude, generator: GeneratorView::Pulse { tick: base } },
        ),
        StimulusMode::Poisson { rate, seed, start, stop } => {
            if rate == 0 || (stop matches Some(s) && s < start) {
                None
            } else {
                Some(
                    StimulusView {
                        id,
                        target,
                        amp: WEIGHT_ONE,
                        generator: GeneratorView::Poisson {
                            rate,
                            next_tick: sat_add(sat_add(base, ms_to_ticks(start, dt)), 1),
                            stop_tick: match stop {
                                Some(s) => Some(sat_add(base, ms_to_ticks(s, dt))),
                                None => None,
                            },
                        },
                    },
                )
            }
        },
        StimulusMode::SpikeTrain { times, looped } => {
            if times@.len() == 0 {
                None
            } else {
                let ticks = times@.map_values(|ms: u32| ms_to_ticks(ms, dt));
                Some(
                    StimulusView {
                        id,
                        target,
                        amp: WEIGHT_ONE,
                        generator: GeneratorView::Train {
                            times: ticks,
                            looped: looped && seq_max(ticks) > 0,
                            period: seq_max(ticks),
                            base_tick: base,
                            index: 0,
                        },
                    },
                )
            }
        },
        StimulusMode::CurrentStep { amp, start, stop, rate } => {
            let start_tick = sat_add(base, ms_to_ticks(start, dt));
            let stop_tick = sat_add(base, ms_to_ticks(stop, dt));
            Some(
                StimulusView {
                    id,
                    target,
                    amp,
                    generator: GeneratorView::Step {
                        stop_tick: if stop_tick < start_tick { start_tick } else { stop_tick },
                        next_tick: start_tick,
                        interval: step_interval(rate, dt),
                    },
                },
            )
        },
    }
}

#[allow(inconsistent_fields)]
enum Generator {
    Pulse { tick: u64 },
    Poisson { rng: StdRng, rate: u32, next_tick: u64, stop_tick: Option<u64> },
    Train { times_ticks: Vec<u64>, looped: bool, period_ticks: u64, base_tick: u64, index: usize },
    Step { stop_tick: u64, next_tick: u64, interval_ticks: u64 },
}

struct ActiveStimulus {
    stimulus_id: u64,
    neuron_id: NeuronId,
    amp: i64,
    generator: Generator,
}

impl Generator {
    spec fn view(&self) -> GeneratorView {
        match self {
            Generator::Pulse { tick } => GeneratorView::Pulse { tick: *tick },
            Generator::Poisson { rate, next_tick, stop_tick, .. } => GeneratorView::Poisson {
                rate: *rate,
                next_tick: *next_tick,
                stop_tick: *stop_tick,
            },
            Generator::Train { times_ticks, looped, period_ticks, base_tick, index } => GeneratorView::Train {
                times: times_ticks@,
                looped: *looped,
                period: *period_ticks,
                base_tick: *base_tick,
                index: *index as nat,
            },
            Generator::Step { stop_tick, next_tick, interval_ticks } => GeneratorView::Step {
                stop_tick: *stop_tick,
                next_tick: *next_tick,
                interval: *interval_ticks,
            },
        }
    }

    spec fn wf(&self) -> bool {
        self matches Generator::Train { times_ticks, index, .. } ==> index <= times_ticks@.len()
    }
}

impl ActiveStimulus {
    spec fn view(&self) -> StimulusView {
        StimulusView {
            id: self.stimulus_id,
            target: self.neuron_id,
            amp: self.amp,
            generator: self.generator.view(),
        }
    }

    /// Advances the generator to tick `now`; gives the number of events due and
    /// whether the generator is exhausted.
    fn poll(&mut self, now: u64, dt: u32) -> (r: (u32, bool))
        requires
            old(self).generator.wf(),
        ensures
            final(self).generator.wf(),
            final(self).view() == (StimulusView {
                generator: advanced(old(self).view().generator, now).0,
                ..old(self).view()
            }),
            count_allowed(old(self).view(), now, dt, r.0 as nat),
            r.1 == advanced(old(self).view().generator, now).2,
    {
        match &mut self.generator {
            Generator::Pulse { tick } => {
                if now >= *tick {
                    (1, true)
                } else {
                    (0, false)
                }
            },
            Generator::Poisson { rng, rate, next_tick, stop_tick } => {
                let (n, c) = advance_trials(rng, *rate, dt, *next_tick, *stop_tick, now);
                *next_tick = n;
                let done = match *stop_tick {
                    Some(s) => now >= s && n > s,
                    None => false,
                };
                (c, done)
            },
            Generator::Train { times_ticks, looped, period_ticks, base_tick, index } => {
                if *index >= times_ticks.len() && *looped {
                    *base_tick = base_tick.saturating_add(*period_ticks);
                    *index = 0;
                }
                let (b, i, c) = advance_train(times_ticks, *looped, *period_ticks, *base_tick, *index, now);
                *base_tick = b;
                *index = i;
                (c, i >= times_ticks.len() && !*looped)
            },
            Generator::Step { stop_tick, next_tick, interval_ticks } => {
                let (n, c) = advance_pulses(*next_tick, *interval_ticks, *stop_tick, now);
                *next_tick = n;
                (c, now > *stop_tick)
            },
        }
    }
}

/// The active stimuli, each advanced by `apply` once per tick.
pub struct StimulusRunner {
    dt: u32,
    stimuli: Vec<ActiveStimulus>,
}

/// A stimulus's events all target one of `n` neurons.
pub open spec fn targets_within(views: Seq<StimulusView>, n: nat) -> bool {
    forall|i: int| 0 <= i < views.len() ==> (#[trigger] views[i]).target < n
}

proof fn lemma_survivors_targets(views: Seq<StimulusView>, now: u64, n: nat)
    requires
        targets_within(views, n),
    ensures
        targets_within(survivors(views, now), n),
    decreases views.len(),
{
    if views.len() > 0 {
        let init = views.drop_last();
        assert forall|i: int| 0 <= i < init.len() implies (#[trigger] init[i]).target < n by {
            assert(init[i] == views[i]);
        }
        lemma_survivors_targets(init, now, n);
        assert(views.last() == views[views.len() - 1]);
    }
}

fn to_ticks(ms: u32, dt: u32) -> (r: u64)
    requires
        dt > 0,
    ensures
        r == ms_to_ticks(ms, dt),
{
    (2 * 1000 * (ms as u64) + dt as u64) / (2 * dt as u64)
}

fn interval_ticks(rate: u32, dt: u32) -> (r: u64)
    requires
        dt > 0,
    ensures
        r == step_interval(rate, dt),
{
    if rate == 0 {
        1
    } else {
        assert(1 <= rate as int * dt as int <= 0xffff_ffff_ffff_ffff) by (nonlinear_arith)
            requires
                1 <= rate <= u32::MAX,
                1 <= dt <= u32::MAX,
        ;
        let p: u128 = (rate as u128) * (dt as u128);
        assert(p == rate * dt);
        assert(2 * p == 2 * rate * dt) by (nonlinear_arith)
            requires
                p == rate * dt,
        ;
        let q: u128 = (2 * 1_000_000 + p) / (2 * p);
        assert(q * (2 * p) <= 2 * 1_000_000 + p) by {
            vstd::arithmetic::div_mod::lemma_fundamental_div_mod((2 * 1_000_000 + p) as int, (2 * p) as int);
        }
        assert(q <= 2_000_000) by (nonlinear_arith)
            requires
                q * (2 * p) <= 2 * 1_000_000 + p,
                p >= 1,
        ;
        if q < 1 {
            1
        } else {
            q as u64
        }
    }
}

impl StimulusRunner {
    /// The active stimuli, oldest first.
    pub closed spec fn view(&self) -> Seq<StimulusView> {
        self.stimuli@.map_values(|s: ActiveStimulus| s.view())
    }

    /// The length of a tick, in microseconds.
    pub closed spec fn dt(&self) -> u32 {
        self.dt
    }

    pub closed spec fn wf(&self) -> bool {
        &&& self.dt > 0
        &&& forall|i: int| 0 <= i < self.stimuli@.len() ==> (#[trigger] self.stimuli@[i]).generator.wf()
    }

    /// A runner with no stimulus, for ticks of `dt` microseconds.
    pub fn new(dt: u32) -> (r: Self)
        requires
            dt > 0,
        ensures
            r.wf(),
            r.dt() == dt,
            r.view() == Seq::<StimulusView>::empty(),
    {
        let r = StimulusRunner { dt, stimuli: Vec::new() };
        assert(r.view() =~= Seq::<StimulusView>::empty());
        r
    }

    /// Drops every stimulus.
    pub fn clear(&mut self)
        requires
            old(self).wf(),
        ensures
            final(self).wf(),
            final(self).dt() == old(self).dt(),
            final(self).view() == Seq::<StimulusView>::empty(),
    {
        self.stimuli.clear();
        assert(self.view() =~= Seq::<StimulusView>::empty());
    }

    fn remove_id(&mut self, id: u64)
        requires
            old(self).wf(),
        ensures
            final(self).wf(),
            final(self).dt() == old(self).dt(),
            final(self).view() == without_id(old(self).view(), id),
    {
        let mut pending: Vec<ActiveStimulus> = Vec::new();
        std::mem::swap(&mut pending, &mut self.stimuli);
        let ghost olds = old(self).view();
        let ghost mut k: int = 0;
        assert(self.view() =~= without_id(olds.take(0), id));
        while pending.len() > 0
            invariant
                0 <= k <= olds.len(),
                pending@.len() == olds.len() - k,
                pending@.map_values(|s: ActiveStimulus| s.view()) == olds.skip(k),
                forall|i: int| 0 <= i < pending@.len() ==> (#[trigger] pending@[i]).generator.wf(),
                self.wf(),
                self.dt == old(self).dt,
                self.view() == without_id(olds.take(k), id),
            decreases pending@.len(),
        {
            let ghost before = pending@;
            let st = pending.remove(0);
            assert(st.view() == before.map_values(|s: ActiveStimulus| s.view())[0]);
            assert(olds.skip(k)[0] == olds[k]);
            assert forall|i: int| 0 <= i < pending@.len() implies pending@.map_values(
                |s: ActiveStimulus| s.view(),
            )[i] == #[trigger] olds.skip(k + 1)[i] by {
                assert(pending@[i] == before[i + 1]);
                assert(before.map_values(|s: ActiveStimulus| s.view())[i + 1] == olds.skip(k)[i + 1]);
            }
            assert(pending@.map_values(|s: ActiveStimulus| s.view()) =~= olds.skip(k + 1));
            assert(olds.take(k + 1).drop_last() =~= olds.take(k));
            let ghost prev = self.view();
            if st.stimulus_id != id {
                self.stimuli.push(st);
                assert(self.view() =~= prev.push(olds[k]));
            }
            proof {
                k = k + 1;
            }
        }
        assert(olds.take(k) =~= olds);
    }
    fn register(&mut self, st: ActiveStimulus)
        requires
            old(self).wf(),
            st.generator.wf(),
        ensures
            final(self).wf(),
            final(self).dt() == old(self).dt(),
            final(self).view() == old(self).view().push(st.view()),
    {
        self.stimuli.push(st);
        assert(self.view() =~= old(self).view().push(st.view()));
    }

    /// Starts stimulus `stimulus_id` on neuron `neuron_id` at the network's current
    /// tick, in place of any active stimulus with the same id. A description that
    /// yields no event only removes that one.
    pub fn fire(&mut self, stimulus_id: u64, neuron_id: NeuronId, spec: &StimulusSpec, network: &Network)
        requires
            old(self).wf(),
        ensures
            final(self).wf(),
            final(self).dt() == old(self).dt(),
            final(self).view() == match started(spec.mode, stimulus_id, neuron_id, network.t as u64, old(self).dt()) {
                Some(v) => without_id(old(self).view(), stimulus_id).push(v),
                None => without_id(old(self).view(), stimulus_id),
            },
    {
        self.remove_id(stimulus_id);
        let base = network.t as u64;
        let dt = self.dt;
        match &spec.mode {
            StimulusMode::ManualPulse { amplitude } => {
                self.register(
                    ActiveStimulus {
                        stimulus_id,
                        neuron_id,
                        amp: *amplitude,
                        generator: Generator::Pulse { tick: base },
                    },
                );
            },
            StimulusMode::Poisson { rate, seed, start, stop } => {
                if *rate == 0 {
                    return ;
                }
                let stop_tick = match stop {
                    Some(s) => {
                        if *s < *start {
                            return ;
                        }
                        Some(base.saturating_add(to_ticks(*s, dt)))
                    },
                    None => None,
                };
                let next_tick = base.saturating_add(to_ticks(*start, dt)).saturating_add(1);
                self.register(
                    ActiveStimulus {
                        stimulus_id,
                        neuron_id,
                        amp: WEIGHT_ONE,
                        generator: Generator::Poisson { rng: seeded_rng(*seed), rate: *rate, next_tick, stop_tick },
                    },
                );
            },
            StimulusMode::SpikeTrain { times, looped } => {
                if times.len() == 0 {
                    return ;
                }
                let mut ticks: Vec<u64> = Vec::new();
                let mut m: u64 = 0;
                let mut k: usize = 0;
                while k < times.len()
                    invariant
                        dt > 0,
                        k <= times@.len(),
                        ticks@ == times@.take(k as int).map_values(|ms: u32| ms_to_ticks(ms, dt)),
                        m == seq_max(ticks@),
                    decreases times@.len() - k,
                {
                    let t = to_ticks(times[k], dt);
                    let ghost before = ticks@;
                    ticks.push(t);
                    assert(ticks@ =~= times@.take(k + 1).map_values(|ms: u32| ms_to_ticks(ms, dt)));
                    assert(ticks@.drop_last() =~= before);
                    if t > m {
                        m = t;
                    }
                    k += 1;
                }
                assert(times@.take(k as int) =~= times@);
                self.register(
                    ActiveStimulus {
                        stimulus_id,
                        neuron_id,
                        amp: WEIGHT_ONE,
                        generator: Generator::Train {
                            times_ticks: ticks,
                            looped: *looped && m > 0,
                            period_ticks: m,
                            base_tick: base,
                            index: 0,
                        },
                    },
                );
            },
            StimulusMode::CurrentStep { amp, start, stop, rate } => {
                let start_tick = base.saturating_add(to_ticks(*start, dt));
                let mut stop_tick = base.saturating_add(to_ticks(*stop, dt));
                if stop_tick < start_tick {
                    stop_tick = start_tick;
                }
                self.register(
                    ActiveStimulus {
                        stimulus_id,
                        neuron_id,
                        amp: *amp,
                        generator: Generator::Step {
                            stop_tick,
                            next_tick: start_tick,
                            interval_ticks: interval_ticks(*rate, dt),
                        },
                    },
                );
            },
        }
    }

    /// Advances every stimulus to the network's current tick `t`, queues the events
    /// due for delivery by the next `tick` (in the slot of `t`), and drops the
    /// stimuli that are exhausted. Call it once per tick, before `tick`.
    pub fn apply(&mut self, network: &mut Network)
        requires
            old(self).wf(),
            old(network).wf(),
            old(network).events@.len() > 0,
            targets_within(old(self).view(), old(network).neurons@.len()),
        ensures
            final(self).wf(),
            final(self).dt() == old(self).dt(),
            final(self).view() == survivors(old(self).view(), old(network).t as u64),
            targets_within(final(self).view(), old(network).neurons@.len()),
            final(network).wf(),
            final(network).neurons@ == old(network).neurons@,
            final(network).adjacency() == old(network).adjacency(),
            final(network).t == old(network).t,
            final(network).events@.len() == old(network).events@.len(),
            exists|counts: Seq<nat>|
                {
                    &&& counts.len() == old(self).view().len()
                    &&& forall|i: int| 0 <= i < counts.len() ==> count_allowed(
                        old(self).view()[i],
                        old(network).t as u64,
                        old(self).dt(),
                        #[trigger] counts[i],
                    )
                    &&& final(network).queue() == old(network).queue().update(
                        old(network).t as int % old(network).events@.len() as int,
                        old(network).queue()[old(network).t as int % old(network).events@.len() as int]
                            + emitted(old(self).view(), counts),
                    )
                },
    {
        let now = network.t as u64;
        let ghost slot = network.t as int % network.events@.len() as int;
        let ghost q0 = network.queue();
        let ghost n = network.neurons@.len();
        let mut pending: Vec<ActiveStimulus> = Vec::new();
        std::mem::swap(&mut pending, &mut self.stimuli);
        let ghost olds = old(self).view();
        let ghost mut k: int = 0;
        let ghost mut counts: Seq<nat> = seq![];
        assert(self.view() =~= survivors(olds.take(0), now));
        assert(emitted(olds.take(0), counts) =~= seq![]);
        assert(network.queue() =~= q0.update(slot, q0[slot] + emitted(olds.take(0), counts)));
        while pending.len() > 0
            invariant
                0 <= k <= olds.len(),
                counts.len() == k,
                pending@.len() == olds.len() - k,
                pending@.map_values(|s: ActiveStimulus| s.view()) == olds.skip(k),
                forall|i: int| 0 <= i < pending@.len() ==> (#[trigger] pending@[i]).generator.wf(),
                targets_within(olds, n),
                self.wf(),
                self.dt == old(self).dt,
                self.view() == survivors(olds.take(k), now),
                forall|i: int| 0 <= i < k ==> count_allowed(olds[i], now, self.dt, #[trigger] counts[i]),
                network.wf(),
                network.neurons@.len() == n,
                network.neurons@ == old(network).neurons@,
                network.adjacency() == old(network).adjacency(),
                network.t == old(network).t,
                now == network.t,
                network.events@.len() == old(network).events@.len(),
                slot == network.t as int % network.events@.len() as int,
                network.events@.len() > 0,
                q0.len() == network.events@.len(),
                network.queue() == q0.update(slot, q0[slot] + emitted(olds.take(k), counts)),
            decreases pending@.len(),
        {
            let ghost before = pending@;
            let mut st = pending.remove(0);
            assert(st.view() == before.map_values(|s: ActiveStimulus| s.view())[0]);
            assert(olds.skip(k)[0] == olds[k]);
            assert forall|i: int| 0 <= i < pending@.len() implies pending@.map_values(
                |s: ActiveStimulus| s.view(),
            )[i] == #[trigger] olds.skip(k + 1)[i] by {
                assert(pending@[i] == before[i + 1]);
                assert(before.map_values(|s: ActiveStimulus| s.view())[i + 1] == olds.skip(k)[i + 1]);
            }
            assert(pending@.map_values(|s: ActiveStimulus| s.view()) =~= olds.skip(k + 1));
            let ghost sv = st.view();
            assert(sv.target < n);
            let (c, done) = st.poll(now, self.dt);
            let ghost prefix = q0[slot] + emitted(olds.take(k), counts);
            let mut j: u32 = 0;
            while j < c
                invariant
                    j <= c,
                    sv.target < n,
                    st.neuron_id == sv.target,
                    st.amp == sv.amp,
                    network.wf(),
                    network.neurons@.len() == n,
                    network.neurons@ == old(network).neurons@,
                    network.adjacency() == old(network).adjacency(),
                    network.t == old(network).t,
                    network.events@.len() == old(network).events@.len(),
                    slot == network.t as int % network.events@.len() as int,
                    network.events@.len() > 0,
                    q0.len() == network.events@.len(),
                    network.queue() == q0.update(slot, prefix + repeated((sv.target, sv.amp), j as nat)),
                decreases c - j,
            {
                let ghost qb = network.queue();
                network.schedule_spike(st.neuron_id, st.amp, 0);
                assert(slot_of(network.t as int, 0, network.events@.len() as int) == slot);
                assert(0 <= slot < q0.len());
                assert(qb[slot] == prefix + repeated((sv.target, sv.amp), j as nat));
                assert(qb[slot].push((sv.target, sv.amp)) =~= prefix + repeated((sv.target, sv.amp), (j + 1) as nat));
                assert(network.queue() =~= q0.update(
                    slot,
                    prefix + repeated((sv.target, sv.amp), (j + 1) as nat),
                ));
                j += 1;
            }
            let ghost prev = self.view();
            let ghost taken = olds.take(k + 1);
            assert(taken.drop_last() =~= olds.take(k));
            assert(taken.last() == olds[k]);
            if !done {
                self.stimuli.push(st);
                assert(self.view() =~= prev.push(StimulusView { generator: advanced(sv.generator, now).0, ..sv }));
            }
            proof {
                let cs = counts.push(c as nat);
                assert(cs.drop_last() =~= counts);
                assert(emitted(taken, cs) =~= emitted(olds.take(k), counts) + repeated((sv.target, sv.amp), c as nat));
                assert(prefix + repeated((sv.target, sv.amp), c as nat) =~= q0[slot] + emitted(taken, cs));
                counts = cs;
                k = k + 1;
            }
        }
        assert(olds.take(k) =~= olds);
        proof {
            lemma_survivors_targets(olds, now, n);
        }
    }
}

} // verus!
