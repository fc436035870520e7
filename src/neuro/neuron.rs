use vstd::arithmetic::div_mod::{lemma_div_is_ordered, lemma_div_pos_is_pos, lemma_hoist_over_denominator};
use vstd::prelude::*;

verus! {

/// One unit of synaptic weight or conductance: weights are held in millionths.
pub const WEIGHT_ONE: i64 = 1_000_000;

#[derive(Clone, Copy, Debug, PartialEq, Eq, Structural)]
pub enum NeuronKind {
    Excitatory,
    Inhibitory,
}

/// Dense index of a neuron in its network, assigned in creation order.
pub type NeuronId = usize;

/// Mutable per-tick state of a neuron.
#[derive(Clone, Copy, Debug, PartialEq, Eq, Structural)]
pub struct NeuronState {
    /// Membrane potential, in microvolts.
    pub v: i32,
    /// Ticks of the refractory period still to run.
    pub refractory_left: u32,
    /// Excitatory conductance, in millionths.
    pub g_exc: u64,
    /// Inhibitory conductance, in millionths.
    pub g_inh: u64,
}

/// Fixed parameters of a neuron. Potentials are in microvolts, time
/// constants in microseconds, the refractory period in ticks.
#[derive(Clone, Copy, Debug, PartialEq, Eq, Structural)]
pub struct NeuronConfig {
    pub v_rest: i32,
    pub v_reset: i32,
    pub tau_m: u32,
    pub theta: i32,
    pub refractory_period: u32,
    pub tau_syn: u32,
    pub e_exc: i32,
    pub e_inh: i32,
}

#[derive(Clone, Copy, Debug, PartialEq, Eq, Structural)]
pub struct Neuron {
    pub kind: NeuronKind,
    pub state: NeuronState,
    pub config: NeuronConfig,
}

impl NeuronConfig {
    /// Both time constants are positive, so that the update rule can divide by them.
    pub open spec fn wf(&self) -> bool {
        self.tau_m > 0 && self.tau_syn > 0
    }
}

/// The default parameters: rest at -65 mV, reset to -75 mV, threshold -50 mV,
/// membrane time constant 20 ms, synaptic time constant 5 ms, refractory period
/// 5 ticks, reversal potentials 0 mV (excitatory) and -70 mV (inhibitory).
pub open spec fn default_config() -> NeuronConfig {
    NeuronConfig {
        v_rest: -65_000i32,
        v_reset: -75_000i32,
        tau_m: 20_000,
        theta: -50_000i32,
        refractory_period: 5,
        tau_syn: 5_000,
        e_exc: 0,
        e_inh: -70_000i32,
    }
}

impl Default for NeuronConfig {
    fn default() -> (r: Self)
        ensures
            r == default_config(),
    {
        NeuronConfig {
            v_rest: -65_000,
            v_reset: -75_000,
            tau_m: 20_000,
            theta: -50_000,
            refractory_period: 5,
            tau_syn: 5_000,
            e_exc: 0,
            e_inh: -70_000,
        }
    }
}

/// The state a neuron starts in: at rest, with no conductance.
pub open spec fn rest_state(config: NeuronConfig) -> NeuronState {
    NeuronState { v: config.v_rest, refractory_left: 0, g_exc: 0, g_inh: 0 }
}

/// Quotient rounded toward zero, as integer division does on machine integers.
pub open spec fn trunc_div(a: int, b: int) -> int {
    if a >= 0 {
        a / b
    } else {
        -((-a) / b)
    }
}

pub open spec fn clamp(x: int, lo: int, hi: int) -> int {
    if x < lo {
        lo
    } else if x > hi {
        hi
    } else {
        x
    }
}

/// Linear decay of a conductance over one tick: `g - g * dt / tau_syn`, never below zero.
pub open spec fn decayed(g: u64, dt: u32, tau_syn: u32) -> u64 {
    let loss = (g as int) * (dt as int) / (tau_syn as int);
    if loss >= g {
        0
    } else {
        (g - loss) as u64
    }
}

/// Leak plus synaptic currents at potential `v`, in microvolts per membrane time constant.
pub open spec fn drive(v: i32, g_exc: u64, g_inh: u64, c: NeuronConfig) -> int {
    (c.v_rest - v) + trunc_div(g_exc * (c.e_exc - v), WEIGHT_ONE as int) + trunc_div(
        g_inh * (c.e_inh - v),
        WEIGHT_ONE as int,
    )
}

/// One forward-Euler step of the membrane potential. The drive saturates at the
/// range of `i64`, the new potential at the range of `i32`.
pub open spec fn integrated(v: i32, g_exc: u64, g_inh: u64, c: NeuronConfig, dt: u32) -> i32 {
    let d = clamp(drive(v, g_exc, g_inh, c), i64::MIN as int, i64::MAX as int);
    clamp(v + trunc_div(d * dt, c.tau_m as int), i32::MIN as int, i32::MAX as int) as i32
}

/// The update rule of one tick: conductances decay; a refractory neuron is held
/// at `v_reset`; any other integrates and spikes on reaching `theta`.
/// The flag tells whether the neuron spiked.
pub open spec fn step(s: NeuronState, c: NeuronConfig, dt: u32) -> (NeuronState, bool) {
    let g_exc = decayed(s.g_exc, dt, c.tau_syn);
    let g_inh = decayed(s.g_inh, dt, c.tau_syn);
    if s.refractory_left > 0 {
        (
            NeuronState {
                v: c.v_reset,
                refractory_left: (s.refractory_left - 1) as u32,
                g_exc,
                g_inh,
            },
            false,
        )
    } else {
        let v = integrated(s.v, g_exc, g_inh, c, dt);
        if v >= c.theta {
            (
                NeuronState { v: c.v_reset, refractory_left: c.refractory_period, g_exc, g_inh },
                true,
            )
        } else {
            (NeuronState { v, refractory_left: 0, g_exc, g_inh }, false)
        }
    }
}

/// A delivered event: a non-negative weight adds to the excitatory conductance,
/// a negative one adds its magnitude to the inhibitory conductance (saturating).
pub open spec fn received(s: NeuronState, weight: i64) -> NeuronState {
    if weight >= 0 {
        NeuronState { g_exc: clamp(s.g_exc + weight, 0, u64::MAX as int) as u64, ..s }
    } else {
        NeuronState { g_inh: clamp(s.g_inh - weight, 0, u64::MAX as int) as u64, ..s }
    }
}

/// The state after each weight of `ws`, in order, is received.
pub open spec fn received_all(s: NeuronState, ws: Seq<i64>) -> NeuronState
    decreases ws.len(),
{
    if ws.len() == 0 {
        s
    } else {
        received(received_all(s, ws.drop_last()), ws.last())
    }
}

/// Runs one tick per entry of `inputs`: the tick's weights are received, then the
/// update rule runs. Gives the final state and, tick by tick, whether it spiked.
pub open spec fn run(s: NeuronState, c: NeuronConfig, dt: u32, inputs: Seq<Seq<i64>>) -> (
    NeuronState,
    Seq<bool>,
)
    decreases inputs.len(),
{
    if inputs.len() == 0 {
        (s, seq![])
    } else {
        let (s1, fired) = step(received_all(s, inputs[0]), c, dt);
        let (s2, rest) = run(s1, c, dt, inputs.drop_first());
        (s2, seq![fired] + rest)
    }
}

/// Equilibrium: a neuron at rest, with no conductance and not refractory, is left
/// exactly as it is by an update and does not spike (its resting potential being
/// below threshold).
pub proof fn lemma_rest_is_fixed_point(c: NeuronConfig, dt: u32)
    requires
        c.wf(),
        c.v_rest < c.theta,
    ensures
        step(rest_state(c), c, dt) == (rest_state(c), false),
{
    assert(decayed(0, dt, c.tau_syn) == 0);
    assert(drive(c.v_rest, 0, 0, c) == 0);
    assert(trunc_div(0 * dt, c.tau_m as int) == 0);
}

/// Receiving weights changes the conductances only.
pub proof fn lemma_received_all_keeps_potential(s: NeuronState, ws: Seq<i64>)
    ensures
        received_all(s, ws).v == s.v,
        received_all(s, ws).refractory_left == s.refractory_left,
    decreases ws.len(),
{
    if ws.len() > 0 {
        lemma_received_all_keeps_potential(s, ws.drop_last());
    }
}

/// Refractoriness: a neuron with `k` refractory ticks left does not spike during
/// the next `k` ticks, whatever it receives; after them it is no longer refractory.
/// Right after a spike `k` is the configured refractory period.
pub proof fn lemma_refractory_silence(s: NeuronState, c: NeuronConfig, dt: u32, inputs: Seq<Seq<i64>>)
    requires
        inputs.len() <= s.refractory_left,
    ensures
        forall|j: int| 0 <= j < inputs.len() ==> !(#[trigger] run(s, c, dt, inputs).1[j]),
        run(s, c, dt, inputs).1.len() == inputs.len(),
        run(s, c, dt, inputs).0.refractory_left == s.refractory_left - inputs.len(),
        inputs.len() > 0 ==> run(s, c, dt, inputs).0.v == c.v_reset,
    decreases inputs.len(),
{
    if inputs.len() > 0 {
        lemma_received_all_keeps_potential(s, inputs[0]);
        let s1 = step(received_all(s, inputs[0]), c, dt).0;
        lemma_refractory_silence(s1, c, dt, inputs.drop_first());
        let r = run(s, c, dt, inputs).1;
        assert forall|j: int| 0 <= j < inputs.len() implies !(#[trigger] r[j]) by {
            if j > 0 {
                assert(r[j] == run(s1, c, dt, inputs.drop_first()).1[j - 1]);
            }
        }
    }
}

/// A spike leaves the neuron at `v_reset` with the whole refractory period to run.
pub proof fn lemma_spike_resets(s: NeuronState, c: NeuronConfig, dt: u32)
    requires
        step(s, c, dt).1,
    ensures
        step(s, c, dt).0.v == c.v_reset,
        step(s, c, dt).0.refractory_left == c.refractory_period,
{
}

proof fn lemma_trunc_div_monotone(a: int, b: int, d: int)
    requires
        a <= b,
        d > 0,
    ensures
        trunc_div(a, d) <= trunc_div(b, d),
{
    if a >= 0 {
        lemma_div_is_ordered(a, b, d);
    } else if b >= 0 {
        lemma_div_pos_is_pos(-a, d);
        lemma_div_pos_is_pos(b, d);
    } else {
        lemma_div_is_ordered(-b, -a, d);
    }
}

/// More conductance before decay leaves at least as much after it.
pub proof fn lemma_decayed_monotone(g1: u64, g2: u64, dt: u32, tau_syn: u32)
    requires
        tau_syn > 0,
        g1 >= g2,
    ensures
        decayed(g1, dt, tau_syn) >= decayed(g2, dt, tau_syn),
{
    let l1 = (g1 as int) * (dt as int) / (tau_syn as int);
    let l2 = (g2 as int) * (dt as int) / (tau_syn as int);
    if l2 < g2 {
        if dt >= tau_syn {
            assert((g2 as int) * (dt as int) >= (g2 as int) * (tau_syn as int)) by (nonlinear_arith)
                requires
                    dt >= tau_syn,
                    g2 >= 0,
            ;
            lemma_div_is_ordered((g2 as int) * (tau_syn as int), (g2 as int) * (dt as int), tau_syn as int);
            vstd::arithmetic::div_mod::lemma_div_multiples_vanish(g2 as int, tau_syn as int);
        } else {
            let x = (g2 as int) * (dt as int) + (g1 - g2) * (tau_syn as int);
            assert((g1 as int) * (dt as int) <= x) by (nonlinear_arith)
                requires
                    dt < tau_syn,
                    g1 >= g2,
                    x == (g2 as int) * (dt as int) + (g1 - g2) * (tau_syn as int),
            ;
            lemma_div_is_ordered((g1 as int) * (dt as int), x, tau_syn as int);
            lemma_hoist_over_denominator((g2 as int) * (dt as int), (g1 - g2) as int, tau_syn as nat);
            assert(l1 <= l2 + (g1 - g2));
        }
    }
}

/// Inhibition only lowers the potential: at a potential not below the inhibitory
/// reversal potential, more inhibitory conductance gives a new potential that is
/// no higher.
pub proof fn lemma_integrated_monotone_in_inhibition(
    v: i32,
    g_exc: u64,
    g_more: u64,
    g_less: u64,
    c: NeuronConfig,
    dt: u32,
)
    requires
        c.wf(),
        v >= c.e_inh,
        g_more >= g_less,
    ensures
        integrated(v, g_exc, g_more, c, dt) <= integrated(v, g_exc, g_less, c, dt),
{
    let diff = c.e_inh - v;
    assert(g_more * diff <= g_less * diff) by (nonlinear_arith)
        requires
            diff <= 0,
            g_more >= g_less,
    ;
    lemma_trunc_div_monotone(g_more * diff, g_less * diff, WEIGHT_ONE as int);
    let da = clamp(drive(v, g_exc, g_more, c), i64::MIN as int, i64::MAX as int);
    let db = clamp(drive(v, g_exc, g_less, c), i64::MIN as int, i64::MAX as int);
    assert(da <= db);
    assert(da * dt <= db * dt) by (nonlinear_arith)
        requires
            da <= db,
            dt >= 0,
    ;
    lemma_trunc_div_monotone(da * dt, db * dt, c.tau_m as int);
}

/// Lateral inhibition suppresses, never provokes: two neurons alike but for the
/// inhibitory conductance, at a potential not below the inhibitory reversal
/// potential; the one with more inhibition ends no higher, and spikes only if the
/// other does.
pub proof fn lemma_inhibition_suppresses(s_more: NeuronState, s_less: NeuronState, c: NeuronConfig, dt: u32)
    requires
        c.wf(),
        s_more.v == s_less.v,
        s_more.refractory_left == s_less.refractory_left,
        s_more.g_exc == s_less.g_exc,
        s_more.g_inh >= s_less.g_inh,
        s_more.v >= c.e_inh,
    ensures
        step(s_more, c, dt).1 ==> step(s_less, c, dt).1,
        !step(s_less, c, dt).1 ==> step(s_more, c, dt).0.v <= step(s_less, c, dt).0.v,
{
    lemma_decayed_monotone(s_more.g_inh, s_less.g_inh, dt, c.tau_syn);
    lemma_integrated_monotone_in_inhibition(
        s_more.v,
        decayed(s_more.g_exc, dt, c.tau_syn),
        decayed(s_more.g_inh, dt, c.tau_syn),
        decayed(s_less.g_inh, dt, c.tau_syn),
        c,
        dt,
    );
}

fn div_toward_zero(a: i128, b: i128) -> (r: i128)
    requires
        b > 0,
    ensures
        r == trunc_div(a as int, b as int),
{
    a / b
}

fn decay(g: u64, dt: u32, tau_syn: u32) -> (r: u64)
    requires
        tau_syn > 0,
    ensures
        r == decayed(g, dt, tau_syn),
{
    assert(0 <= g as int * dt as int <= u64::MAX as int * u32::MAX as int) by (nonlinear_arith)
        requires
            0 <= g <= u64::MAX,
            0 <= dt <= u32::MAX,
    ;
    let prod: u128 = (g as u128) * (dt as u128);
    let loss: u128 = prod / (tau_syn as u128);
    if loss >= g as u128 {
        0
    } else {
        g - (loss as u64)
    }
}

fn clamp_i64(x: i128) -> (r: i128)
    ensures
        r == clamp(x as int, i64::MIN as int, i64::MAX as int),
{
    if x < i64::MIN as i128 {
        i64::MIN as i128
    } else if x > i64::MAX as i128 {
        i64::MAX as i128
    } else {
        x
    }
}

fn integrate(v: i32, g_exc: u64, g_inh: u64, c: &NeuronConfig, dt: u32) -> (r: i32)
    requires
        c.wf(),
    ensures
        r == integrated(v, g_exc, g_inh, *c, dt),
{
    let de: i128 = c.e_exc as i128 - v as i128;
    let di: i128 = c.e_inh as i128 - v as i128;
    assert(-0x1_0000_0000_0000_0000_0000_0000 <= g_exc as int * de <= 0x1_0000_0000_0000_0000_0000_0000)
        by (nonlinear_arith)
        requires
            -0x1_0000_0000 <= de <= 0x1_0000_0000,
            0 <= g_exc <= u64::MAX,
    ;
    assert(-0x1_0000_0000_0000_0000_0000_0000 <= g_inh as int * di <= 0x1_0000_0000_0000_0000_0000_0000)
        by (nonlinear_arith)
        requires
            -0x1_0000_0000 <= di <= 0x1_0000_0000,
            0 <= g_inh <= u64::MAX,
    ;
    let pe: i128 = (g_exc as i128) * de;
    let pi: i128 = (g_inh as i128) * di;
    let ie = div_toward_zero(pe, WEIGHT_ONE as i128);
    let ii = div_toward_zero(pi, WEIGHT_ONE as i128);
    let d = clamp_i64((c.v_rest as i128 - v as i128) + ie + ii);
    assert(-0x1_0000_0000_0000_0000_0000_0000 <= d * dt <= 0x1_0000_0000_0000_0000_0000_0000)
        by (nonlinear_arith)
        requires
            i64::MIN <= d <= i64::MAX,
            0 <= dt <= u32::MAX,
    ;
    let scaled: i128 = d * (dt as i128);
    let dv = div_toward_zero(scaled, c.tau_m as i128);
    let nv: i128 = v as i128 + dv;
    if nv < i32::MIN as i128 {
        i32::MIN
    } else if nv > i32::MAX as i128 {
        i32::MAX
    } else {
        nv as i32
    }
}

impl Neuron {
    /// A neuron of the given kind, at rest.
    pub fn new(kind: NeuronKind, config: NeuronConfig) -> (r: Self)
        ensures
            r.kind == kind,
            r.config == config,
            r.state == rest_state(config),
    {
        Neuron {
            kind,
            state: NeuronState { v: config.v_rest, g_exc: 0, g_inh: 0, refractory_left: 0 },
            config,
        }
    }

    /// Adds a delivered event's weight to the matching conductance.
    pub fn receive(&mut self, weight: i64)
        ensures
            final(self).state == received(old(self).state, weight),
            final(self).kind == old(self).kind,
            final(self).config == old(self).config,
    {
        if weight >= 0 {
            self.state.g_exc = self.state.g_exc.saturating_add(weight as u64);
        } else {
            let m: u64 = ((0i64 - (weight + 1)) as u64) + 1;
            self.state.g_inh = self.state.g_inh.saturating_add(m);
        }
    }

    /// Runs the update rule for one tick of `dt` microseconds; returns whether
    /// the neuron spiked.
    pub fn update(&mut self, dt: u32) -> (spiked: bool)
        requires
            old(self).config.wf(),
        ensures
            (final(self).state, spiked) == step(old(self).state, old(self).config, dt),
            final(self).kind == old(self).kind,
            final(self).config == old(self).config,
    {
        let c = self.config;
        let g_exc = decay(self.state.g_exc, dt, c.tau_syn);
        let g_inh = decay(self.state.g_inh, dt, c.tau_syn);
        if self.state.refractory_left > 0 {
            self.state = NeuronState {
                v: c.v_reset,
                refractory_left: self.state.refractory_left - 1,
                g_exc,
                g_inh,
            };
            false
        } else {
            let v = integrate(self.state.v, g_exc, g_inh, &c, dt);
            if v >= c.theta {
                self.state = NeuronState {
                    v: c.v_reset,
                    refractory_left: c.refractory_period,
                    g_exc,
                    g_inh,
                };
                true
            } else {
                self.state = NeuronState { v, refractory_left: 0, g_exc, g_inh };
                false
            }
        }
    }
}

} // verus!
