//! The clicking engine's decisions. The process around the library runs the
//! actual loop: each iteration it snapshots the shared settings, asks
//! [`Engine::step`] what to do, performs the returned plan through the input
//! simulation port, sleeps for the returned time, and repeats. Everything the
//! engine decides — which action, how many, how long to wait — is stated and
//! proved here; only the random draws come from outside.

use vstd::prelude::*;
use crate::config::{ClickMode, ClickType};

verus! {

/// Relies on `rand::Rng::gen_range` over the inclusive range `lo..=hi`: the
/// sampled value lies within the bounds, and the call panics only on an empty
/// range, which the precondition rules out.
#[verifier::external_body]
fn rand_between(lo: u64, hi: u64) -> (r: u64)
    requires
        lo <= hi,
    ensures
        lo <= r <= hi,
{
    rand::Rng::gen_range(&mut rand::thread_rng(), lo..=hi)
}

/// Humanized-mode base delay: 1000/rate milliseconds, rounded down, with the
/// rate given in tenths of a click per second.
pub open spec fn base_delay_ms(cps_tenths: u64) -> int {
    10000 as int / cps_tenths as int
}

/// Humanized-mode jitter magnitude in milliseconds: +-10 ms up to 10 cps,
/// +-5 ms up to 20 cps, +-3 ms above that.
pub open spec fn jitter_ms(cps_tenths: u64) -> int {
    if cps_tenths > 200 {
        3
    } else if cps_tenths > 100 {
        5
    } else {
        10
    }
}

/// Lower bound on a burst's size: half the rate, less five, floored at zero.
pub open spec fn burst_lo(cps_tenths: u64) -> int {
    if cps_tenths as int / 20 >= 5 {
        cps_tenths as int / 20 - 5
    } else {
        0
    }
}

/// Upper bound on a burst's size: half the rate, plus five.
pub open spec fn burst_hi(cps_tenths: u64) -> int {
    cps_tenths as int / 20 + 5
}

/// Picks the delay to the next Humanized-mode action: the base delay plus a
/// random jitter within the band for this rate, floored at one millisecond.
/// The bounds proved here are exactly the ones the design asks of rates up to
/// 50 cps: the delay stays within the jitter band around 1000/rate ms and is
/// never below 1 ms.
pub fn calculate_humanized_delay(cps_tenths: u64) -> (d: u64)
    requires
        cps_tenths >= 1,
    ensures
        1 <= d,
        d <= base_delay_ms(cps_tenths) + jitter_ms(cps_tenths),
        base_delay_ms(cps_tenths) - jitter_ms(cps_tenths) >= 1 ==> d >= base_delay_ms(
            cps_tenths,
        ) - jitter_ms(cps_tenths),
{
    let base: u64 = 10000 / cps_tenths;
    let jit: u64 = if cps_tenths > 200 {
        3
    } else if cps_tenths > 100 {
        5
    } else {
        10
    };
    let pick: u64 = rand_between(0, 2 * jit);
    let raw: u64 = base + pick;
    if raw >= jit + 1 {
        raw - jit
    } else {
        1
    }
}

/// One thing the loop must perform before its next sleep.
#[derive(Clone, Copy, Debug, PartialEq, Eq, Structural)]
pub enum StepAction {
    /// Nothing to emit this iteration.
    Wait,
    /// Emit a release for the held action; Hold mode left a press outstanding.
    Release(ClickType),
    /// Emit one press+release pair.
    ClickOnce(ClickType),
    /// Emit a press and leave it outstanding.
    Press(ClickType),
    /// Emit this many press+release pairs back to back, the given number of
    /// microseconds apart.
    Burst(ClickType, u64, u64),
}

/// A step's outcome: the action to perform, then a sleep of `sleep_ms`
/// milliseconds before the next step.
#[derive(Clone, Copy, Debug, PartialEq, Eq, Structural)]
pub struct StepPlan {
    pub action: StepAction,
    pub sleep_ms: u64,
}

/// A step emits a Hold-mode press exactly when it is active in Hold mode with
/// no press outstanding.
pub open spec fn emits_press(holding: bool, active: bool, mode: ClickMode) -> bool {
    active && mode == ClickMode::Hold && !holding
}

/// A step emits the matching release exactly when it is inactive with a press
/// outstanding.
pub open spec fn emits_release(holding: bool, active: bool, mode: ClickMode) -> bool {
    !active && holding
}

/// How one step changes the holding flag.
pub open spec fn next_holding(holding: bool, active: bool, mode: ClickMode) -> bool {
    if emits_press(holding, active, mode) {
        true
    } else if emits_release(holding, active, mode) {
        false
    } else {
        holding
    }
}

/// The holding flag after a run over `inputs`, each input an (active, mode)
/// snapshot, starting from `h0`.
pub open spec fn holding_after(inputs: Seq<(bool, ClickMode)>, h0: bool) -> bool
    decreases inputs.len(),
{
    if inputs.len() == 0 {
        h0
    } else {
        holding_after(inputs.drop_first(), next_holding(h0, inputs[0].0, inputs[0].1))
    }
}

/// How many Hold-mode presses a run over `inputs` emits, starting from `h0`.
pub open spec fn press_count(inputs: Seq<(bool, ClickMode)>, h0: bool) -> int
    decreases inputs.len(),
{
    if inputs.len() == 0 {
        0
    } else {
        (if emits_press(h0, inputs[0].0, inputs[0].1) {
            1int
        } else {
            0int
        }) + press_count(inputs.drop_first(), next_holding(h0, inputs[0].0, inputs[0].1))
    }
}

/// How many releases a run over `inputs` emits, starting from `h0`.
pub open spec fn release_count(inputs: Seq<(bool, ClickMode)>, h0: bool) -> int
    decreases inputs.len(),
{
    if inputs.len() == 0 {
        0
    } else {
        (if emits_release(h0, inputs[0].0, inputs[0].1) {
            1int
        } else {
            0int
        }) + release_count(inputs.drop_first(), next_holding(h0, inputs[0].0, inputs[0].1))
    }
}

proof fn lemma_press_release_balance(inputs: Seq<(bool, ClickMode)>, h0: bool)
    ensures
        press_count(inputs, h0) - release_count(inputs, h0) == (if holding_after(inputs, h0) {
            1int
        } else {
            0int
        }) - (if h0 {
            1int
        } else {
            0int
        }),
    decreases inputs.len(),
{
    if inputs.len() > 0 {
        lemma_press_release_balance(
            inputs.drop_first(),
            next_holding(h0, inputs[0].0, inputs[0].1),
        );
    }
}

proof fn lemma_holding_after_snoc(inputs: Seq<(bool, ClickMode)>, x: (bool, ClickMode), h0: bool)
    ensures
        holding_after(inputs.push(x), h0) == next_holding(holding_after(inputs, h0), x.0, x.1),
    decreases inputs.len(),
{
    if inputs.len() == 0 {
        assert(inputs.push(x)[0] == x);
        assert(inputs.push(x).drop_first() =~= inputs);
        assert(holding_after(inputs.push(x), h0) == holding_after(
            inputs,
            next_holding(h0, x.0, x.1),
        ));
    } else {
        assert(inputs.push(x)[0] == inputs[0]);
        assert(inputs.push(x).drop_first() =~= inputs.drop_first().push(x));
        assert(holding_after(inputs.push(x), h0) == holding_after(
            inputs.drop_first().push(x),
            next_holding(h0, inputs[0].0, inputs[0].1),
        ));
        lemma_holding_after_snoc(
            inputs.drop_first(),
            x,
            next_holding(h0, inputs[0].0, inputs[0].1),
        );
    }
}

/// Hold-mode pairing: along any run that starts with no press outstanding,
/// presses and releases alternate, press first. After every prefix the press
/// count exceeds the release count by one exactly while a press is
/// outstanding and never by more; and any step taken with the active flag off
/// leaves no press outstanding, so deactivation always closes the pair.
pub proof fn lemma_hold_pairing(inputs: Seq<(bool, ClickMode)>)
    ensures
        forall|i: int|
            0 <= i <= inputs.len() ==> press_count(#[trigger] inputs.take(i), false) - release_count(
                inputs.take(i),
                false,
            ) == (if holding_after(inputs.take(i), false) {
                1int
            } else {
                0int
            }),
        forall|i: int|
            0 <= i < inputs.len() && !inputs[i].0 ==> !holding_after(
                #[trigger] inputs.take(i + 1),
                false,
            ),
{
    assert forall|i: int| 0 <= i <= inputs.len() implies press_count(
        #[trigger] inputs.take(i),
        false,
    ) - release_count(inputs.take(i), false) == (if holding_after(inputs.take(i), false) {
        1int
    } else {
        0int
    }) by {
        lemma_press_release_balance(inputs.take(i), false);
    }
    assert forall|i: int| 0 <= i < inputs.len() && !inputs[i].0 implies !holding_after(
        #[trigger] inputs.take(i + 1),
        false,
    ) by {
        assert(inputs.take(i + 1) =~= inputs.take(i).push(inputs[i]));
        lemma_holding_after_snoc(inputs.take(i), inputs[i], false);
    }
}

/// The clicking engine's own state: whether a Hold-mode press is outstanding.
pub struct Engine {
    pub holding: bool,
}

impl Engine {
    /// A fresh engine with no press outstanding.
    pub fn new() -> (e: Engine)
        ensures
            !e.holding,
    {
        Engine { holding: false }
    }

    /// Decides one loop iteration from a snapshot of the shared settings:
    /// inactive steps release any outstanding press and idle briefly; Click
    /// mode emits one pair and sleeps the fixed delay; Hold mode presses once
    /// and then idles until deactivation releases; Humanized mode emits one
    /// pair with a jittered delay up to 50 cps and bursts above that, with
    /// the burst size within five of half the rate, intra-burst spacing in
    /// [500, 1500] microseconds and the inter-burst pause in [450, 550] ms.
    pub fn step(
        &mut self,
        active: bool,
        mode: ClickMode,
        kind: ClickType,
        delay_ms: u64,
        cps_tenths: u64,
    ) -> (plan: StepPlan)
        requires
            active && mode == ClickMode::Humanized ==> cps_tenths >= 1,
        ensures
            final(self).holding == next_holding(old(self).holding, active, mode),
            (plan.action matches StepAction::Press(k) && k == kind) <==> emits_press(
                old(self).holding,
                active,
                mode,
            ),
            (plan.action matches StepAction::Release(k) && k == kind) <==> emits_release(
                old(self).holding,
                active,
                mode,
            ),
            !active && old(self).holding ==> plan == (StepPlan {
                action: StepAction::Release(kind),
                sleep_ms: 10,
            }),
            !active && !old(self).holding ==> plan == (StepPlan {
                action: StepAction::Wait,
                sleep_ms: 10,
            }),
            active && mode == ClickMode::Click ==> plan == (StepPlan {
                action: StepAction::ClickOnce(kind),
                sleep_ms: delay_ms,
            }),
            active && mode == ClickMode::Hold ==> plan.sleep_ms == 10 && plan.action == (if !old(
                self,
            ).holding {
                StepAction::Press(kind)
            } else {
                StepAction::Wait
            }),
            active && mode == ClickMode::Humanized && cps_tenths <= 500 ==> {
                &&& plan.action == StepAction::ClickOnce(kind)
                &&& 1 <= plan.sleep_ms
                &&& plan.sleep_ms <= base_delay_ms(cps_tenths) + jitter_ms(cps_tenths)
                &&& base_delay_ms(cps_tenths) - jitter_ms(cps_tenths) >= 1 ==> plan.sleep_ms
                    >= base_delay_ms(cps_tenths) - jitter_ms(cps_tenths)
            },
            active && mode == ClickMode::Humanized && cps_tenths > 500 ==> {
                &&& plan.action matches StepAction::Burst(k, count, spacing_us) && k == kind
                    && burst_lo(cps_tenths) <= count <= burst_hi(cps_tenths) && 500 <= spacing_us
                    <= 1500
                &&& 450 <= plan.sleep_ms <= 550
            },
    {
        if active {
            match mode {
                ClickMode::Click => StepPlan { action: StepAction::ClickOnce(kind), sleep_ms: delay_ms },
                ClickMode::Hold => {
                    if !self.holding {
                        self.holding = true;
                        StepPlan { action: StepAction::Press(kind), sleep_ms: 10 }
                    } else {
                        StepPlan { action: StepAction::Wait, sleep_ms: 10 }
                    }
                },
                ClickMode::Humanized => {
                    if cps_tenths > 500 {
                        let half: u64 = cps_tenths / 20;
                        let lo: u64 = if half >= 5 {
                            half - 5
                        } else {
                            0
                        };
                        let count: u64 = rand_between(lo, half + 5);
                        let spacing_us: u64 = rand_between(500, 1500);
                        let gap_ms: u64 = rand_between(450, 550);
                        StepPlan { action: StepAction::Burst(kind, count, spacing_us), sleep_ms: gap_ms }
                    } else {
                        let d = calculate_humanized_delay(cps_tenths);
                        StepPlan { action: StepAction::ClickOnce(kind), sleep_ms: d }
                    }
                },
            }
        } else {
            if self.holding {
                self.holding = false;
                StepPlan { action: StepAction::Release(kind), sleep_ms: 10 }
            } else {
                StepPlan { action: StepAction::Wait, sleep_ms: 10 }
            }
        }
    }
}

} // verus!
