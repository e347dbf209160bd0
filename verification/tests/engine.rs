use pylade_clicker::config::{ClickMode, ClickType};
use pylade_clicker::engine::{calculate_humanized_delay, Engine, StepAction, StepPlan};

fn base_delay(cps_tenths: u64) -> u64 {
    10000 / cps_tenths
}

fn jitter(cps_tenths: u64) -> u64 {
    if cps_tenths > 200 {
        3
    } else if cps_tenths > 100 {
        5
    } else {
        10
    }
}

#[test]
fn humanized_delay_within_band_for_all_low_rates() {
    // Every rate from 1.0 to 50.0 cps, in tenths; many draws per rate.
    for tenths in 10..=500u64 {
        let base = base_delay(tenths);
        let jit = jitter(tenths);
        for _ in 0..20 {
            let d = calculate_humanized_delay(tenths);
            assert!(d >= 1, "rate {} tenths gave delay {}", tenths, d);
            assert!(d <= base + jit, "rate {} tenths gave delay {}", tenths, d);
            if base > jit {
                assert!(d >= base - jit, "rate {} tenths gave delay {}", tenths, d);
            }
        }
    }
}

#[test]
fn humanized_delay_floors_at_one_ms() {
    // At very high rates the base delay collapses; the floor must hold.
    for _ in 0..100 {
        let d = calculate_humanized_delay(20000);
        assert!(d >= 1);
    }
}

#[test]
fn humanized_delay_varies_across_draws() {
    // At 10 cps the band spans [90, 110]: the draws must not collapse to a
    // single value.
    let first = calculate_humanized_delay(100);
    let mut varied = false;
    for _ in 0..500 {
        if calculate_humanized_delay(100) != first {
            varied = true;
            break;
        }
    }
    assert!(varied);
}

#[test]
fn burst_step_bounds_for_high_rates() {
    for tenths in [510u64, 600, 800, 1000] {
        let lo = (tenths / 20).saturating_sub(5);
        let hi = tenths / 20 + 5;
        for _ in 0..50 {
            let mut e = Engine::new();
            let plan = e.step(true, ClickMode::Humanized, ClickType::LeftClick, 1000, tenths);
            match plan.action {
                StepAction::Burst(kind, count, spacing_us) => {
                    assert_eq!(kind, ClickType::LeftClick);
                    assert!(lo <= count && count <= hi, "rate {} gave burst {}", tenths, count);
                    assert!(500 <= spacing_us && spacing_us <= 1500);
                }
                other => panic!("expected a burst, got {:?}", other),
            }
            assert!(450 <= plan.sleep_ms && plan.sleep_ms <= 550);
        }
    }
}

#[test]
fn humanized_step_at_fifty_cps_is_single_click() {
    let mut e = Engine::new();
    let plan = e.step(true, ClickMode::Humanized, ClickType::RightClick, 1000, 500);
    assert_eq!(plan.action, StepAction::ClickOnce(ClickType::RightClick));
    let base = base_delay(500);
    let jit = jitter(500);
    assert!(plan.sleep_ms >= 1 && plan.sleep_ms <= base + jit);
}

#[test]
fn click_mode_emits_pair_and_sleeps_fixed_delay() {
    let mut e = Engine::new();
    let plan = e.step(true, ClickMode::Click, ClickType::Space, 250, 100);
    assert_eq!(plan, StepPlan { action: StepAction::ClickOnce(ClickType::Space), sleep_ms: 250 });
}

#[test]
fn inactive_engine_waits() {
    let mut e = Engine::new();
    let plan = e.step(false, ClickMode::Click, ClickType::LeftClick, 1000, 100);
    assert_eq!(plan, StepPlan { action: StepAction::Wait, sleep_ms: 10 });
}

#[test]
fn hold_mode_presses_once_then_idles_until_release() {
    let mut e = Engine::new();
    let kind = ClickType::LeftClick;
    // Activation: one press, then idle while still active.
    let p1 = e.step(true, ClickMode::Hold, kind, 1000, 100);
    assert_eq!(p1.action, StepAction::Press(kind));
    let p2 = e.step(true, ClickMode::Hold, kind, 1000, 100);
    assert_eq!(p2.action, StepAction::Wait);
    let p3 = e.step(true, ClickMode::Hold, kind, 1000, 100);
    assert_eq!(p3.action, StepAction::Wait);
    // Deactivation: exactly one release, then idle.
    let p4 = e.step(false, ClickMode::Hold, kind, 1000, 100);
    assert_eq!(p4.action, StepAction::Release(kind));
    let p5 = e.step(false, ClickMode::Hold, kind, 1000, 100);
    assert_eq!(p5.action, StepAction::Wait);
    // Reactivation presses again.
    let p6 = e.step(true, ClickMode::Hold, kind, 1000, 100);
    assert_eq!(p6.action, StepAction::Press(kind));
}

#[test]
fn hold_mode_pairs_presses_and_releases_across_toggles() {
    // A long, deterministic active-flag pattern: presses and releases must
    // alternate, press first, and deactivation must always close the pair.
    let mut e = Engine::new();
    let kind = ClickType::RightClick;
    let mut outstanding = 0i64;
    let mut state = 7u64;
    for _ in 0..1000 {
        state = state.wrapping_mul(6364136223846793005).wrapping_add(1442695040888963407);
        let active = state & 4 != 0;
        let plan = e.step(active, ClickMode::Hold, kind, 1000, 100);
        match plan.action {
            StepAction::Press(k) => {
                assert_eq!(k, kind);
                outstanding += 1;
            }
            StepAction::Release(k) => {
                assert_eq!(k, kind);
                outstanding -= 1;
            }
            StepAction::Wait => {}
            other => panic!("hold mode never emits {:?}", other),
        }
        assert!(outstanding == 0 || outstanding == 1, "press without release");
        if !active {
            assert_eq!(outstanding, 0, "deactivation left a press outstanding");
        }
    }
    // Ending inactive leaves nothing outstanding.
    e.step(false, ClickMode::Hold, kind, 1000, 100);
    let plan = e.step(false, ClickMode::Hold, kind, 1000, 100);
    assert_eq!(plan.action, StepAction::Wait);
}

#[test]
fn release_uses_current_kind_and_clears_holding() {
    let mut e = Engine::new();
    let p1 = e.step(true, ClickMode::Hold, ClickType::Space, 1000, 100);
    assert_eq!(p1.action, StepAction::Press(ClickType::Space));
    let p2 = e.step(false, ClickMode::Hold, ClickType::Space, 1000, 100);
    assert_eq!(p2, StepPlan { action: StepAction::Release(ClickType::Space), sleep_ms: 10 });
    let p3 = e.step(false, ClickMode::Hold, ClickType::Space, 1000, 100);
    assert_eq!(p3.action, StepAction::Wait);
}
