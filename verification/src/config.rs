//! The user's settings: click mode, action kind, rate parameters and hotkey.
//! Rates are kept in tenths of a click per second, so a slider value such as
//! 42.5 cps is stored as 425 and every computation on it is exact integer
//! arithmetic.

use vstd::prelude::*;
use crate::keys::Key;

verus! {

/// How the engine emits while active: a fixed-delay repeat, a single press
/// held until deactivation, or a randomized-delay repeat with a burst
/// sub-mode at high rates.
#[derive(Clone, Copy, Debug, PartialEq, Eq, Structural)]
pub enum ClickMode {
    Click,
    Hold,
    Humanized,
}

/// Which input primitive an emitted action represents.
#[derive(Clone, Copy, Debug, PartialEq, Eq, Structural)]
pub enum ClickType {
    LeftClick,
    RightClick,
    Space,
}

/// The persisted settings. `cps_tenths` is the Humanized-mode target rate in
/// tenths of a click per second; `normal_delay_ms` is the Click-mode fixed
/// delay in milliseconds.
#[derive(Debug, PartialEq, Eq)]
pub struct AppConfig {
    pub hotkey: Vec<Key>,
    pub click_mode: ClickMode,
    pub click_type: ClickType,
    pub normal_delay_ms: u64,
    pub cps_tenths: u64,
}

/// The mathematical value of an `AppConfig`.
pub ghost struct ConfigModel {
    pub hotkey: Seq<Key>,
    pub click_mode: ClickMode,
    pub click_type: ClickType,
    pub normal_delay_ms: u64,
    pub cps_tenths: u64,
}

impl View for AppConfig {
    type V = ConfigModel;

    open spec fn view(&self) -> ConfigModel {
        ConfigModel {
            hotkey: self.hotkey@,
            click_mode: self.click_mode,
            click_type: self.click_type,
            normal_delay_ms: self.normal_delay_ms,
            cps_tenths: self.cps_tenths,
        }
    }
}

/// The documented fallback settings: hotkey F6, Click mode, left clicks,
/// 1000 ms delay, 10 cps.
pub open spec fn default_config_model() -> ConfigModel {
    ConfigModel {
        hotkey: seq![Key::F6],
        click_mode: ClickMode::Click,
        click_type: ClickType::LeftClick,
        normal_delay_ms: 1000,
        cps_tenths: 100,
    }
}

/// A configuration is well formed when its hotkey has at least one member.
pub open spec fn config_wf(c: ConfigModel) -> bool {
    c.hotkey.len() >= 1
}

impl Default for AppConfig {
    fn default() -> (c: Self)
        ensures
            c@ == default_config_model(),
            config_wf(c@),
    {
        let c = AppConfig {
            hotkey: vec![Key::F6],
            click_mode: ClickMode::Click,
            click_type: ClickType::LeftClick,
            normal_delay_ms: 1000,
            cps_tenths: 100,
        };
        proof {
            assert(c@.hotkey =~= seq![Key::F6]);
            assert(c@ == default_config_model());
        }
        c
    }
}

} // verus!
