use pylade_clicker::config::{AppConfig, ClickMode, ClickType};
use pylade_clicker::json::{config_to_json, kind_name, mode_name, parse_config, u64_to_string};
use pylade_clicker::keys::Key;

#[test]
fn default_configuration_matches_documented_fallbacks() {
    let c = AppConfig::default();
    assert_eq!(c.hotkey, vec![Key::F6]);
    assert_eq!(c.click_mode, ClickMode::Click);
    assert_eq!(c.click_type, ClickType::LeftClick);
    assert_eq!(c.normal_delay_ms, 1000);
    assert_eq!(c.cps_tenths, 100);
}

#[test]
fn config_round_trip_preserves_every_field() {
    // Humanized mode, right clicks, 42.5 cps, hotkey F7.
    let c = AppConfig {
        hotkey: vec![Key::F7],
        click_mode: ClickMode::Humanized,
        click_type: ClickType::RightClick,
        normal_delay_ms: 1000,
        cps_tenths: 425,
    };
    let doc = config_to_json(&c);
    let back = parse_config(doc.as_str());
    assert_eq!(back, c);
}

#[test]
fn round_trip_holds_for_multi_key_and_each_mode() {
    for (mode, kind) in [
        (ClickMode::Click, ClickType::LeftClick),
        (ClickMode::Hold, ClickType::Space),
        (ClickMode::Humanized, ClickType::RightClick),
    ] {
        let c = AppConfig {
            hotkey: vec![Key::ControlLeft, Key::PageDown, Key::F12],
            click_mode: mode,
            click_type: kind,
            normal_delay_ms: 37,
            cps_tenths: 1000,
        };
        let doc = config_to_json(&c);
        assert_eq!(parse_config(doc.as_str()), c);
    }
}

#[test]
fn empty_and_garbage_documents_fall_back_to_defaults() {
    assert_eq!(parse_config(""), AppConfig::default());
    assert_eq!(parse_config("not json at all"), AppConfig::default());
    assert_eq!(parse_config("{\"wrong\":1}"), AppConfig::default());
    assert_eq!(parse_config("{"), AppConfig::default());
    assert_eq!(parse_config("[]"), AppConfig::default());
}

#[test]
fn truncated_document_falls_back_to_defaults() {
    let c = AppConfig::default();
    let doc = config_to_json(&c);
    let cut = &doc[..doc.len() - 1];
    assert_eq!(parse_config(cut), AppConfig::default());
}

#[test]
fn trailing_text_falls_back_to_defaults() {
    let c = AppConfig::default();
    let mut doc = config_to_json(&c);
    doc.push_str(" x");
    assert_eq!(parse_config(doc.as_str()), AppConfig::default());
}

#[test]
fn writer_emits_the_exact_document() {
    let doc = config_to_json(&AppConfig::default());
    assert_eq!(
        doc,
        "{\"hotkey\":[\"F6\"],\"click_mode\":\"Click\",\"click_type\":\"LeftClick\",\"normal_delay_ms\":1000,\"cps\":10.0}"
    );
}

#[test]
fn writer_output_is_valid_json_with_the_documented_fields() {
    let c = AppConfig {
        hotkey: vec![Key::F7, Key::Space],
        click_mode: ClickMode::Humanized,
        click_type: ClickType::RightClick,
        normal_delay_ms: 250,
        cps_tenths: 425,
    };
    let doc = config_to_json(&c);
    let v: serde_json::Value = serde_json::from_str(doc.as_str()).expect("valid JSON");
    assert_eq!(v["click_mode"].as_str(), Some("Humanized"));
    assert_eq!(v["click_type"].as_str(), Some("RightClick"));
    assert_eq!(v["normal_delay_ms"].as_u64(), Some(250));
    assert_eq!(v["cps"].as_f64(), Some(42.5));
    let hotkey: Vec<&str> = v["hotkey"]
        .as_array()
        .expect("array")
        .iter()
        .map(|e| e.as_str().expect("string"))
        .collect();
    assert_eq!(hotkey, vec!["F7", "Space"]);
}

#[test]
fn reader_accepts_whitespace_between_tokens() {
    let doc = "{\n  \"hotkey\": [ \"F7\" , \"Space\" ],\n  \"click_mode\": \"Hold\",\n  \"click_type\": \"Space\",\n  \"normal_delay_ms\": 42,\n  \"cps\": 7.5\n}\n";
    let c = parse_config(doc);
    assert_eq!(c.hotkey, vec![Key::F7, Key::Space]);
    assert_eq!(c.click_mode, ClickMode::Hold);
    assert_eq!(c.click_type, ClickType::Space);
    assert_eq!(c.normal_delay_ms, 42);
    assert_eq!(c.cps_tenths, 75);
}

#[test]
fn unknown_mode_and_kind_names_fall_back_without_discarding_the_rest() {
    let doc = "{\"hotkey\":[\"F7\"],\"click_mode\":\"Weird\",\"click_type\":\"Middle\",\"normal_delay_ms\":5,\"cps\":2.0}";
    let c = parse_config(doc);
    assert_eq!(c.click_mode, ClickMode::Click);
    assert_eq!(c.click_type, ClickType::LeftClick);
    assert_eq!(c.hotkey, vec![Key::F7]);
    assert_eq!(c.normal_delay_ms, 5);
    assert_eq!(c.cps_tenths, 20);
}

#[test]
fn unknown_key_names_are_dropped_and_an_empty_result_defaults_to_f6() {
    let doc = "{\"hotkey\":[\"F6\",\"NotAKey\"],\"click_mode\":\"Click\",\"click_type\":\"LeftClick\",\"normal_delay_ms\":1000,\"cps\":10.0}";
    assert_eq!(parse_config(doc).hotkey, vec![Key::F6]);
    let doc2 = "{\"hotkey\":[\"NotAKey\"],\"click_mode\":\"Click\",\"click_type\":\"LeftClick\",\"normal_delay_ms\":1000,\"cps\":10.0}";
    assert_eq!(parse_config(doc2).hotkey, vec![Key::F6]);
    let doc3 = "{\"hotkey\":[],\"click_mode\":\"Click\",\"click_type\":\"LeftClick\",\"normal_delay_ms\":1000,\"cps\":10.0}";
    assert_eq!(parse_config(doc3).hotkey, vec![Key::F6]);
}

#[test]
fn integer_rate_reads_as_whole_cps() {
    let doc = "{\"hotkey\":[\"F6\"],\"click_mode\":\"Click\",\"click_type\":\"LeftClick\",\"normal_delay_ms\":1000,\"cps\":42}";
    assert_eq!(parse_config(doc).cps_tenths, 420);
}

#[test]
fn extra_fraction_digits_beyond_tenths_are_ignored() {
    let doc = "{\"hotkey\":[\"F6\"],\"click_mode\":\"Click\",\"click_type\":\"LeftClick\",\"normal_delay_ms\":1000,\"cps\":42.59}";
    assert_eq!(parse_config(doc).cps_tenths, 425);
}

#[test]
fn absurdly_long_numbers_fall_back_to_defaults() {
    let doc = "{\"hotkey\":[\"F6\"],\"click_mode\":\"Click\",\"click_type\":\"LeftClick\",\"normal_delay_ms\":12345678901234567890,\"cps\":10.0}";
    assert_eq!(parse_config(doc), AppConfig::default());
}

#[test]
fn negative_rate_is_unparsable() {
    let doc = "{\"hotkey\":[\"F6\"],\"click_mode\":\"Click\",\"click_type\":\"LeftClick\",\"normal_delay_ms\":1000,\"cps\":-5.0}";
    assert_eq!(parse_config(doc), AppConfig::default());
}

#[test]
fn mode_and_kind_names_are_fixed() {
    assert_eq!(mode_name(ClickMode::Click), "Click");
    assert_eq!(mode_name(ClickMode::Hold), "Hold");
    assert_eq!(mode_name(ClickMode::Humanized), "Humanized");
    assert_eq!(kind_name(ClickType::LeftClick), "LeftClick");
    assert_eq!(kind_name(ClickType::RightClick), "RightClick");
    assert_eq!(kind_name(ClickType::Space), "Space");
}

#[test]
fn decimal_rendering_is_exact() {
    assert_eq!(u64_to_string(0), "0");
    assert_eq!(u64_to_string(7), "7");
    assert_eq!(u64_to_string(1000), "1000");
    assert_eq!(u64_to_string(18446744073709551615), "18446744073709551615");
}
