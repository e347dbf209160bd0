//! The persisted configuration document. The document is a small JSON
//! object; writing and reading it is this library's own logic, stated
//! character by character, so a saved configuration provably loads back.
//! An absent, malformed or oversized document falls back to the defaults.

use vstd::prelude::*;
use crate::config::{AppConfig, ClickMode, ClickType, ConfigModel, default_config_model};
use crate::keys::{Key, key_name, spec_key_name, spec_key_from_name, key_from_name};
use crate::target::str_eq;

verus! {

// ---------------------------------------------------------------------------
// Writing
// ---------------------------------------------------------------------------
/// The single decimal digit `d` as characters.
pub open spec fn spec_digit_char(d: int) -> Seq<char> {
    if d == 0 { "0"@ }
    else if d == 1 { "1"@ }
    else if d == 2 { "2"@ }
    else if d == 3 { "3"@ }
    else if d == 4 { "4"@ }
    else if d == 5 { "5"@ }
    else if d == 6 { "6"@ }
    else if d == 7 { "7"@ }
    else if d == 8 { "8"@ }
    else { "9"@ }
}

/// `n` in decimal, most significant digit first, no sign and no padding.
pub open spec fn spec_u64_str(n: int) -> Seq<char>
    decreases n,
{
    if n < 10 {
        spec_digit_char(n)
    } else {
        spec_u64_str(n / 10) + spec_digit_char(n % 10)
    }
}

/// A rate in tenths of a cps, written as a decimal with one fractional
/// digit: 425 tenths is written `42.5`, 100 tenths `10.0`.
pub open spec fn spec_cps_str(tenths: u64) -> Seq<char> {
    spec_u64_str(tenths as int / 10) + "."@ + spec_digit_char(tenths as int % 10)
}

/// The persisted name of a click mode.
pub open spec fn spec_mode_name(m: ClickMode) -> Seq<char> {
    match m {
        ClickMode::Click => "Click"@,
        ClickMode::Hold => "Hold"@,
        ClickMode::Humanized => "Humanized"@,
    }
}

/// The persisted name of an action kind.
pub open spec fn spec_kind_name(t: ClickType) -> Seq<char> {
    match t {
        ClickType::LeftClick => "LeftClick"@,
        ClickType::RightClick => "RightClick"@,
        ClickType::Space => "Space"@,
    }
}

/// The first `n` hotkey members as a comma-separated list of quoted names.
pub open spec fn spec_keys_json(keys: Seq<Key>, n: int) -> Seq<char>
    decreases n,
{
    if n <= 0 {
        Seq::empty()
    } else if n == 1 {
        "\""@ + spec_key_name(keys[0]) + "\""@
    } else {
        spec_keys_json(keys, n - 1) + ","@ + "\""@ + spec_key_name(keys[n - 1]) + "\""@
    }
}

/// The whole document: one JSON object holding the hotkey name list, the
/// mode and kind names, the fixed delay in milliseconds and the rate in cps.
pub open spec fn spec_config_json(c: ConfigModel) -> Seq<char> {
    "{\"hotkey\":["@ + spec_keys_json(c.hotkey, c.hotkey.len() as int) + "],\"click_mode\":\""@
        + spec_mode_name(c.click_mode) + "\",\"click_type\":\""@ + spec_kind_name(c.click_type)
        + "\",\"normal_delay_ms\":"@ + spec_u64_str(c.normal_delay_ms as int) + ",\"cps\":"@
        + spec_cps_str(c.cps_tenths) + "}"@
}

/// The digit `d` as text.
fn digit_str(d: u64) -> (r: &'static str)
    requires
        d < 10,
    ensures
        r@ == spec_digit_char(d as int),
{
    if d == 0 { "0" }
    else if d == 1 { "1" }
    else if d == 2 { "2" }
    else if d == 3 { "3" }
    else if d == 4 { "4" }
    else if d == 5 { "5" }
    else if d == 6 { "6" }
    else if d == 7 { "7" }
    else if d == 8 { "8" }
    else { "9" }
}

/// Renders `n` in decimal.
pub fn u64_to_string(n: u64) -> (r: String)
    ensures
        r@ == spec_u64_str(n as int),
    decreases n,
{
    if n < 10 {
        String::from_str(digit_str(n))
    } else {
        let mut s = u64_to_string(n / 10);
        s.append(digit_str(n % 10));
        s
    }
}

/// The name of a click mode.
pub fn mode_name(m: ClickMode) -> (r: &'static str)
    ensures
        r@ == spec_mode_name(m),
{
    match m {
        ClickMode::Click => "Click",
        ClickMode::Hold => "Hold",
        ClickMode::Humanized => "Humanized",
    }
}

/// The name of an action kind.
pub fn kind_name(t: ClickType) -> (r: &'static str)
    ensures
        r@ == spec_kind_name(t),
{
    match t {
        ClickType::LeftClick => "LeftClick",
        ClickType::RightClick => "RightClick",
        ClickType::Space => "Space",
    }
}

/// Writes a configuration as its document, exactly as [`spec_config_json`]
/// lays it out.
pub fn config_to_json(c: &AppConfig) -> (r: String)
    ensures
        r@ == spec_config_json(c@),
{
    let mut out = String::from_str("{\"hotkey\":[");
    let mut i: usize = 0;
    while i < c.hotkey.len()
        invariant
            0 <= i <= c.hotkey@.len(),
            out@ == "{\"hotkey\":["@ + spec_keys_json(c.hotkey@, i as int),
        decreases c.hotkey@.len() - i,
    {
        if i > 0 {
            out.append(",");
        }
        out.append("\"");
        out.append(key_name(c.hotkey[i]));
        out.append("\"");
        proof {
            assert(out@ =~= "{\"hotkey\":["@ + spec_keys_json(c.hotkey@, i + 1 as int));
        }
        i = i + 1;
    }
    out.append("],\"click_mode\":\"");
    out.append(mode_name(c.click_mode));
    out.append("\",\"click_type\":\"");
    out.append(kind_name(c.click_type));
    out.append("\",\"normal_delay_ms\":");
    let delay = u64_to_string(c.normal_delay_ms);
    out.append(delay.as_str());
    out.append(",\"cps\":");
    let whole = u64_to_string(c.cps_tenths / 10);
    out.append(whole.as_str());
    out.append(".");
    out.append(digit_str(c.cps_tenths % 10));
    out.append("}");
    proof {
        assert(out@ =~= spec_config_json(c@));
    }
    out
}

// ---------------------------------------------------------------------------
// Reading
// ---------------------------------------------------------------------------
/// The whitespace the reader steps over between tokens.
pub open spec fn spec_is_ws(c: char) -> bool {
    c == ' ' || c == '\n' || c == '\r' || c == '\t'
}

/// A decimal digit.
pub open spec fn spec_is_digit(c: char) -> bool {
    48 <= c as u32 <= 57
}

/// The value of a decimal digit.
pub open spec fn spec_digit_val(c: char) -> int {
    c as u32 - 48
}

/// The first position at or after `i` that does not hold whitespace.
pub open spec fn spec_skip_ws(s: Seq<char>, i: int) -> int
    decreases s.len() - i,
{
    if 0 <= i < s.len() && spec_is_ws(s[i]) {
        spec_skip_ws(s, i + 1)
    } else {
        i
    }
}

/// The position of the closing quote of a string whose content starts at
/// `i`, if the string is closed before an escape or the end of the document.
/// Escapes never occur in a document this library writes, so the reader
/// treats one as unparsable.
pub open spec fn spec_scan_string(s: Seq<char>, i: int) -> Option<int>
    decreases s.len() - i,
{
    if !(0 <= i < s.len()) {
        None
    } else if s[i] == '"' {
        Some(i)
    } else if s[i] == '\\' {
        None
    } else {
        spec_scan_string(s, i + 1)
    }
}

/// The quoted string at `i`: its content and the position after its closing
/// quote.
pub open spec fn spec_parse_string(s: Seq<char>, i: int) -> Option<(Seq<char>, int)> {
    if 0 <= i < s.len() && s[i] == '"' {
        match spec_scan_string(s, i + 1) {
            Some(j) => Some((s.subrange(i + 1, j), j + 1)),
            None => None,
        }
    } else {
        None
    }
}

/// The first position at or after `i` that does not hold a digit.
pub open spec fn spec_scan_digits(s: Seq<char>, i: int) -> int
    decreases s.len() - i,
{
    if 0 <= i < s.len() && spec_is_digit(s[i]) {
        spec_scan_digits(s, i + 1)
    } else {
        i
    }
}

/// The value of the digit run `s[i..j)`.
pub open spec fn spec_digits_value(s: Seq<char>, i: int, j: int) -> int
    decreases j - i,
{
    if j <= i {
        0
    } else {
        spec_digits_value(s, i, j - 1) * 10 + spec_digit_val(s[j - 1])
    }
}

/// Ten to the `n`.
pub open spec fn pow10(n: int) -> int
    decreases n,
{
    if n <= 0 {
        1
    } else {
        10 * pow10(n - 1)
    }
}

proof fn lemma_pow10_bounds()
    ensures
        pow10(15) == 1000000000000000,
        pow10(14) == 100000000000000,
{
    reveal_with_fuel(pow10, 16);
}

proof fn lemma_pow10_le(a: int, b: int)
    requires
        a <= b,
    ensures
        pow10(a) <= pow10(b),
    decreases b - a,
{
    if a < b {
        lemma_pow10_le(a, b - 1);
        lemma_pow10_pos(b - 1);
    }
}

proof fn lemma_pow10_pos(n: int)
    ensures
        pow10(n) >= 1,
    decreases n,
{
    if n > 0 {
        lemma_pow10_pos(n - 1);
    }
}

/// The digit run never comes past the start.
proof fn lemma_scan_digits_ge(s: Seq<char>, i: int)
    ensures
        spec_scan_digits(s, i) >= i,
    decreases s.len() - i,
{
    if 0 <= i < s.len() && spec_is_digit(s[i]) {
        lemma_scan_digits_ge(s, i + 1);
    }
}

/// The unsigned integer at `i`: its value and the position after its digits.
/// A run longer than fifteen digits — far past anything this document holds —
/// is unparsable, so the value always fits.
pub open spec fn spec_parse_u64(s: Seq<char>, i: int) -> Option<(u64, int)> {
    let j = spec_scan_digits(s, i);
    if j == i || j - i > 15 {
        None
    } else {
        Some((spec_digits_value(s, i, j) as u64, j))
    }
}

/// The rate at `i`, in tenths: an integer with an optional fraction, of
/// which the first digit is kept and the rest only checked. `42.5` is 425
/// tenths, `42` is 420.
pub open spec fn spec_parse_cps(s: Seq<char>, i: int) -> Option<(u64, int)> {
    match spec_parse_u64(s, i) {
        None => None,
        Some((whole, j)) => if 0 <= j < s.len() && s[j] == '.' {
            let k = spec_scan_digits(s, j + 1);
            if k == j + 1 {
                None
            } else {
                Some(((whole * 10 + spec_digit_val(s[j + 1])) as u64, k))
            }
        } else {
            Some(((whole * 10) as u64, j))
        },
    }
}

/// Past any whitespace, the position after the expected character.
pub open spec fn spec_expect_char(s: Seq<char>, i: int, c: char) -> Option<int> {
    let j = spec_skip_ws(s, i);
    if 0 <= j < s.len() && s[j] == c {
        Some(j + 1)
    } else {
        None
    }
}

/// Past any whitespace, the position after a quoted field name and its
/// colon.
pub open spec fn spec_expect_field(s: Seq<char>, i: int, name: Seq<char>) -> Option<int> {
    match spec_parse_string(s, spec_skip_ws(s, i)) {
        None => None,
        Some((content, j)) => if content == name {
            spec_expect_char(s, j, ':')
        } else {
            None
        },
    }
}

/// The members of a non-empty hotkey list, from the first quoted name up to
/// the closing bracket. Names that stand for no key are dropped, as a saved
/// file from elsewhere may hold them. `fuel` bounds the member count; the
/// document reader allows 64, far past any usable combination.
pub open spec fn spec_parse_keys_from(s: Seq<char>, i: int, fuel: int) -> Option<
    (Seq<Key>, int),
>
    decreases fuel,
{
    if fuel <= 0 {
        None
    } else {
        match spec_parse_string(s, spec_skip_ws(s, i)) {
            None => None,
            Some((content, j2)) => {
                let keys0 = match spec_key_from_name(content) {
                    Some(k) => seq![k],
                    None => Seq::<Key>::empty(),
                };
                let j3 = spec_skip_ws(s, j2);
                if 0 <= j3 < s.len() && s[j3] == ',' {
                    match spec_parse_keys_from(s, j3 + 1, fuel - 1) {
                        None => None,
                        Some((rest, j4)) => Some((keys0 + rest, j4)),
                    }
                } else if 0 <= j3 < s.len() && s[j3] == ']' {
                    Some((keys0, j3 + 1))
                } else {
                    None
                }
            },
        }
    }
}

/// The hotkey list at `i`, brackets included.
pub open spec fn spec_parse_key_array(s: Seq<char>, i: int) -> Option<(Seq<Key>, int)> {
    if 0 <= i < s.len() && s[i] == '[' {
        let j = spec_skip_ws(s, i + 1);
        if 0 <= j < s.len() && s[j] == ']' {
            Some((Seq::<Key>::empty(), j + 1))
        } else {
            spec_parse_keys_from(s, i + 1, 64)
        }
    } else {
        None
    }
}

/// The mode a saved name stands for; an unknown name falls back to `Click`.
pub open spec fn spec_mode_from_name(name: Seq<char>) -> ClickMode {
    if name == "Hold"@ {
        ClickMode::Hold
    } else if name == "Humanized"@ {
        ClickMode::Humanized
    } else {
        ClickMode::Click
    }
}

/// The action kind a saved name stands for; an unknown name falls back to
/// `LeftClick`.
pub open spec fn spec_kind_from_name(name: Seq<char>) -> ClickType {
    if name == "RightClick"@ {
        ClickType::RightClick
    } else if name == "Space"@ {
        ClickType::Space
    } else {
        ClickType::LeftClick
    }
}

/// The whole document, when it is one object holding the five fields in the
/// order this library writes them, with any whitespace between tokens.
pub open spec fn spec_parse_document(s: Seq<char>) -> Option<
    (Seq<Key>, ClickMode, ClickType, u64, u64),
> {
    match spec_expect_char(s, 0, '{') {
        None => None,
        Some(i0) => match spec_expect_field(s, i0, "hotkey"@) {
            None => None,
            Some(i1) => match spec_parse_key_array(s, spec_skip_ws(s, i1)) {
                None => None,
                Some((keys, i2)) => match spec_expect_char(s, i2, ',') {
                    None => None,
                    Some(i3) => match spec_expect_field(s, i3, "click_mode"@) {
                        None => None,
                        Some(i4) => match spec_parse_string(s, spec_skip_ws(s, i4)) {
                            None => None,
                            Some((mode_s, i5)) => match spec_expect_char(s, i5, ',') {
                                None => None,
                                Some(i6) => match spec_expect_field(s, i6, "click_type"@) {
                                    None => None,
                                    Some(i7) => match spec_parse_string(s, spec_skip_ws(s, i7)) {
                                        None => None,
                                        Some((kind_s, i8)) => spec_parse_document_tail(
                                            s,
                                            keys,
                                            spec_mode_from_name(mode_s),
                                            spec_kind_from_name(kind_s),
                                            i8,
                                        ),
                                    },
                                },
                            },
                        },
                    },
                },
            },
        },
    }
}

/// The document's two numeric fields and closing brace, after the kind name.
pub open spec fn spec_parse_document_tail(
    s: Seq<char>,
    keys: Seq<Key>,
    mode: ClickMode,
    kind: ClickType,
    i8: int,
) -> Option<(Seq<Key>, ClickMode, ClickType, u64, u64)> {
    match spec_expect_char(s, i8, ',') {
        None => None,
        Some(i9) => match spec_expect_field(s, i9, "normal_delay_ms"@) {
            None => None,
            Some(i10) => match spec_parse_u64(s, spec_skip_ws(s, i10)) {
                None => None,
                Some((delay, i11)) => match spec_expect_char(s, i11, ',') {
                    None => None,
                    Some(i12) => match spec_expect_field(s, i12, "cps"@) {
                        None => None,
                        Some(i13) => match spec_parse_cps(s, spec_skip_ws(s, i13)) {
                            None => None,
                            Some((cps, i14)) => match spec_expect_char(s, i14, '}') {
                                None => None,
                                Some(i15) => if spec_skip_ws(s, i15) == s.len() {
                                    Some((keys, mode, kind, delay, cps))
                                } else {
                                    None
                                },
                            },
                        },
                    },
                },
            },
        },
    }
}

/// What a saved document means: the configuration it holds, with an empty
/// or fully dropped hotkey list replaced by the default key, or the default
/// configuration when the document is unparsable.
pub open spec fn spec_parse_config(s: Seq<char>) -> ConfigModel {
    match spec_parse_document(s) {
        None => default_config_model(),
        Some((keys, mode, kind, delay, cps)) => ConfigModel {
            hotkey: if keys.len() == 0 {
                seq![Key::F6]
            } else {
                keys
            },
            click_mode: mode,
            click_type: kind,
            normal_delay_ms: delay,
            cps_tenths: cps,
        },
    }
}

proof fn lemma_digit_char_facts(d: int)
    requires
        0 <= d <= 9,
    ensures
        spec_digit_char(d).len() == 1,
        spec_is_digit(spec_digit_char(d)[0]),
        spec_digit_val(spec_digit_char(d)[0]) == d,
{
    reveal_strlit("0");
    reveal_strlit("1");
    reveal_strlit("2");
    reveal_strlit("3");
    reveal_strlit("4");
    reveal_strlit("5");
    reveal_strlit("6");
    reveal_strlit("7");
    reveal_strlit("8");
    reveal_strlit("9");
    assert("0"@.len() == 1 && "0"@[0] == '0');
    assert("1"@.len() == 1 && "1"@[0] == '1');
    assert("2"@.len() == 1 && "2"@[0] == '2');
    assert("3"@.len() == 1 && "3"@[0] == '3');
    assert("4"@.len() == 1 && "4"@[0] == '4');
    assert("5"@.len() == 1 && "5"@[0] == '5');
    assert("6"@.len() == 1 && "6"@[0] == '6');
    assert("7"@.len() == 1 && "7"@[0] == '7');
    assert("8"@.len() == 1 && "8"@[0] == '8');
    assert("9"@.len() == 1 && "9"@[0] == '9');
}

proof fn lemma_u64_str_digits(n: int)
    requires
        0 <= n,
    ensures
        spec_u64_str(n).len() >= 1,
        forall|k: int| 0 <= k < spec_u64_str(n).len() ==> spec_is_digit(#[trigger] spec_u64_str(n)[k]),
    decreases n,
{
    if n < 10 {
        lemma_digit_char_facts(n);
    } else {
        lemma_u64_str_digits(n / 10);
        lemma_digit_char_facts(n % 10);
    }
}

proof fn lemma_u64_str_len_le(n: int, m: int)
    requires
        0 <= n,
        1 <= m,
        n < pow10(m),
    ensures
        spec_u64_str(n).len() <= m,
    decreases n,
{
    if n < 10 {
        lemma_digit_char_facts(n);
    } else {
        if m == 1 {
            reveal_with_fuel(pow10, 2);
            assert(false);
        }
        assert(n / 10 < pow10(m - 1)) by (nonlinear_arith)
            requires
                0 <= n,
                n < pow10(m),
                pow10(m) == 10 * pow10(m - 1),
        ;
        lemma_u64_str_len_le(n / 10, m - 1);
        lemma_digit_char_facts(n % 10);
    }
}

proof fn lemma_digits_value_of(s: Seq<char>, i: int, n: int)
    requires
        0 <= n,
        0 <= i,
        i + spec_u64_str(n).len() <= s.len(),
        forall|k: int|
            0 <= k < spec_u64_str(n).len() ==> s[i + k] == #[trigger] spec_u64_str(n)[k],
    ensures
        spec_digits_value(s, i, i + spec_u64_str(n).len()) == n,
    decreases n,
{
    if n < 10 {
        lemma_digit_char_facts(n);
        assert(s[i] == spec_u64_str(n)[0]);
        assert(spec_digits_value(s, i, i + 1) == spec_digits_value(s, i, i) * 10
            + spec_digit_val(s[i]));
    } else {
        lemma_digit_char_facts(n % 10);
        let prefix_len = spec_u64_str(n / 10).len() as int;
        assert(spec_u64_str(n).len() == prefix_len + 1);
        assert(forall|k: int|
            0 <= k < prefix_len ==> #[trigger] spec_u64_str(n / 10)[k] == spec_u64_str(n)[k]);
        lemma_digits_value_of(s, i, n / 10);
        assert(s[i + prefix_len] == spec_u64_str(n)[prefix_len]);
        assert(spec_u64_str(n)[prefix_len] == spec_digit_char(n % 10)[0]);
        assert(spec_digits_value(s, i, i + prefix_len + 1) == spec_digits_value(
            s,
            i,
            i + prefix_len,
        ) * 10 + spec_digit_val(s[i + prefix_len]));
    }
}

proof fn lemma_scan_digits_run(s: Seq<char>, i: int, j: int)
    requires
        0 <= i <= j <= s.len(),
        forall|k: int| i <= k < j ==> spec_is_digit(#[trigger] s[k]),
        j == s.len() || !spec_is_digit(s[j]),
    ensures
        spec_scan_digits(s, i) == j,
    decreases j - i,
{
    if i < j {
        lemma_scan_digits_run(s, i + 1, j);
    }
}

/// A written number reads back as itself: the decimal the writer lays down
/// for `n` is exactly what the reader finds there.
proof fn lemma_parse_u64_reads_back(s: Seq<char>, i: int, n: u64)
    requires
        n <= 999999999999999,
        0 <= i,
        i + spec_u64_str(n as int).len() <= s.len(),
        forall|k: int|
            0 <= k < spec_u64_str(n as int).len() ==> s[i + k] == #[trigger] spec_u64_str(
                n as int,
            )[k],
        i + spec_u64_str(n as int).len() == s.len() || !spec_is_digit(
            s[i + spec_u64_str(n as int).len()],
        ),
    ensures
        spec_parse_u64(s, i) == Some((n, i + spec_u64_str(n as int).len())),
{
    let run = spec_u64_str(n as int).len() as int;
    lemma_u64_str_digits(n as int);
    assert forall|k: int| i <= k < i + run implies spec_is_digit(#[trigger] s[k]) by {
        assert(s[k] == spec_u64_str(n as int)[k - i]);
    }
    lemma_scan_digits_run(s, i, i + run);
    lemma_pow10_bounds();
    lemma_u64_str_len_le(n as int, 15);
    lemma_digits_value_of(s, i, n as int);
}

proof fn lemma_scan_string_clear(s: Seq<char>, from: int, to: int)
    requires
        0 <= from <= to < s.len(),
        s[to] == '"',
        forall|k: int| from <= k < to ==> s[k] != '"' && #[trigger] s[k] != '\\',
    ensures
        spec_scan_string(s, from) == Some(to),
    decreases to - from,
{
    if from < to {
        lemma_scan_string_clear(s, from + 1, to);
    }
}

/// A written quoted string reads back as its content, when the content
/// holds no quote and no backslash.
proof fn lemma_parse_string_reads_back(s: Seq<char>, i: int, content: Seq<char>)
    requires
        0 <= i,
        i + content.len() + 2 <= s.len(),
        s[i] == '"',
        s[i + content.len() + 1] == '"',
        forall|k: int| 0 <= k < content.len() ==> s[i + 1 + k] == #[trigger] content[k],
        forall|k: int| 0 <= k < content.len() ==> content[k] != '"' && #[trigger] content[k]
            != '\\',
    ensures
        spec_parse_string(s, i) == Some((content, i + content.len() + 2)),
{
    let close = i + content.len() + 1;
    assert forall|k: int| i + 1 <= k < close implies s[k] != '"' && #[trigger] s[k] != '\\' by {
        assert(s[k] == content[k - i - 1]);
    }
    lemma_scan_string_clear(s, i + 1, close);
    assert(s.subrange(i + 1, close) =~= content);
}

/// The content of a written quoted string: no quote, no escape.
spec fn no_quotes(s: Seq<char>) -> bool {
    forall|j: int| 0 <= j < s.len() ==> #[trigger] s[j] != '"' && s[j] != '\\'
}

proof fn lemma_key_name_clean(k: Key)
    ensures
        spec_key_name(k).len() >= 1,
        no_quotes(spec_key_name(k)),
{
    reveal_strlit("F1");
    reveal_strlit("F2");
    reveal_strlit("F3");
    reveal_strlit("F4");
    reveal_strlit("F5");
    reveal_strlit("F6");
    reveal_strlit("F7");
    reveal_strlit("F8");
    reveal_strlit("F9");
    reveal_strlit("F10");
    reveal_strlit("F11");
    reveal_strlit("F12");
    reveal_strlit("Home");
    reveal_strlit("End");
    reveal_strlit("PageUp");
    reveal_strlit("PageDown");
    reveal_strlit("Insert");
    reveal_strlit("Delete");
    reveal_strlit("Up");
    reveal_strlit("Down");
    reveal_strlit("Left");
    reveal_strlit("Right");
    reveal_strlit("Space");
    reveal_strlit("Enter");
    reveal_strlit("Escape");
    reveal_strlit("Tab");
    reveal_strlit("Backspace");
    reveal_strlit("CapsLock");
    reveal_strlit("LeftShift");
    reveal_strlit("RightShift");
    reveal_strlit("LeftCtrl");
    reveal_strlit("RightCtrl");
    reveal_strlit("Alt");
    reveal_strlit("AltGr");
    assert(no_quotes("F1"@));
    assert(no_quotes("F2"@));
    assert(no_quotes("F3"@));
    assert(no_quotes("F4"@));
    assert(no_quotes("F5"@));
    assert(no_quotes("F6"@));
    assert(no_quotes("F7"@));
    assert(no_quotes("F8"@));
    assert(no_quotes("F9"@));
    assert(no_quotes("F10"@));
    assert(no_quotes("F11"@));
    assert(no_quotes("F12"@));
    assert(no_quotes("Home"@));
    assert(no_quotes("End"@));
    assert(no_quotes("PageUp"@));
    assert(no_quotes("PageDown"@));
    assert(no_quotes("Insert"@));
    assert(no_quotes("Delete"@));
    assert(no_quotes("Up"@));
    assert(no_quotes("Down"@));
    assert(no_quotes("Left"@));
    assert(no_quotes("Right"@));
    assert(no_quotes("Space"@));
    assert(no_quotes("Enter"@));
    assert(no_quotes("Escape"@));
    assert(no_quotes("Tab"@));
    assert(no_quotes("Backspace"@));
    assert(no_quotes("CapsLock"@));
    assert(no_quotes("LeftShift"@));
    assert(no_quotes("RightShift"@));
    assert(no_quotes("LeftCtrl"@));
    assert(no_quotes("RightCtrl"@));
    assert(no_quotes("Alt"@));
    assert(no_quotes("AltGr"@));
}

proof fn lemma_mode_name_clean(m: ClickMode)
    ensures
        no_quotes(spec_mode_name(m)),
{
    reveal_strlit("Click");
    reveal_strlit("Hold");
    reveal_strlit("Humanized");
    assert(no_quotes("Click"@));
    assert(no_quotes("Hold"@));
    assert(no_quotes("Humanized"@));
}

proof fn lemma_kind_name_clean(t: ClickType)
    ensures
        no_quotes(spec_kind_name(t)),
{
    reveal_strlit("LeftClick");
    reveal_strlit("RightClick");
    reveal_strlit("Space");
    assert(no_quotes("LeftClick"@));
    assert(no_quotes("RightClick"@));
    assert(no_quotes("Space"@));
}

proof fn lemma_keys_json_first(keys: Seq<Key>, n: int)
    requires
        1 <= n <= keys.len(),
    ensures
        spec_keys_json(keys, n).len() >= 2,
        spec_keys_json(keys, n)[0] == '"',
    decreases n,
{
    reveal_strlit("\"");
    assert("\""@.len() == 1 && "\""@[0] == '"');
    if n == 1 {
        lemma_key_name_clean(keys[0]);
    } else {
        lemma_keys_json_first(keys, n - 1);
    }
}

proof fn lemma_keys_json_left(keys: Seq<Key>, n: int)
    requires
        2 <= n <= keys.len(),
    ensures
        spec_keys_json(keys, n) == "\""@ + spec_key_name(keys[0]) + "\""@ + ","@
            + spec_keys_json(keys.drop_first(), n - 1),
    decreases n,
{
    if n == 2 {
        assert(keys.drop_first()[0] == keys[1]);
        assert(spec_keys_json(keys, 1) == "\""@ + spec_key_name(keys[0]) + "\""@);
        assert(spec_keys_json(keys.drop_first(), 1) == "\""@ + spec_key_name(
            keys.drop_first()[0],
        ) + "\""@);
        assert(spec_keys_json(keys, 2) == spec_keys_json(keys, 1) + ","@ + "\""@
            + spec_key_name(keys[1]) + "\""@);
        assert(spec_keys_json(keys, 2) =~= "\""@ + spec_key_name(keys[0]) + "\""@ + ","@
            + spec_keys_json(keys.drop_first(), 1));
    } else {
        lemma_keys_json_left(keys, n - 1);
        assert(keys.drop_first()[n - 2] == keys[n - 1]);
        assert(spec_keys_json(keys.drop_first(), n - 1) == spec_keys_json(
            keys.drop_first(),
            n - 2,
        ) + ","@ + "\""@ + spec_key_name(keys.drop_first()[n - 2]) + "\""@);
        assert(spec_keys_json(keys, n) =~= "\""@ + spec_key_name(keys[0]) + "\""@ + ","@
            + spec_keys_json(keys.drop_first(), n - 1));
    }
}

/// A written hotkey list reads back as the same members in the same order.
proof fn lemma_parse_keys_reads_back(s: Seq<char>, i: int, keys: Seq<Key>, fuel: int)
    requires
        1 <= keys.len(),
        keys.len() <= fuel,
        0 <= i,
        i + spec_keys_json(keys, keys.len() as int).len() + 1 <= s.len(),
        forall|k: int|
            0 <= k < spec_keys_json(keys, keys.len() as int).len() ==> s[i + k]
                == #[trigger] spec_keys_json(keys, keys.len() as int)[k],
        s[i + spec_keys_json(keys, keys.len() as int).len()] == ']',
    ensures
        spec_parse_keys_from(s, i, fuel) == Some(
            (keys, i + spec_keys_json(keys, keys.len() as int).len() + 1),
        ),
    decreases keys.len(),
{
    reveal_strlit("\"");
    reveal_strlit(",");
    assert("\""@.len() == 1 && "\""@[0] == '"');
    assert(","@.len() == 1 && ","@[0] == ',');
    let kj = spec_keys_json(keys, keys.len() as int);
    let name0 = spec_key_name(keys[0]);
    let l0 = name0.len() as int;
    lemma_key_name_clean(keys[0]);
    crate::keys::lemma_key_name_round_trip(keys[0]);
    let q0 = "\""@ + name0 + "\""@;
    if keys.len() == 1 {
        assert(kj == q0);
    } else {
        lemma_keys_json_left(keys, keys.len() as int);
        assert(kj == q0 + ","@ + spec_keys_json(keys.drop_first(), keys.len() - 1));
    }
    assert(s[i] == kj[0]);
    assert(kj[0] == '"');
    assert(spec_skip_ws(s, i) == i);
    assert forall|k: int| 0 <= k < l0 implies s[i + 1 + k] == #[trigger] name0[k] by {
        assert(s[i + 1 + k] == kj[1 + k]);
        assert(kj[1 + k] == q0[1 + k]);
        assert(q0[1 + k] == name0[k]);
    }
    assert(s[i + 1 + l0] == kj[1 + l0]);
    assert(kj[1 + l0] == q0[1 + l0]);
    assert(q0[1 + l0] == '"');
    lemma_parse_string_reads_back(s, i, name0);
    let j2 = i + l0 + 2;
    if keys.len() == 1 {
        assert(s[j2] == ']');
        assert(spec_skip_ws(s, j2) == j2);
        assert(spec_parse_keys_from(s, i, fuel) == Some((seq![keys[0]], j2 + 1)));
        assert(seq![keys[0]] =~= keys);
    } else {
        let rest = keys.drop_first();
        let kj2 = spec_keys_json(rest, rest.len() as int);
        assert(rest.len() == keys.len() - 1);
        assert(kj == q0 + ","@ + kj2);
        assert(kj.len() == l0 + 3 + kj2.len());
        assert(s[j2] == kj[l0 + 2]);
        assert(kj[l0 + 2] == ',');
        assert(spec_skip_ws(s, j2) == j2);
        let i2 = j2 + 1;
        assert forall|k: int| 0 <= k < kj2.len() implies s[i2 + k] == #[trigger] kj2[k] by {
            assert(s[i2 + k] == kj[l0 + 3 + k]);
            assert(kj[l0 + 3 + k] == kj2[k]);
        }
        assert(s[i2 + kj2.len()] == s[i + kj.len()]);
        lemma_parse_keys_reads_back(s, i2, rest, fuel - 1);
        assert(spec_parse_keys_from(s, i2, fuel - 1) == Some((rest, i2 + kj2.len() + 1)));
        assert(seq![keys[0]] + rest =~= keys);
        assert(i2 + kj2.len() + 1 == i + kj.len() + 1);
    }
}

/// The mode table is bidirectional: every mode's saved name reads back as
/// that mode.
pub proof fn lemma_mode_name_round_trip(m: ClickMode)
    ensures
        spec_mode_from_name(spec_mode_name(m)) == m,
{
    reveal_strlit("Click");
    reveal_strlit("Hold");
    reveal_strlit("Humanized");
    assert("Click"@.len() == 5 && "Hold"@.len() == 4 && "Humanized"@.len() == 9);
}

/// The kind table is bidirectional: every kind's saved name reads back as
/// that kind.
pub proof fn lemma_kind_name_round_trip(t: ClickType)
    ensures
        spec_kind_from_name(spec_kind_name(t)) == t,
{
    reveal_strlit("LeftClick");
    reveal_strlit("RightClick");
    reveal_strlit("Space");
    assert("LeftClick"@.len() == 9 && "RightClick"@.len() == 10 && "Space"@.len() == 5);
}

// Offsets of the document's parts, named so the round-trip proof can be
// carried field by field.
spec fn off_l2(c: ConfigModel) -> int {
    11 + spec_keys_json(c.hotkey, c.hotkey.len() as int).len() as int
}

spec fn off_l3(c: ConfigModel) -> int {
    off_l2(c) + 16 + spec_mode_name(c.click_mode).len() as int
}

spec fn off_l4(c: ConfigModel) -> int {
    off_l3(c) + 16 + spec_kind_name(c.click_type).len() as int
}

spec fn off_d(c: ConfigModel) -> int {
    off_l4(c) + 20
}

spec fn off_l5(c: ConfigModel) -> int {
    off_d(c) + spec_u64_str(c.normal_delay_ms as int).len() as int
}

spec fn off_w(c: ConfigModel) -> int {
    off_l5(c) + 7
}

spec fn off_dot(c: ConfigModel) -> int {
    off_w(c) + spec_u64_str(c.cps_tenths as int / 10).len() as int
}

spec fn off_end(c: ConfigModel) -> int {
    off_dot(c) + 2
}

proof fn lemma_doc_shape(c: ConfigModel)
    ensures
        spec_config_json(c) == "{\"hotkey\":["@ + spec_keys_json(c.hotkey, c.hotkey.len() as int)
            + "],\"click_mode\":\""@ + spec_mode_name(c.click_mode) + "\",\"click_type\":\""@
            + spec_kind_name(c.click_type) + "\",\"normal_delay_ms\":"@ + spec_u64_str(
            c.normal_delay_ms as int,
        ) + ",\"cps\":"@ + (spec_u64_str(c.cps_tenths as int / 10) + "."@ + spec_digit_char(
            c.cps_tenths as int % 10,
        )) + "}"@,
        "{\"hotkey\":["@.len() == 11,
        "],\"click_mode\":\""@.len() == 16,
        "\",\"click_type\":\""@.len() == 16,
        "\",\"normal_delay_ms\":"@.len() == 20,
        ",\"cps\":"@.len() == 7,
        "}"@.len() == 1,
        "."@.len() == 1,
        spec_config_json(c).len() == off_end(c) + 1,
{
    reveal_strlit("{\"hotkey\":[");
    reveal_strlit("],\"click_mode\":\"");
    reveal_strlit("\",\"click_type\":\"");
    reveal_strlit("\",\"normal_delay_ms\":");
    reveal_strlit(",\"cps\":");
    reveal_strlit("}");
    reveal_strlit(".");
    assert(spec_config_json(c).len() == 11 + spec_keys_json(
        c.hotkey,
        c.hotkey.len() as int,
    ).len() + 16 + spec_mode_name(c.click_mode).len() + 16 + spec_kind_name(
        c.click_type,
    ).len() + 20 + spec_u64_str(c.normal_delay_ms as int).len() + 7 + spec_u64_str(
        c.cps_tenths as int / 10,
    ).len() + 1 + spec_digit_char(c.cps_tenths as int % 10).len() + 1);
    lemma_digit_char_facts(c.cps_tenths as int % 10);
    assert(off_end(c) == off_dot(c) + 2);
    assert(off_dot(c) == off_w(c) + spec_u64_str(c.cps_tenths as int / 10).len() as int);
}

#[verifier::spinoff_prover]
#[verifier::rlimit(60)]
proof fn lemma_round_trip_keys(c: ConfigModel)
    requires
        crate::config::config_wf(c),
        c.hotkey.len() <= 64,
    ensures
        spec_expect_char(spec_config_json(c), 0, '{') == Some(1int),
        spec_expect_field(spec_config_json(c), 1, "hotkey"@) == Some(10int),
        spec_skip_ws(spec_config_json(c), 10) == 10,
        spec_parse_key_array(spec_config_json(c), 10) == Some((c.hotkey, off_l2(c) + 1)),
{
    let s = spec_config_json(c);
    let l1 = "{\"hotkey\":["@;
    let kj = spec_keys_json(c.hotkey, c.hotkey.len() as int);
    let l2 = "],\"click_mode\":\""@;
    lemma_doc_shape(c);
    reveal_strlit("{\"hotkey\":[");
    reveal_strlit("],\"click_mode\":\"");
    reveal_strlit("hotkey");
    lemma_keys_json_first(c.hotkey, c.hotkey.len() as int);
    assert forall|k: int| 0 <= k < 11 implies s[k] == #[trigger] l1[k] by {}
    assert forall|k: int| 0 <= k < kj.len() implies s[11 + k] == #[trigger] kj[k] by {}
    assert(s[off_l2(c)] == l2[0]);
    assert(s[0] == '{');
    assert(spec_skip_ws(s, 0) == 0);
    assert(spec_expect_char(s, 0, '{') == Some(1int));
    assert(no_quotes("hotkey"@));
    assert(s[1] == '"');
    assert(spec_skip_ws(s, 1) == 1);
    assert forall|k: int| 0 <= k < 6 implies s[2 + k] == #[trigger] "hotkey"@[k] by {
        assert(s[2 + k] == l1[2 + k]);
    }
    assert(s[8] == '"');
    lemma_parse_string_reads_back(s, 1, "hotkey"@);
    assert(s[9] == ':');
    assert(spec_skip_ws(s, 9) == 9);
    assert(spec_expect_field(s, 1, "hotkey"@) == Some(10int));
    assert(s[10] == '[');
    assert(spec_skip_ws(s, 10) == 10);
    assert(s[11] == kj[0]);
    assert(kj[0] == '"');
    assert(spec_skip_ws(s, 11) == 11);
    assert(l2[0] == ']');
    lemma_parse_keys_reads_back(s, 11, c.hotkey, 64);
    assert(spec_parse_key_array(s, 10) == Some((c.hotkey, off_l2(c) + 1)));
}

#[verifier::spinoff_prover]
#[verifier::rlimit(60)]
proof fn lemma_round_trip_mode(c: ConfigModel)
    ensures
        spec_expect_char(spec_config_json(c), off_l2(c) + 1, ',') == Some(off_l2(c) + 2),
        spec_expect_field(spec_config_json(c), off_l2(c) + 2, "click_mode"@) == Some(
            off_l2(c) + 15,
        ),
        spec_skip_ws(spec_config_json(c), off_l2(c) + 15) == off_l2(c) + 15,
        spec_parse_string(spec_config_json(c), off_l2(c) + 15) == Some(
            (spec_mode_name(c.click_mode), off_l3(c) + 1),
        ),
{
    let s = spec_config_json(c);
    let l2 = "],\"click_mode\":\""@;
    let m = spec_mode_name(c.click_mode);
    let l3 = "\",\"click_type\":\""@;
    let o_l2 = off_l2(c);
    let o_m = o_l2 + 16;
    lemma_doc_shape(c);
    reveal_strlit("],\"click_mode\":\"");
    reveal_strlit("\",\"click_type\":\"");
    reveal_strlit("click_mode");
    lemma_mode_name_clean(c.click_mode);
    assert forall|k: int| 0 <= k < 16 implies s[o_l2 + k] == #[trigger] l2[k] by {}
    assert forall|k: int| 0 <= k < m.len() implies s[o_m + k] == #[trigger] m[k] by {}
    assert(s[o_m + m.len()] == l3[0]);
    assert(s[o_l2 + 1] == ',');
    assert(spec_skip_ws(s, o_l2 + 1) == o_l2 + 1);
    assert(spec_expect_char(s, o_l2 + 1, ',') == Some(o_l2 + 2));
    assert(no_quotes("click_mode"@));
    assert(s[o_l2 + 2] == '"');
    assert(spec_skip_ws(s, o_l2 + 2) == o_l2 + 2);
    assert forall|k: int| 0 <= k < 10 implies s[o_l2 + 3 + k] == #[trigger] "click_mode"@[k] by {
        assert(s[o_l2 + 3 + k] == l2[3 + k]);
    }
    assert(s[o_l2 + 13] == '"');
    lemma_parse_string_reads_back(s, o_l2 + 2, "click_mode"@);
    assert(s[o_l2 + 14] == ':');
    assert(spec_skip_ws(s, o_l2 + 14) == o_l2 + 14);
    assert(spec_expect_field(s, o_l2 + 2, "click_mode"@) == Some(o_l2 + 15));
    assert(s[o_l2 + 15] == '"');
    assert(spec_skip_ws(s, o_l2 + 15) == o_l2 + 15);
    assert(l3[0] == '"');
    lemma_parse_string_reads_back(s, o_l2 + 15, m);
    assert(spec_parse_string(s, o_l2 + 15) == Some((m, off_l3(c) + 1)));
}

#[verifier::spinoff_prover]
#[verifier::rlimit(60)]
proof fn lemma_round_trip_kind(c: ConfigModel)
    ensures
        spec_expect_char(spec_config_json(c), off_l3(c) + 1, ',') == Some(off_l3(c) + 2),
        spec_expect_field(spec_config_json(c), off_l3(c) + 2, "click_type"@) == Some(
            off_l3(c) + 15,
        ),
        spec_skip_ws(spec_config_json(c), off_l3(c) + 15) == off_l3(c) + 15,
        spec_parse_string(spec_config_json(c), off_l3(c) + 15) == Some(
            (spec_kind_name(c.click_type), off_l4(c) + 1),
        ),
{
    let s = spec_config_json(c);
    let l3 = "\",\"click_type\":\""@;
    let t = spec_kind_name(c.click_type);
    let l4 = "\",\"normal_delay_ms\":"@;
    let o_l3 = off_l3(c);
    let o_t = o_l3 + 16;
    lemma_doc_shape(c);
    reveal_strlit("\",\"click_type\":\"");
    reveal_strlit("\",\"normal_delay_ms\":");
    reveal_strlit("click_type");
    lemma_kind_name_clean(c.click_type);
    assert forall|k: int| 0 <= k < 16 implies s[o_l3 + k] == #[trigger] l3[k] by {}
    assert forall|k: int| 0 <= k < t.len() implies s[o_t + k] == #[trigger] t[k] by {}
    assert(s[o_t + t.len()] == l4[0]);
    assert(s[o_l3 + 1] == ',');
    assert(spec_skip_ws(s, o_l3 + 1) == o_l3 + 1);
    assert(spec_expect_char(s, o_l3 + 1, ',') == Some(o_l3 + 2));
    assert(no_quotes("click_type"@));
    assert(s[o_l3 + 2] == '"');
    assert(spec_skip_ws(s, o_l3 + 2) == o_l3 + 2);
    assert forall|k: int| 0 <= k < 10 implies s[o_l3 + 3 + k] == #[trigger] "click_type"@[k] by {
        assert(s[o_l3 + 3 + k] == l3[3 + k]);
    }
    assert(s[o_l3 + 13] == '"');
    lemma_parse_string_reads_back(s, o_l3 + 2, "click_type"@);
    assert(s[o_l3 + 14] == ':');
    assert(spec_skip_ws(s, o_l3 + 14) == o_l3 + 14);
    assert(spec_expect_field(s, o_l3 + 2, "click_type"@) == Some(o_l3 + 15));
    assert(s[o_l3 + 15] == '"');
    assert(spec_skip_ws(s, o_l3 + 15) == o_l3 + 15);
    assert(l4[0] == '"');
    lemma_parse_string_reads_back(s, o_l3 + 15, t);
    assert(spec_parse_string(s, o_l3 + 15) == Some((t, off_l4(c) + 1)));
}

#[verifier::spinoff_prover]
#[verifier::rlimit(60)]
proof fn lemma_round_trip_delay(c: ConfigModel)
    requires
        c.normal_delay_ms <= 999999999999999,
    ensures
        spec_expect_char(spec_config_json(c), off_l4(c) + 1, ',') == Some(off_l4(c) + 2),
        spec_expect_field(spec_config_json(c), off_l4(c) + 2, "normal_delay_ms"@) == Some(
            off_d(c),
        ),
        spec_skip_ws(spec_config_json(c), off_d(c)) == off_d(c),
        spec_parse_u64(spec_config_json(c), off_d(c)) == Some((c.normal_delay_ms, off_l5(c))),
{
    let s = spec_config_json(c);
    let l4 = "\",\"normal_delay_ms\":"@;
    let d = spec_u64_str(c.normal_delay_ms as int);
    let l5 = ",\"cps\":"@;
    let o_l4 = off_l4(c);
    let o_d = off_d(c);
    lemma_doc_shape(c);
    reveal_strlit("\",\"normal_delay_ms\":");
    reveal_strlit(",\"cps\":");
    reveal_strlit("normal_delay_ms");
    lemma_u64_str_digits(c.normal_delay_ms as int);
    assert forall|k: int| 0 <= k < 20 implies s[o_l4 + k] == #[trigger] l4[k] by {}
    assert forall|k: int| 0 <= k < d.len() implies s[o_d + k] == #[trigger] d[k] by {}
    assert(s[o_d + d.len()] == l5[0]);
    assert(s[o_l4 + 1] == ',');
    assert(spec_skip_ws(s, o_l4 + 1) == o_l4 + 1);
    assert(spec_expect_char(s, o_l4 + 1, ',') == Some(o_l4 + 2));
    assert(no_quotes("normal_delay_ms"@));
    assert(s[o_l4 + 2] == '"');
    assert(spec_skip_ws(s, o_l4 + 2) == o_l4 + 2);
    assert forall|k: int|
        0 <= k < 15 implies s[o_l4 + 3 + k] == #[trigger] "normal_delay_ms"@[k] by {
        assert(s[o_l4 + 3 + k] == l4[3 + k]);
    }
    assert(s[o_l4 + 18] == '"');
    lemma_parse_string_reads_back(s, o_l4 + 2, "normal_delay_ms"@);
    assert(s[o_l4 + 19] == ':');
    assert(spec_skip_ws(s, o_l4 + 19) == o_l4 + 19);
    assert(spec_expect_field(s, o_l4 + 2, "normal_delay_ms"@) == Some(o_d));
    assert(spec_is_digit(s[o_d]));
    assert(!spec_is_ws(s[o_d]));
    assert(spec_skip_ws(s, o_d) == o_d);
    assert(l5[0] == ',');
    assert(!spec_is_digit(','));
    lemma_parse_u64_reads_back(s, o_d, c.normal_delay_ms);
    assert(spec_parse_u64(s, o_d) == Some((c.normal_delay_ms, off_l5(c))));
}

#[verifier::spinoff_prover]
#[verifier::rlimit(60)]
proof fn lemma_round_trip_cps(c: ConfigModel)
    requires
        c.cps_tenths <= 9999999999999999,
    ensures
        spec_expect_char(spec_config_json(c), off_l5(c), ',') == Some(off_l5(c) + 1),
        spec_expect_field(spec_config_json(c), off_l5(c) + 1, "cps"@) == Some(off_w(c)),
        spec_skip_ws(spec_config_json(c), off_w(c)) == off_w(c),
        spec_parse_cps(spec_config_json(c), off_w(c)) == Some((c.cps_tenths, off_end(c))),
        spec_expect_char(spec_config_json(c), off_end(c), '}') == Some(off_end(c) + 1),
        spec_skip_ws(spec_config_json(c), off_end(c) + 1) == spec_config_json(c).len(),
{
    let s = spec_config_json(c);
    let l5 = ",\"cps\":"@;
    let w = spec_u64_str(c.cps_tenths as int / 10);
    let f = spec_digit_char(c.cps_tenths as int % 10);
    let o_l5 = off_l5(c);
    let o_w = off_w(c);
    let o_dot = off_dot(c);
    let o_f = o_dot + 1;
    let o_end = off_end(c);
    lemma_doc_shape(c);
    reveal_strlit(",\"cps\":");
    reveal_strlit("cps");
    reveal_strlit(".");
    reveal_strlit("}");
    lemma_u64_str_digits(c.cps_tenths as int / 10);
    lemma_digit_char_facts(c.cps_tenths as int % 10);
    assert forall|k: int| 0 <= k < 7 implies s[o_l5 + k] == #[trigger] l5[k] by {}
    assert forall|k: int| 0 <= k < w.len() implies s[o_w + k] == #[trigger] w[k] by {}
    assert(s[o_dot] == '.');
    assert(s[o_f] == f[0]);
    assert(s[o_end] == '}');
    assert(s[o_l5] == ',');
    assert(spec_skip_ws(s, o_l5) == o_l5);
    assert(spec_expect_char(s, o_l5, ',') == Some(o_l5 + 1));
    assert(no_quotes("cps"@));
    assert(s[o_l5 + 1] == '"');
    assert(spec_skip_ws(s, o_l5 + 1) == o_l5 + 1);
    assert forall|k: int| 0 <= k < 3 implies s[o_l5 + 2 + k] == #[trigger] "cps"@[k] by {
        assert(s[o_l5 + 2 + k] == l5[2 + k]);
    }
    assert(s[o_l5 + 5] == '"');
    lemma_parse_string_reads_back(s, o_l5 + 1, "cps"@);
    assert(s[o_l5 + 6] == ':');
    assert(spec_skip_ws(s, o_l5 + 6) == o_l5 + 6);
    assert(spec_expect_field(s, o_l5 + 1, "cps"@) == Some(o_w));
    assert(spec_is_digit(s[o_w]));
    assert(spec_skip_ws(s, o_w) == o_w);
    assert(!spec_is_digit('.'));
    lemma_parse_u64_reads_back(s, o_w, (c.cps_tenths / 10) as u64);
    assert(spec_parse_u64(s, o_w) == Some(((c.cps_tenths / 10) as u64, o_dot)));
    assert(spec_is_digit(s[o_f]));
    assert(!spec_is_digit('}'));
    lemma_scan_digits_run(s, o_f, o_f + 1);
    assert(spec_digit_val(s[o_f]) == c.cps_tenths as int % 10);
    assert((c.cps_tenths / 10) as u64 * 10 + c.cps_tenths as int % 10 == c.cps_tenths);
    assert(spec_parse_cps(s, o_w) == Some((c.cps_tenths, o_end)));
    assert(spec_skip_ws(s, o_end) == o_end);
    assert(spec_expect_char(s, o_end, '}') == Some(o_end + 1));
    assert(spec_skip_ws(s, o_end + 1) == s.len());
}

/// The round trip: a well-formed configuration, written and read back, is
/// itself — field for field, member for member. The bounds ask only what
/// the reader ever accepts: a hotkey of at most 64 members and numbers of
/// at most fifteen whole digits, far past any real setting.
pub proof fn lemma_config_round_trip(c: ConfigModel)
    requires
        crate::config::config_wf(c),
        c.hotkey.len() <= 64,
        c.normal_delay_ms <= 999999999999999,
        c.cps_tenths <= 9999999999999999,
    ensures
        spec_parse_config(spec_config_json(c)) == c,
{
    let s = spec_config_json(c);
    lemma_round_trip_keys(c);
    lemma_round_trip_mode(c);
    lemma_round_trip_kind(c);
    lemma_round_trip_delay(c);
    lemma_round_trip_cps(c);
    lemma_mode_name_round_trip(c.click_mode);
    lemma_kind_name_round_trip(c.click_type);
    assert(spec_parse_document_tail(
        s,
        c.hotkey,
        c.click_mode,
        c.click_type,
        off_l4(c) + 1,
    ) == Some((c.hotkey, c.click_mode, c.click_type, c.normal_delay_ms, c.cps_tenths)));
    assert(spec_parse_document(s) == Some(
        (c.hotkey, c.click_mode, c.click_type, c.normal_delay_ms, c.cps_tenths),
    ));
    assert(spec_parse_config(s) == c);
}

fn skip_ws(s: &str, i: usize) -> (r: usize)
    requires
        i <= s@.len(),
    ensures
        r == spec_skip_ws(s@, i as int),
        i <= r <= s@.len(),
{
    let n = s.unicode_len();
    let mut j = i;
    while j < n
        invariant
            i <= j <= n,
            n == s@.len(),
            spec_skip_ws(s@, i as int) == spec_skip_ws(s@, j as int),
        decreases n - j,
    {
        let c = s.get_char(j);
        if c == ' ' || c == '\n' || c == '\r' || c == '\t' {
            j = j + 1;
        } else {
            return j;
        }
    }
    j
}

fn expect_char(s: &str, i: usize, c: char) -> (r: Option<usize>)
    requires
        i <= s@.len(),
    ensures
        match r {
            Some(j) => spec_expect_char(s@, i as int, c) == Some(j as int) && j <= s@.len(),
            None => spec_expect_char(s@, i as int, c) is None,
        },
{
    let n = s.unicode_len();
    let j = skip_ws(s, i);
    if j < n && s.get_char(j) == c {
        Some(j + 1)
    } else {
        None
    }
}

fn parse_string<'a>(s: &'a str, i: usize) -> (r: Option<(&'a str, usize)>)
    requires
        i <= s@.len(),
    ensures
        match r {
            Some((t, j)) => spec_parse_string(s@, i as int) == Some((t@, j as int)) && j <= s@.len(),
            None => spec_parse_string(s@, i as int) is None,
        },
{
    let n = s.unicode_len();
    if i >= n || s.get_char(i) != '"' {
        return None;
    }
    let mut j = i + 1;
    while j < n
        invariant
            i + 1 <= j <= n,
            n == s@.len(),
            s@[i as int] == '"',
            spec_scan_string(s@, i + 1 as int) == spec_scan_string(s@, j as int),
        decreases n - j,
    {
        let c = s.get_char(j);
        if c == '"' {
            proof {
                assert(spec_scan_string(s@, j as int) == Some(j as int));
            }
            let content = s.substring_char(i + 1, j);
            return Some((content, j + 1));
        }
        if c == '\\' {
            proof {
                assert(spec_scan_string(s@, j as int) is None);
            }
            return None;
        }
        j = j + 1;
    }
    proof {
        assert(spec_scan_string(s@, j as int) is None);
    }
    None
}

fn parse_u64_at(s: &str, i: usize) -> (r: Option<(u64, usize)>)
    requires
        i <= s@.len(),
    ensures
        match r {
            Some((v, j)) => spec_parse_u64(s@, i as int) == Some((v, j as int)) && j <= s@.len()
                && v <= 999999999999999,
            None => spec_parse_u64(s@, i as int) is None,
        },
{
    let n = s.unicode_len();
    let mut j = i;
    let mut acc: u64 = 0;
    proof {
        lemma_pow10_bounds();
    }
    while j < n
        invariant
            i <= j <= n,
            j - i <= 15,
            n == s@.len(),
            spec_scan_digits(s@, i as int) == spec_scan_digits(s@, j as int),
            acc == spec_digits_value(s@, i as int, j as int),
            acc < pow10(j - i),
            pow10(15) == 1000000000000000,
            pow10(14) == 100000000000000,
        decreases n - j,
    {
        let c = s.get_char(j);
        let u = c as u32;
        if 48 <= u && u <= 57 {
            proof {
                assert(spec_is_digit(s@[j as int]));
                assert(spec_scan_digits(s@, j as int) == spec_scan_digits(s@, j + 1 as int));
            }
            if j - i == 15 {
                proof {
                    lemma_scan_digits_ge(s@, j + 1 as int);
                }
                return None;
            }
            proof {
                lemma_pow10_le(j - i, 14);
            }
            acc = acc * 10 + ((u - 48) as u64);
            j = j + 1;
        } else {
            proof {
                assert(spec_scan_digits(s@, j as int) == j as int);
            }
            if j == i {
                return None;
            }
            proof {
                lemma_pow10_le(j - i, 15);
            }
            return Some((acc, j));
        }
    }
    proof {
        assert(spec_scan_digits(s@, j as int) == j as int);
    }
    if j == i {
        return None;
    }
    proof {
        lemma_pow10_le(j - i, 15);
    }
    Some((acc, j))
}

fn parse_cps_at(s: &str, i: usize) -> (r: Option<(u64, usize)>)
    requires
        i <= s@.len(),
    ensures
        match r {
            Some((v, j)) => spec_parse_cps(s@, i as int) == Some((v, j as int)) && j <= s@.len(),
            None => spec_parse_cps(s@, i as int) is None,
        },
{
    let n = s.unicode_len();
    match parse_u64_at(s, i) {
        None => None,
        Some((whole, j)) => {
            if j < n && s.get_char(j) == '.' {
                if j + 1 < n {
                    let c = s.get_char(j + 1);
                    let u = c as u32;
                    if 48 <= u && u <= 57 {
                        proof {
                            assert(spec_is_digit(s@[j + 1 as int]));
                            assert(spec_scan_digits(s@, j + 1 as int) == spec_scan_digits(
                                s@,
                                j + 2 as int,
                            ));
                        }
                        let mut k = j + 2;
                        while k < n
                            invariant
                                j + 2 <= k <= n,
                                n == s@.len(),
                                whole <= 999999999999999,
                                48 <= u <= 57,
                                u == s@[j + 1 as int] as u32,
                                s@[j as int] == '.',
                                spec_parse_u64(s@, i as int) == Some((whole, j as int)),
                                spec_scan_digits(s@, j + 1 as int) == spec_scan_digits(
                                    s@,
                                    k as int,
                                ),
                            decreases n - k,
                        {
                            let c2 = s.get_char(k);
                            let u2 = c2 as u32;
                            if 48 <= u2 && u2 <= 57 {
                                proof {
                                    assert(spec_is_digit(s@[k as int]));
                                    assert(spec_scan_digits(s@, k as int) == spec_scan_digits(
                                        s@,
                                        k + 1 as int,
                                    ));
                                }
                                k = k + 1;
                            } else {
                                proof {
                                    assert(spec_scan_digits(s@, k as int) == k as int);
                                }
                                return Some((whole * 10 + ((u - 48) as u64), k));
                            }
                        }
                        proof {
                            assert(spec_scan_digits(s@, k as int) == k as int);
                        }
                        Some((whole * 10 + ((u - 48) as u64), k))
                    } else {
                        proof {
                            assert(spec_scan_digits(s@, j + 1 as int) == j + 1 as int);
                        }
                        None
                    }
                } else {
                    proof {
                        assert(spec_scan_digits(s@, j + 1 as int) == j + 1 as int);
                    }
                    None
                }
            } else {
                Some((whole * 10, j))
            }
        },
    }
}

fn expect_field(s: &str, i: usize, name: &str) -> (r: Option<usize>)
    requires
        i <= s@.len(),
    ensures
        match r {
            Some(j) => spec_expect_field(s@, i as int, name@) == Some(j as int) && j <= s@.len(),
            None => spec_expect_field(s@, i as int, name@) is None,
        },
{
    let j = skip_ws(s, i);
    match parse_string(s, j) {
        None => None,
        Some((content, j2)) => {
            if str_eq(content, name) {
                expect_char(s, j2, ':')
            } else {
                None
            }
        },
    }
}

fn parse_keys_from(s: &str, i: usize, fuel: usize) -> (r: Option<(Vec<Key>, usize)>)
    requires
        i <= s@.len(),
    ensures
        match r {
            Some((ks, j)) => spec_parse_keys_from(s@, i as int, fuel as int) == Some(
                (ks@, j as int),
            ) && j <= s@.len(),
            None => spec_parse_keys_from(s@, i as int, fuel as int) is None,
        },
    decreases fuel,
{
    if fuel == 0 {
        return None;
    }
    let j = skip_ws(s, i);
    match parse_string(s, j) {
        None => None,
        Some((content, j2)) => {
            let parsed = key_from_name(content);
            let j3 = skip_ws(s, j2);
            let n = s.unicode_len();
            if j3 < n && s.get_char(j3) == ',' {
                match parse_keys_from(s, j3 + 1, fuel - 1) {
                    None => None,
                    Some((rest, j4)) => {
                        let mut v: Vec<Key> = Vec::new();
                        match parsed {
                            Some(key) => v.push(key),
                            None => (),
                        }
                        let mut idx: usize = 0;
                        let ghost keys0 = v@;
                        while idx < rest.len()
                            invariant
                                0 <= idx <= rest@.len(),
                                v@ == keys0 + rest@.take(idx as int),
                            decreases rest@.len() - idx,
                        {
                            v.push(rest[idx]);
                            proof {
                                assert(keys0 + rest@.take(idx as int) + seq![rest@[idx as int]]
                                    =~= keys0 + rest@.take(idx + 1 as int));
                            }
                            idx = idx + 1;
                        }
                        proof {
                            assert(rest@.take(rest@.len() as int) =~= rest@);
                        }
                        Some((v, j4))
                    },
                }
            } else if j3 < n && s.get_char(j3) == ']' {
                let mut v: Vec<Key> = Vec::new();
                match parsed {
                    Some(key) => v.push(key),
                    None => (),
                }
                Some((v, j3 + 1))
            } else {
                None
            }
        },
    }
}

fn parse_key_array(s: &str, i: usize) -> (r: Option<(Vec<Key>, usize)>)
    requires
        i <= s@.len(),
    ensures
        match r {
            Some((ks, j)) => spec_parse_key_array(s@, i as int) == Some((ks@, j as int)) && j
                <= s@.len(),
            None => spec_parse_key_array(s@, i as int) is None,
        },
{
    let n = s.unicode_len();
    if i >= n || s.get_char(i) != '[' {
        return None;
    }
    let j = skip_ws(s, i + 1);
    if j < n && s.get_char(j) == ']' {
        Some((Vec::new(), j + 1))
    } else {
        parse_keys_from(s, i + 1, 64)
    }
}

/// The mode a saved name stands for.
pub fn mode_from_name(name: &str) -> (m: ClickMode)
    ensures
        m == spec_mode_from_name(name@),
{
    if str_eq(name, "Hold") {
        ClickMode::Hold
    } else if str_eq(name, "Humanized") {
        ClickMode::Humanized
    } else {
        ClickMode::Click
    }
}

/// The action kind a saved name stands for.
pub fn kind_from_name(name: &str) -> (t: ClickType)
    ensures
        t == spec_kind_from_name(name@),
{
    if str_eq(name, "RightClick") {
        ClickType::RightClick
    } else if str_eq(name, "Space") {
        ClickType::Space
    } else {
        ClickType::LeftClick
    }
}

fn parse_document(s: &str) -> (r: Option<(Vec<Key>, ClickMode, ClickType, u64, u64)>)
    ensures
        match r {
            Some((ks, m, t, d, c)) => spec_parse_document(s@) == Some((ks@, m, t, d, c)),
            None => spec_parse_document(s@) is None,
        },
{
    let i0 = match expect_char(s, 0, '{') {
        None => return None,
        Some(x) => x,
    };
    let i1 = match expect_field(s, i0, "hotkey") {
        None => return None,
        Some(x) => x,
    };
    let j1 = skip_ws(s, i1);
    let (keys, i2) = match parse_key_array(s, j1) {
        None => return None,
        Some(x) => x,
    };
    let i3 = match expect_char(s, i2, ',') {
        None => return None,
        Some(x) => x,
    };
    let i4 = match expect_field(s, i3, "click_mode") {
        None => return None,
        Some(x) => x,
    };
    let j4 = skip_ws(s, i4);
    let (mode_s, i5) = match parse_string(s, j4) {
        None => return None,
        Some(x) => x,
    };
    let mode = mode_from_name(mode_s);
    let i6 = match expect_char(s, i5, ',') {
        None => return None,
        Some(x) => x,
    };
    let i7 = match expect_field(s, i6, "click_type") {
        None => return None,
        Some(x) => x,
    };
    let j7 = skip_ws(s, i7);
    let (kind_s, i8) = match parse_string(s, j7) {
        None => return None,
        Some(x) => x,
    };
    let kind = kind_from_name(kind_s);
    let i9 = match expect_char(s, i8, ',') {
        None => return None,
        Some(x) => x,
    };
    let i10 = match expect_field(s, i9, "normal_delay_ms") {
        None => return None,
        Some(x) => x,
    };
    let j10 = skip_ws(s, i10);
    let (delay, i11) = match parse_u64_at(s, j10) {
        None => return None,
        Some(x) => x,
    };
    let i12 = match expect_char(s, i11, ',') {
        None => return None,
        Some(x) => x,
    };
    let i13 = match expect_field(s, i12, "cps") {
        None => return None,
        Some(x) => x,
    };
    let j13 = skip_ws(s, i13);
    let (cps, i14) = match parse_cps_at(s, j13) {
        None => return None,
        Some(x) => x,
    };
    let i15 = match expect_char(s, i14, '}') {
        None => return None,
        Some(x) => x,
    };
    let end = skip_ws(s, i15);
    if end != s.unicode_len() {
        return None;
    }
    Some((keys, mode, kind, delay, cps))
}

/// Reads a saved document back into a configuration. An unparsable document
/// yields the default configuration; a parsable one yields exactly the
/// fields it holds, with unknown mode, kind and key names replaced by their
/// fallbacks and an empty hotkey list by the default key.
pub fn parse_config(s: &str) -> (c: AppConfig)
    ensures
        c@ == spec_parse_config(s@),
        crate::config::config_wf(c@),
{
    match parse_document(s) {
        None => AppConfig::default(),
        Some((keys, mode, kind, delay, cps)) => {
            let hotkey = if keys.len() == 0 {
                let v = vec![Key::F6];
                proof {
                    assert(v@ =~= seq![Key::F6]);
                }
                v
            } else {
                keys
            };
            AppConfig {
                hotkey,
                click_mode: mode,
                click_type: kind,
                normal_delay_ms: delay,
                cps_tenths: cps,
            }
        },
    }
}

} // verus!
