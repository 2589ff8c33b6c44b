use hotkeys_blocker::keys::{lookup_token, str_eq, EventKey, FLAG_ALTERNATE, FLAG_COMMAND};
use hotkeys_blocker::parser::{convert_hotkeys_to_event_keys, parse_combo, ComboMatchKey};

fn key(keycode: i64, modifiers: u64) -> ComboMatchKey {
    ComboMatchKey { keycode, modifiers }
}

#[test]
fn single_letter_tokens_parse_to_their_keycodes() {
    assert_eq!(parse_combo("a"), Some(key(0, 0)));
    assert_eq!(parse_combo("c"), Some(key(8, 0)));
    assert_eq!(parse_combo("v"), Some(key(9, 0)));
    assert_eq!(parse_combo("q"), Some(key(12, 0)));
    assert_eq!(parse_combo("tab"), Some(key(48, 0)));
    assert_eq!(parse_combo("esc"), Some(key(53, 0)));
}

#[test]
fn modifiers_only_combo_yields_no_match_key() {
    assert_eq!(parse_combo("cmd+opt"), None);
    assert_eq!(parse_combo("shift"), None);
    assert_eq!(parse_combo("ctrl+shift+cmd+opt"), None);
}

#[test]
fn last_keycode_wins() {
    assert_eq!(parse_combo("a+b"), Some(key(11, 0)));
    assert_eq!(parse_combo("b+a"), Some(key(0, 0)));
    assert_eq!(parse_combo("a+b+c"), Some(key(8, 0)));
}

#[test]
fn modifier_flags_union() {
    assert_eq!(
        parse_combo("cmd+opt+esc"),
        Some(key(53, FLAG_COMMAND | FLAG_ALTERNATE))
    );
    assert_eq!(
        parse_combo("opt+esc+cmd"),
        Some(key(53, FLAG_COMMAND | FLAG_ALTERNATE))
    );
}

#[test]
fn unknown_tokens_are_ignored_without_error() {
    assert_eq!(parse_combo("cmd+foo+v"), parse_combo("cmd+v"));
    assert_eq!(parse_combo("cmd+foo+v"), Some(key(9, FLAG_COMMAND)));
    assert_eq!(parse_combo("nonsense"), None);
}

#[test]
fn empty_string_yields_no_match_key() {
    assert_eq!(parse_combo(""), None);
}

#[test]
fn empty_segments_are_ignored() {
    assert_eq!(parse_combo("+v+"), Some(key(9, 0)));
    assert_eq!(parse_combo("++"), None);
}

#[test]
fn conversion_preserves_input_order() {
    let hotkeys = vec!["cmd+c".to_string(), "cmd+v".to_string()];
    let keys = convert_hotkeys_to_event_keys(&hotkeys);
    assert_eq!(keys, vec![key(8, FLAG_COMMAND), key(9, FLAG_COMMAND)]);
}

#[test]
fn end_to_end_default_combo_list() {
    let hotkeys = vec![
        "cmd+c".to_string(),
        "cmd+v".to_string(),
        "cmd+q".to_string(),
        "cmd+opt+esc".to_string(),
    ];
    let keys = convert_hotkeys_to_event_keys(&hotkeys);
    assert_eq!(
        keys,
        vec![
            key(8, FLAG_COMMAND),
            key(9, FLAG_COMMAND),
            key(12, FLAG_COMMAND),
            key(53, FLAG_COMMAND | FLAG_ALTERNATE),
        ]
    );
}

#[test]
fn dropped_combos_leave_no_placeholder() {
    let hotkeys = vec![
        "cmd+opt".to_string(),
        "cmd+c".to_string(),
        "bogus".to_string(),
    ];
    let keys = convert_hotkeys_to_event_keys(&hotkeys);
    assert_eq!(keys, vec![key(8, FLAG_COMMAND)]);
}

#[test]
fn duplicate_combos_are_kept() {
    let hotkeys = vec!["cmd+c".to_string(), "cmd+c".to_string()];
    let keys = convert_hotkeys_to_event_keys(&hotkeys);
    assert_eq!(keys, vec![key(8, FLAG_COMMAND), key(8, FLAG_COMMAND)]);
}

#[test]
fn lookup_token_distinguishes_keycodes_and_modifiers() {
    assert_eq!(lookup_token("tab"), Some(EventKey::Int(48)));
    assert_eq!(lookup_token("cmd"), Some(EventKey::Flags(FLAG_COMMAND)));
    assert_eq!(lookup_token("foo"), None);
    assert_eq!(lookup_token(""), None);
    assert_eq!(lookup_token("A"), None);
}

#[test]
fn event_key_accessors() {
    assert_eq!(EventKey::Int(48).as_int(), Some(48));
    assert_eq!(EventKey::Flags(FLAG_COMMAND).as_int(), None);
    assert_eq!(EventKey::Flags(FLAG_COMMAND).as_flags(), FLAG_COMMAND);
    assert_eq!(EventKey::Int(48).as_flags(), 0);
}

#[test]
fn str_eq_matches_string_equality() {
    assert!(str_eq("esc", "esc"));
    assert!(!str_eq("esc", "esq"));
    assert!(!str_eq("esc", "es"));
    assert!(str_eq("", ""));
}
