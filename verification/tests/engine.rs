use hotkeys_blocker::engine::{
    event_matches, should_block, BlockerConfig, EngineError, HotkeysBlockerExecutor,
    DEFAULT_WINDOW_SECS,
};
use hotkeys_blocker::keys::{FLAG_ALTERNATE, FLAG_COMMAND, FLAG_SHIFT};
use hotkeys_blocker::parser::ComboMatchKey;

fn key(keycode: i64, modifiers: u64) -> ComboMatchKey {
    ComboMatchKey { keycode, modifiers }
}

#[test]
fn extra_held_modifiers_still_match() {
    let stored = key(53, FLAG_COMMAND | FLAG_ALTERNATE);
    let held = FLAG_COMMAND | FLAG_ALTERNATE | FLAG_SHIFT;
    assert!(event_matches(&stored, 53, held));
    assert!(should_block(&vec![stored], 53, held));
}

#[test]
fn missing_required_modifier_does_not_match() {
    let stored = key(53, FLAG_COMMAND | FLAG_ALTERNATE);
    assert!(!event_matches(&stored, 53, FLAG_COMMAND));
    assert!(!should_block(&vec![stored], 53, FLAG_COMMAND));
}

#[test]
fn exact_modifiers_match() {
    let stored = key(8, FLAG_COMMAND);
    assert!(event_matches(&stored, 8, FLAG_COMMAND));
}

#[test]
fn different_keycode_does_not_match() {
    let stored = key(8, FLAG_COMMAND);
    assert!(!event_matches(&stored, 9, FLAG_COMMAND));
    assert!(!should_block(&vec![stored], 9, FLAG_COMMAND));
}

#[test]
fn any_key_of_the_list_suffices() {
    let keys = vec![key(8, FLAG_COMMAND), key(9, FLAG_COMMAND)];
    assert!(should_block(&keys, 9, FLAG_COMMAND));
    assert!(should_block(&keys, 8, FLAG_COMMAND | FLAG_SHIFT));
    assert!(!should_block(&keys, 12, FLAG_COMMAND));
}

#[test]
fn empty_match_key_list_blocks_nothing() {
    assert!(!should_block(&vec![], 8, FLAG_COMMAND));
}

#[test]
fn lifecycle_stop_completes_with_ok() {
    let mut engine = HotkeysBlockerExecutor::default();
    let hotkeys = vec!["cmd+c".to_string(), "cmd+opt+esc".to_string()];
    assert_eq!(engine.execute_setup(&hotkeys, true, true), Ok(()));
    assert!(engine.filter_key_down(8, FLAG_COMMAND));
    assert!(!engine.filter_key_down(8, 0));
    engine.stop();
    assert_eq!(engine.execute_finish(), Ok(()));
}

#[test]
fn combo_list_without_match_keys_still_runs() {
    let mut engine = HotkeysBlockerExecutor::default();
    let hotkeys = vec!["cmd+opt".to_string()];
    assert_eq!(engine.execute_setup(&hotkeys, true, true), Ok(()));
    assert!(!engine.filter_key_down(8, FLAG_COMMAND));
    assert!(!engine.filter_key_down(53, FLAG_COMMAND | FLAG_ALTERNATE));
    engine.stop();
    assert_eq!(engine.execute_finish(), Ok(()));
}

#[test]
fn denied_tap_reports_tap_creation_failure() {
    let mut engine = HotkeysBlockerExecutor::default();
    let hotkeys = vec!["cmd+c".to_string()];
    assert_eq!(
        engine.execute_setup(&hotkeys, false, false),
        Err(EngineError::TapCreationFailed)
    );
}

#[test]
fn failed_source_attachment_reports_source_creation_failure() {
    let mut engine = HotkeysBlockerExecutor::default();
    let hotkeys = vec!["cmd+c".to_string()];
    assert_eq!(
        engine.execute_setup(&hotkeys, true, false),
        Err(EngineError::SourceCreationFailed)
    );
}

#[test]
fn default_configuration_holds_the_four_combos_and_the_window() {
    let config = BlockerConfig::default();
    assert_eq!(config.window_secs, 10);
    assert_eq!(config.window_secs, DEFAULT_WINDOW_SECS);
    assert_eq!(
        config.hotkeys,
        vec![
            "cmd+c".to_string(),
            "cmd+v".to_string(),
            "cmd+q".to_string(),
            "cmd+opt+esc".to_string(),
        ]
    );
}
