//! The interception engine: which key-down events a session suppresses,
//! and the start/stop lifecycle of a session.
//!
//! The engine's decisions are pure and proved here: parsing the combo
//! list, mapping failures of the two system registration steps to errors,
//! judging every key-down event against the match-key list, and the
//! state transitions of a session. The privileged calls themselves — the
//! event-tap registration and the native run loop — live with the caller,
//! which drives this state machine: it reports whether each registration
//! step succeeded, asks [`HotkeysBlockerExecutor::filter_key_down`] about
//! every event while the loop runs, and signals [`HotkeysBlockerExecutor::stop`]
//! from another thread to end the session.

use vstd::prelude::*;
use crate::parser::{ComboMatchKey, EventKeys, parse_combos, convert_hotkeys_to_event_keys};

verus! {

/// Whether every required modifier flag is held in an event's flag word.
/// Extra held modifiers are permitted: the required set must be a subset,
/// not an exact match.
pub open spec fn flags_contain(event_flags: u64, required: u64) -> bool {
    event_flags & required == required
}

/// Whether one match key matches a key-down event: the keycodes agree and
/// all required modifiers are held.
pub open spec fn key_matches(key: ComboMatchKey, keycode: i64, event_flags: u64) -> bool {
    key.keycode == keycode && flags_contain(event_flags, key.modifiers)
}

/// Whether any match key of the list matches the event.
pub open spec fn spec_should_block(keys: Seq<ComboMatchKey>, keycode: i64, event_flags: u64) -> bool {
    exists|i: int| 0 <= i < keys.len() && key_matches(keys[i], keycode, event_flags)
}

/// Whether one match key matches a key-down event.
pub fn event_matches(key: &ComboMatchKey, keycode: i64, event_flags: u64) -> (r: bool)
    ensures
        r == key_matches(*key, keycode, event_flags),
{
    key.keycode == keycode && (event_flags & key.modifiers) == key.modifiers
}

/// Whether a key-down event with the given keycode and flag word matches
/// any match key of the list, and is therefore to be suppressed.
pub fn should_block(keys: &EventKeys, keycode: i64, event_flags: u64) -> (r: bool)
    ensures
        r == spec_should_block(keys@, keycode, event_flags),
{
    let mut i: usize = 0;
    while i < keys.len()
        invariant
            0 <= i <= keys@.len(),
            forall|j: int| 0 <= j < i ==> !key_matches(keys@[j], keycode, event_flags),
        decreases keys@.len() - i,
    {
        if event_matches(&keys[i], keycode, event_flags) {
            assert(key_matches(keys@[i as int], keycode, event_flags));
            return true;
        }
        i += 1;
    }
    false
}

proof fn lemma_contain_or(f: u64, m: u64, e: u64)
    requires
        f & m == m,
    ensures
        (f | e) & m == m,
{
    assert((f | e) & m == m) by (bit_vector)
        requires
            f & m == m,
    ;
}

/// Subset match semantics: a match key that matches an event keeps
/// matching when further modifiers are held beyond those it requires.
pub proof fn lemma_extra_modifiers_still_match(
    key: ComboMatchKey,
    keycode: i64,
    event_flags: u64,
    extra: u64,
)
    requires
        key_matches(key, keycode, event_flags),
    ensures
        key_matches(key, keycode, event_flags | extra),
{
    lemma_contain_or(event_flags, key.modifiers, extra);
}

/// Why an interception session could not start.
#[derive(Clone, Copy, Debug, PartialEq, Eq, Structural)]
pub enum EngineError {
    /// The system denied or could not create the event tap, typically for
    /// want of the accessibility permission.
    TapCreationFailed,
    /// The tap's delivery source could not be attached to the run loop.
    SourceCreationFailed,
}

/// The lifecycle of one interception session. A session never returns to
/// `Running`; a new session requires a new engine.
#[derive(Clone, Copy, Debug, PartialEq, Eq, Structural)]
pub enum EngineState {
    /// Constructed; the filter is not installed yet.
    Idle,
    /// The filter is installed and the loop is running.
    Running,
    /// The loop was stopped; the session ended cleanly.
    Stopped,
    /// A registration step failed; the session never ran.
    Failed(EngineError),
}

/// The abstract state of an engine: its lifecycle state and the match
/// keys the session blocks.
pub struct EngineModel {
    /// The lifecycle state of the session.
    pub state: EngineState,
    /// The match keys the session blocks.
    pub keys: Seq<ComboMatchKey>,
}

/// How the two system registration steps decide the start of a session:
/// a denied tap fails first, then a failed source attachment; a session
/// starts only when both steps succeeded.
pub open spec fn setup_result(tap_created: bool, source_created: bool) -> Result<(), EngineError> {
    if !tap_created {
        Err(EngineError::TapCreationFailed)
    } else if !source_created {
        Err(EngineError::SourceCreationFailed)
    } else {
        Ok(())
    }
}

/// The start transition: the combo list is parsed whatever happens, and
/// the session runs exactly when both registration steps succeeded.
pub open spec fn spec_execute_setup(
    m: EngineModel,
    combos: Seq<Seq<char>>,
    tap_created: bool,
    source_created: bool,
) -> (EngineModel, Result<(), EngineError>) {
    let r = setup_result(tap_created, source_created);
    let state = match r {
        Ok(_) => EngineState::Running,
        Err(e) => EngineState::Failed(e),
    };
    (EngineModel { state, keys: parse_combos(combos) }, r)
}

/// The stop transition: the loop exits; the match keys are unchanged.
pub open spec fn spec_stop(m: EngineModel) -> EngineModel {
    EngineModel { state: EngineState::Stopped, ..m }
}

/// What a completed session reports: the error of the registration step
/// that failed, or success for a session that ran and was stopped.
pub open spec fn session_outcome(m: EngineModel) -> Result<(), EngineError> {
    match m.state {
        EngineState::Failed(e) => Err(e),
        _ => Ok(()),
    }
}

/// The engine of one interception session: the match keys it blocks and
/// where in its lifecycle the session stands.
pub struct HotkeysBlockerExecutor {
    state: EngineState,
    match_keys: EventKeys,
}

impl View for HotkeysBlockerExecutor {
    type V = EngineModel;

    closed spec fn view(&self) -> EngineModel {
        EngineModel { state: self.state, keys: self.match_keys@ }
    }
}

impl Default for HotkeysBlockerExecutor {
    /// A fresh engine: idle, with no match keys yet.
    fn default() -> (r: Self)
        ensures
            r@.state is Idle,
            r@.keys.len() == 0,
    {
        HotkeysBlockerExecutor { state: EngineState::Idle, match_keys: Vec::new() }
    }
}

impl HotkeysBlockerExecutor {
    /// The decision half of starting a session. The caller performs the
    /// two privileged registration steps — creating the event tap, then
    /// attaching its delivery source to the run loop — and reports here
    /// whether each succeeded; this parses the combo list into the match
    /// keys, maps the first failed step to its error, and enters the
    /// running state exactly when both steps succeeded, whereupon the
    /// caller blocks driving the loop until [`Self::stop`] is signalled.
    pub fn execute_setup(
        &mut self,
        hotkeys: &Vec<String>,
        tap_created: bool,
        source_created: bool,
    ) -> (r: Result<(), EngineError>)
        requires
            old(self)@.state is Idle,
        ensures
            final(self)@ == spec_execute_setup(
                old(self)@,
                hotkeys.deep_view(),
                tap_created,
                source_created,
            ).0,
            r == spec_execute_setup(
                old(self)@,
                hotkeys.deep_view(),
                tap_created,
                source_created,
            ).1,
    {
        self.match_keys = convert_hotkeys_to_event_keys(hotkeys);
        if !tap_created {
            self.state = EngineState::Failed(EngineError::TapCreationFailed);
            Err(EngineError::TapCreationFailed)
        } else if !source_created {
            self.state = EngineState::Failed(EngineError::SourceCreationFailed);
            Err(EngineError::SourceCreationFailed)
        } else {
            self.state = EngineState::Running;
            Ok(())
        }
    }

    /// The filter's decision for one key-down event while the session
    /// runs: whether the event matches a blocked combo and is to be
    /// rewritten to a no-op before anything else observes it.
    pub fn filter_key_down(&self, keycode: i64, event_flags: u64) -> (r: bool)
        requires
            self@.state is Running,
        ensures
            r == spec_should_block(self@.keys, keycode, event_flags),
    {
        should_block(&self.match_keys, keycode, event_flags)
    }

    /// Signals the running session's loop to terminate. Callable from a
    /// thread other than the one driving the loop; once the loop has
    /// exited, the session is over and the engine is not reusable.
    pub fn stop(&mut self)
        requires
            old(self)@.state is Running,
        ensures
            final(self)@ == spec_stop(old(self)@),
    {
        self.state = EngineState::Stopped;
    }

    /// What the completed session reports to the caller of the start
    /// operation once control has returned: success, for a session that
    /// ran and was stopped.
    pub fn execute_finish(&self) -> (r: Result<(), EngineError>)
        requires
            self@.state is Stopped,
        ensures
            r == Ok::<(), EngineError>(()),
            r == session_outcome(self@),
    {
        Ok(())
    }
}

/// The lifecycle law: from an idle engine, a start whose two registration
/// steps succeed enters the running state and reports success — whatever
/// the combo list parsed to, so a list yielding no match keys still
/// installs the filter and runs — and stopping the running session makes
/// the session complete cleanly.
pub proof fn lemma_lifecycle(m: EngineModel, combos: Seq<Seq<char>>)
    requires
        m.state is Idle,
    ensures
        spec_execute_setup(m, combos, true, true).0.state is Running,
        spec_execute_setup(m, combos, true, true).1 == Ok::<(), EngineError>(()),
        session_outcome(spec_stop(spec_execute_setup(m, combos, true, true).0)) == Ok::<
            (),
            EngineError,
        >(()),
{
}

/// The configuration a session accepts: how long interception lasts and
/// which combos are blocked.
pub struct BlockerConfig {
    /// The interception window, in seconds.
    pub window_secs: u64,
    /// The combo descriptors to block.
    pub hotkeys: Vec<String>,
}

/// How long the default configuration intercepts, in seconds.
pub const DEFAULT_WINDOW_SECS: u64 = 10;

impl Default for BlockerConfig {
    /// The default configuration: a ten-second window over the four
    /// combos `cmd+c`, `cmd+v`, `cmd+q` and `cmd+opt+esc`.
    fn default() -> (r: Self)
        ensures
            r.window_secs == DEFAULT_WINDOW_SECS,
            r.hotkeys@.len() == 4,
            r.hotkeys@[0]@ == "cmd+c"@,
            r.hotkeys@[1]@ == "cmd+v"@,
            r.hotkeys@[2]@ == "cmd+q"@,
            r.hotkeys@[3]@ == "cmd+opt+esc"@,
    {
        let mut hotkeys: Vec<String> = Vec::new();
        hotkeys.push("cmd+c".to_owned());
        hotkeys.push("cmd+v".to_owned());
        hotkeys.push("cmd+q".to_owned());
        hotkeys.push("cmd+opt+esc".to_owned());
        BlockerConfig { window_secs: DEFAULT_WINDOW_SECS, hotkeys }
    }
}

} // verus!
