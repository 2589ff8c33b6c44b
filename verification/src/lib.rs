//! Verified core of a temporary hotkey-interception tool.
//!
//! The crate parses textual key-combo descriptors such as `"cmd+opt+esc"`
//! into canonical match keys, decides which key-down events those match
//! keys suppress, and models the start/stop lifecycle of the interception
//! session. The privileged system calls that install the actual event
//! filter live outside this crate; everything here is pure logic with
//! proved contracts.

pub mod keys;
pub mod parser;
pub mod engine;

pub use keys::EventKey;
pub use parser::ComboMatchKey;
pub use engine::HotkeysBlockerExecutor;
