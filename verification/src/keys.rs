//! Key tokens and the modifier-flag bit patterns they carry.
//!
//! A combo descriptor is a `+`-joined list of lowercase tokens. Each known
//! token denotes either a physical key (a keycode) or a modifier flag; the
//! flag constants below are the bit patterns the system reports for the
//! corresponding modifiers in a keyboard event's flag word.

use vstd::prelude::*;
use vstd::string::StrSliceExecFns;

verus! {

/// Bit set in an event's flag word while the command key is held.
pub const FLAG_COMMAND: u64 = 0x0010_0000;

/// Bit set in an event's flag word while the option (alternate) key is held.
pub const FLAG_ALTERNATE: u64 = 0x0008_0000;

/// Bit set in an event's flag word while the shift key is held.
pub const FLAG_SHIFT: u64 = 0x0002_0000;

/// Bit set in an event's flag word while the control key is held.
pub const FLAG_CONTROL: u64 = 0x0004_0000;

/// One semantic unit parsed from a combo token: either a physical key,
/// identified by its keycode, or a modifier flag.
#[derive(Clone, Copy, Debug, PartialEq, Eq, Structural)]
pub enum EventKey {
    /// A physical key, identified by its keycode.
    Int(i64),
    /// A modifier, as the flag bit it sets in an event's flag word.
    Flags(u64),
}

impl EventKey {
    /// The keycode, if this token denotes a physical key.
    pub fn as_int(&self) -> (r: Option<i64>)
        ensures
            r == (match *self {
                EventKey::Int(i) => Some(i),
                EventKey::Flags(_) => None::<i64>,
            }),
    {
        match self {
            EventKey::Int(i) => Some(*i),
            _ => None,
        }
    }

    /// The modifier flag bit, if this token denotes a modifier; an empty
    /// flag word otherwise.
    pub fn as_flags(&self) -> (r: u64)
        ensures
            r == (match *self {
                EventKey::Flags(f) => f,
                EventKey::Int(_) => 0u64,
            }),
    {
        match self {
            EventKey::Flags(f) => *f,
            _ => 0,
        }
    }
}

/// Character-by-character string equality, proved equivalent to equality
/// of the views.
pub fn str_eq(a: &str, b: &str) -> (r: bool)
    ensures
        r == (a@ == b@),
{
    let an = a.unicode_len();
    let bn = b.unicode_len();
    if an != bn {
        return false;
    }
    let mut i: usize = 0;
    while i < an
        invariant
            an == a@.len(),
            bn == b@.len(),
            an == bn,
            0 <= i <= an,
            forall|j: int| 0 <= j < i ==> a@[j] == b@[j],
        decreases an - i,
    {
        let ca = a.get_char(i);
        let cb = b.get_char(i);
        if ca != cb {
            return false;
        }
        i += 1;
    }
    proof {
        assert(a@ =~= b@);
    }
    true
}

/// The table of known combo tokens: lowercase letters and a few named keys
/// map to keycodes, and the four modifier names map to their flag bits.
/// Any other token is unknown and yields `None`.
pub open spec fn token_lookup(t: Seq<char>) -> Option<EventKey> {
    if t == "a"@ {
        Some(EventKey::Int(0))
    } else if t == "s"@ {
        Some(EventKey::Int(1))
    } else if t == "d"@ {
        Some(EventKey::Int(2))
    } else if t == "f"@ {
        Some(EventKey::Int(3))
    } else if t == "h"@ {
        Some(EventKey::Int(4))
    } else if t == "g"@ {
        Some(EventKey::Int(5))
    } else if t == "z"@ {
        Some(EventKey::Int(6))
    } else if t == "x"@ {
        Some(EventKey::Int(7))
    } else if t == "c"@ {
        Some(EventKey::Int(8))
    } else if t == "v"@ {
        Some(EventKey::Int(9))
    } else if t == "b"@ {
        Some(EventKey::Int(11))
    } else if t == "q"@ {
        Some(EventKey::Int(12))
    } else if t == "w"@ {
        Some(EventKey::Int(13))
    } else if t == "e"@ {
        Some(EventKey::Int(14))
    } else if t == "r"@ {
        Some(EventKey::Int(15))
    } else if t == "y"@ {
        Some(EventKey::Int(16))
    } else if t == "t"@ {
        Some(EventKey::Int(17))
    } else if t == "o"@ {
        Some(EventKey::Int(31))
    } else if t == "u"@ {
        Some(EventKey::Int(32))
    } else if t == "i"@ {
        Some(EventKey::Int(34))
    } else if t == "p"@ {
        Some(EventKey::Int(35))
    } else if t == "l"@ {
        Some(EventKey::Int(37))
    } else if t == "j"@ {
        Some(EventKey::Int(38))
    } else if t == "k"@ {
        Some(EventKey::Int(40))
    } else if t == "n"@ {
        Some(EventKey::Int(45))
    } else if t == "m"@ {
        Some(EventKey::Int(46))
    } else if t == "tab"@ {
        Some(EventKey::Int(48))
    } else if t == "esc"@ {
        Some(EventKey::Int(53))
    } else if t == "cmd"@ {
        Some(EventKey::Flags(FLAG_COMMAND))
    } else if t == "opt"@ {
        Some(EventKey::Flags(FLAG_ALTERNATE))
    } else if t == "shift"@ {
        Some(EventKey::Flags(FLAG_SHIFT))
    } else if t == "ctrl"@ {
        Some(EventKey::Flags(FLAG_CONTROL))
    } else {
        None
    }
}

/// Looks a token up in the table of known tokens.
pub fn lookup_token(t: &str) -> (r: Option<EventKey>)
    ensures
        r == token_lookup(t@),
{
    if str_eq(t, "a") {
        Some(EventKey::Int(0))
    } else if str_eq(t, "s") {
        Some(EventKey::Int(1))
    } else if str_eq(t, "d") {
        Some(EventKey::Int(2))
    } else if str_eq(t, "f") {
        Some(EventKey::Int(3))
    } else if str_eq(t, "h") {
        Some(EventKey::Int(4))
    } else if str_eq(t, "g") {
        Some(EventKey::Int(5))
    } else if str_eq(t, "z") {
        Some(EventKey::Int(6))
    } else if str_eq(t, "x") {
        Some(EventKey::Int(7))
    } else if str_eq(t, "c") {
        Some(EventKey::Int(8))
    } else if str_eq(t, "v") {
        Some(EventKey::Int(9))
    } else if str_eq(t, "b") {
        Some(EventKey::Int(11))
    } else if str_eq(t, "q") {
        Some(EventKey::Int(12))
    } else if str_eq(t, "w") {
        Some(EventKey::Int(13))
    } else if str_eq(t, "e") {
        Some(EventKey::Int(14))
    } else if str_eq(t, "r") {
        Some(EventKey::Int(15))
    } else if str_eq(t, "y") {
        Some(EventKey::Int(16))
    } else if str_eq(t, "t") {
        Some(EventKey::Int(17))
    } else if str_eq(t, "o") {
        Some(EventKey::Int(31))
    } else if str_eq(t, "u") {
        Some(EventKey::Int(32))
    } else if str_eq(t, "i") {
        Some(EventKey::Int(34))
    } else if str_eq(t, "p") {
        Some(EventKey::Int(35))
    } else if str_eq(t, "l") {
        Some(EventKey::Int(37))
    } else if str_eq(t, "j") {
        Some(EventKey::Int(38))
    } else if str_eq(t, "k") {
        Some(EventKey::Int(40))
    } else if str_eq(t, "n") {
        Some(EventKey::Int(45))
    } else if str_eq(t, "m") {
        Some(EventKey::Int(46))
    } else if str_eq(t, "tab") {
        Some(EventKey::Int(48))
    } else if str_eq(t, "esc") {
        Some(EventKey::Int(53))
    } else if str_eq(t, "cmd") {
        Some(EventKey::Flags(FLAG_COMMAND))
    } else if str_eq(t, "opt") {
        Some(EventKey::Flags(FLAG_ALTERNATE))
    } else if str_eq(t, "shift") {
        Some(EventKey::Flags(FLAG_SHIFT))
    } else if str_eq(t, "ctrl") {
        Some(EventKey::Flags(FLAG_CONTROL))
    } else {
        None
    }
}

} // verus!
