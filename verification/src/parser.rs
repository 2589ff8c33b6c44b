//! The combo parser: a total, deterministic function from textual combo
//! descriptors to canonical match keys.
//!
//! A combo descriptor is split on `+` into tokens. Folding the tokens
//! left-to-right, a keycode token overwrites any earlier keycode and a
//! modifier token unions its flag into the accumulated modifier set;
//! unknown tokens are silently ignored. A combo that names no keycode
//! contributes nothing to the result.

use vstd::prelude::*;
use vstd::string::StrSliceExecFns;
use crate::keys::{EventKey, token_lookup, lookup_token};

verus! {

/// The canonical match unit for one combo: the keycode that must be hit
/// together with the modifier flags that must all be held.
#[derive(Clone, Copy, Debug, PartialEq, Eq, Structural)]
pub struct ComboMatchKey {
    /// The physical key the combo requires.
    pub keycode: i64,
    /// The modifier flag bits the combo requires, as a union.
    pub modifiers: u64,
}

/// The ordered list of match keys one interception session blocks.
pub type EventKeys = Vec<ComboMatchKey>;

/// One step of the token fold: an unknown token changes nothing, a keycode
/// token overwrites the keycode seen so far, a modifier token unions its
/// flag bit into the accumulated modifier set.
pub open spec fn fold_token(acc: (Option<i64>, u64), t: Seq<char>) -> (Option<i64>, u64) {
    match token_lookup(t) {
        None => acc,
        Some(EventKey::Int(code)) => (Some(code), acc.1),
        Some(EventKey::Flags(f)) => (acc.0, acc.1 | f),
    }
}

/// Folds a token list left-to-right starting from `acc`.
pub open spec fn fold_tokens_from(acc: (Option<i64>, u64), tokens: Seq<Seq<char>>) -> (
    Option<i64>,
    u64,
)
    decreases tokens.len(),
{
    if tokens.len() == 0 {
        acc
    } else {
        fold_token(fold_tokens_from(acc, tokens.drop_last()), tokens.last())
    }
}

/// Folds a token list starting from no keycode and an empty modifier set.
pub open spec fn fold_tokens(tokens: Seq<Seq<char>>) -> (Option<i64>, u64) {
    fold_tokens_from((None, 0u64), tokens)
}

/// Splits a character sequence on `+`. The result always holds at least
/// one (possibly empty) token, and adjacent separators yield empty tokens,
/// exactly as the usual string split does.
pub open spec fn split_plus(s: Seq<char>) -> Seq<Seq<char>>
    decreases s.len(),
{
    if s.len() == 0 {
        seq![Seq::<char>::empty()]
    } else if s[0] == '+' {
        seq![Seq::<char>::empty()] + split_plus(s.skip(1))
    } else {
        let rest = split_plus(s.skip(1));
        rest.update(0, seq![s[0]] + rest[0])
    }
}

/// What one combo descriptor contributes: its match key, or nothing when
/// no token of the combo names a keycode.
pub open spec fn combo_match_key(s: Seq<char>) -> Option<ComboMatchKey> {
    let folded = fold_tokens(split_plus(s));
    match folded.0 {
        Some(code) => Some(ComboMatchKey { keycode: code, modifiers: folded.1 }),
        None => None,
    }
}

/// Parses an ordered list of combo descriptors into the match-key list:
/// each combo contributes its match key in input order, and combos without
/// a keycode are simply absent.
pub open spec fn parse_combos(combos: Seq<Seq<char>>) -> Seq<ComboMatchKey>
    decreases combos.len(),
{
    if combos.len() == 0 {
        Seq::empty()
    } else {
        let rest = parse_combos(combos.drop_last());
        match combo_match_key(combos.last()) {
            Some(k) => rest.push(k),
            None => rest,
        }
    }
}

/// A single left-to-right scan of a combo string that splits and folds at
/// once: `cur` is the token being read, `acc` the fold so far. This is the
/// shape the executable parser takes; it is proved equal to splitting
/// first and folding after.
pub open spec fn scan_combo(s: Seq<char>, acc: (Option<i64>, u64), cur: Seq<char>) -> (
    Option<i64>,
    u64,
)
    decreases s.len(),
{
    if s.len() == 0 {
        fold_token(acc, cur)
    } else if s[0] == '+' {
        scan_combo(s.skip(1), fold_token(acc, cur), Seq::<char>::empty())
    } else {
        scan_combo(s.skip(1), acc, cur.push(s[0]))
    }
}

/// A split never yields an empty token list.
pub proof fn lemma_split_plus_len(s: Seq<char>)
    ensures
        split_plus(s).len() >= 1,
    decreases s.len(),
{
    if s.len() == 0 {
    } else {
        lemma_split_plus_len(s.skip(1));
    }
}

/// Folding `[t] + tokens` from `acc` folds `t` first.
pub proof fn lemma_fold_tokens_from_cons(
    acc: (Option<i64>, u64),
    t: Seq<char>,
    tokens: Seq<Seq<char>>,
)
    ensures
        fold_tokens_from(acc, seq![t] + tokens) == fold_tokens_from(fold_token(acc, t), tokens),
    decreases tokens.len(),
{
    if tokens.len() == 0 {
        assert(seq![t] + tokens =~= seq![t]);
        assert((seq![t]).drop_last() =~= Seq::<Seq<char>>::empty());
        assert((seq![t]).last() == t);
        assert(fold_tokens_from(acc, Seq::<Seq<char>>::empty()) == acc);
        assert(fold_tokens_from(fold_token(acc, t), tokens) == fold_token(acc, t));
    } else {
        let whole = seq![t] + tokens;
        assert(whole.drop_last() =~= seq![t] + tokens.drop_last());
        assert(whole.last() == tokens.last());
        lemma_fold_tokens_from_cons(acc, t, tokens.drop_last());
    }
}

/// The first token of `tokens`, extended on the left with `cur`.
pub open spec fn prepend_first(cur: Seq<char>, tokens: Seq<Seq<char>>) -> Seq<Seq<char>> {
    tokens.update(0, cur + tokens[0])
}

/// The single left-to-right scan computes the same fold as splitting on
/// `+` first and folding the token list after.
pub proof fn lemma_scan_combo_split(s: Seq<char>, acc: (Option<i64>, u64), cur: Seq<char>)
    ensures
        scan_combo(s, acc, cur) == fold_tokens_from(acc, prepend_first(cur, split_plus(s))),
    decreases s.len(),
{
    lemma_split_plus_len(s);
    if s.len() == 0 {
        assert(cur + Seq::<char>::empty() =~= cur);
        assert(prepend_first(cur, split_plus(s)) =~= seq![cur]);
        assert((seq![cur]).drop_last() =~= Seq::<Seq<char>>::empty());
        assert((seq![cur]).last() == cur);
        assert(fold_tokens_from(acc, Seq::<Seq<char>>::empty()) == acc);
        assert(fold_tokens_from(acc, seq![cur]) == fold_token(acc, cur));
    } else if s[0] == '+' {
        let rest = split_plus(s.skip(1));
        lemma_split_plus_len(s.skip(1));
        assert(cur + (seq![Seq::<char>::empty()] + rest)[0] =~= cur);
        assert(prepend_first(cur, split_plus(s)) =~= seq![cur] + rest);
        lemma_fold_tokens_from_cons(acc, cur, rest);
        assert(Seq::<char>::empty() + rest[0] =~= rest[0]);
        assert(prepend_first(Seq::<char>::empty(), rest) =~= rest);
        lemma_scan_combo_split(s.skip(1), fold_token(acc, cur), Seq::<char>::empty());
    } else {
        let rest = split_plus(s.skip(1));
        lemma_split_plus_len(s.skip(1));
        assert(cur + (seq![s[0]] + rest[0]) =~= cur.push(s[0]) + rest[0]);
        assert(prepend_first(cur, split_plus(s)) =~= prepend_first(cur.push(s[0]), rest));
        lemma_scan_combo_split(s.skip(1), acc, cur.push(s[0]));
    }
}

/// Whether a token names a physical key.
pub open spec fn is_keycode_token(t: Seq<char>) -> bool {
    token_lookup(t) matches Some(EventKey::Int(_))
}

/// The keycode of the last keycode token of the list, if any.
pub open spec fn last_keycode(tokens: Seq<Seq<char>>) -> Option<i64>
    decreases tokens.len(),
{
    if tokens.len() == 0 {
        None
    } else {
        match token_lookup(tokens.last()) {
            Some(EventKey::Int(code)) => Some(code),
            _ => last_keycode(tokens.drop_last()),
        }
    }
}

/// The union of the flag bits of all modifier tokens of the list.
pub open spec fn modifier_union(tokens: Seq<Seq<char>>) -> u64
    decreases tokens.len(),
{
    if tokens.len() == 0 {
        0u64
    } else {
        match token_lookup(tokens.last()) {
            Some(EventKey::Flags(f)) => modifier_union(tokens.drop_last()) | f,
            _ => modifier_union(tokens.drop_last()),
        }
    }
}

proof fn lemma_or_zero(x: u64)
    ensures
        0u64 | x == x,
        x | 0u64 == x,
{
    assert(0u64 | x == x) by (bit_vector);
    assert(x | 0u64 == x) by (bit_vector);
}

proof fn lemma_or_assoc(x: u64, y: u64, z: u64)
    ensures
        (x | y) | z == x | (y | z),
{
    assert((x | y) | z == x | (y | z)) by (bit_vector);
}

proof fn lemma_fold_keycode_from(acc: (Option<i64>, u64), tokens: Seq<Seq<char>>)
    ensures
        fold_tokens_from(acc, tokens).0 == (match last_keycode(tokens) {
            Some(code) => Some(code),
            None => acc.0,
        }),
    decreases tokens.len(),
{
    if tokens.len() > 0 {
        lemma_fold_keycode_from(acc, tokens.drop_last());
    }
}

proof fn lemma_fold_modifiers_from(acc: (Option<i64>, u64), tokens: Seq<Seq<char>>)
    ensures
        fold_tokens_from(acc, tokens).1 == acc.1 | modifier_union(tokens),
    decreases tokens.len(),
{
    if tokens.len() == 0 {
        lemma_or_zero(acc.1);
    } else {
        lemma_fold_modifiers_from(acc, tokens.drop_last());
        match token_lookup(tokens.last()) {
            Some(EventKey::Flags(f)) => {
                lemma_or_assoc(acc.1, modifier_union(tokens.drop_last()), f);
            },
            _ => {},
        }
    }
}

/// Last keycode wins: folding a token list yields exactly the keycode of
/// the last keycode token, and no keycode when the list has none.
pub proof fn lemma_last_keycode_wins(tokens: Seq<Seq<char>>)
    ensures
        fold_tokens(tokens).0 == last_keycode(tokens),
{
    lemma_fold_keycode_from((None, 0u64), tokens);
}

/// Modifier union: folding a token list accumulates exactly the union of
/// the flag bits of its modifier tokens.
pub proof fn lemma_modifier_union(tokens: Seq<Seq<char>>)
    ensures
        fold_tokens(tokens).1 == modifier_union(tokens),
{
    lemma_fold_modifiers_from((None, 0u64), tokens);
    lemma_or_zero(modifier_union(tokens));
}

/// A token list with no keycode token folds to no keycode, so a combo of
/// pure modifiers never produces a match key.
pub proof fn lemma_no_keycode_no_match(tokens: Seq<Seq<char>>)
    requires
        forall|i: int| 0 <= i < tokens.len() ==> !is_keycode_token(tokens[i]),
    ensures
        last_keycode(tokens) is None,
        fold_tokens(tokens).0 is None,
    decreases tokens.len(),
{
    lemma_last_keycode_wins(tokens);
    if tokens.len() > 0 {
        assert(!is_keycode_token(tokens[tokens.len() - 1]));
        assert(forall|i: int|
            0 <= i < tokens.drop_last().len() ==> !is_keycode_token(tokens.drop_last()[i]));
        lemma_no_keycode_no_match(tokens.drop_last());
    }
}

proof fn lemma_fold_unknown_from(acc: (Option<i64>, u64), tokens: Seq<Seq<char>>, i: int)
    requires
        0 <= i < tokens.len(),
        token_lookup(tokens[i]) is None,
    ensures
        fold_tokens_from(acc, tokens.remove(i)) == fold_tokens_from(acc, tokens),
    decreases tokens.len(),
{
    if i == tokens.len() - 1 {
        assert(tokens.remove(i) =~= tokens.drop_last());
    } else {
        let shorter = tokens.remove(i);
        assert(shorter.drop_last() =~= tokens.drop_last().remove(i));
        assert(shorter.last() == tokens.last());
        lemma_fold_unknown_from(acc, tokens.drop_last(), i);
    }
}

/// Unknown tokens are ignored: removing a token the table does not know
/// leaves the fold of the list unchanged.
pub proof fn lemma_unknown_token_ignored(tokens: Seq<Seq<char>>, i: int)
    requires
        0 <= i < tokens.len(),
        token_lookup(tokens[i]) is None,
    ensures
        fold_tokens(tokens.remove(i)) == fold_tokens(tokens),
{
    lemma_fold_unknown_from((None, 0u64), tokens, i);
}

/// What one combo contributes, characterized over its token list: the
/// match key pairs the last keycode named by the combo with the union of
/// its modifier flags, and a combo naming no keycode contributes nothing.
pub proof fn lemma_combo_match_key_characterization(s: Seq<char>)
    ensures
        combo_match_key(s) == (match last_keycode(split_plus(s)) {
            Some(code) => Some(
                ComboMatchKey { keycode: code, modifiers: modifier_union(split_plus(s)) },
            ),
            None => None::<ComboMatchKey>,
        }),
{
    lemma_last_keycode_wins(split_plus(s));
    lemma_modifier_union(split_plus(s));
}

/// Parsing is deterministic and order-preserving: when every combo of the
/// list yields a match key, the output lists exactly those match keys, in
/// input order. (Determinism needs no proof of its own: the parse is a
/// function of the input alone.)
pub proof fn lemma_parse_preserves_order(combos: Seq<Seq<char>>)
    requires
        forall|i: int| 0 <= i < combos.len() ==> combo_match_key(combos[i]) is Some,
    ensures
        parse_combos(combos).len() == combos.len(),
        forall|i: int|
            0 <= i < combos.len() ==> Some(#[trigger] parse_combos(combos)[i]) == combo_match_key(
                combos[i],
            ),
    decreases combos.len(),
{
    if combos.len() > 0 {
        assert(forall|i: int|
            0 <= i < combos.drop_last().len() ==> combo_match_key(combos.drop_last()[i]) is Some);
        lemma_parse_preserves_order(combos.drop_last());
        assert(combo_match_key(combos.last()) is Some);
        assert(forall|i: int|
            0 <= i < combos.len() - 1 ==> combos.drop_last()[i] == combos[i]);
    }
}

fn apply_token(kc: Option<i64>, fl: u64, t: &str) -> (r: (Option<i64>, u64))
    ensures
        r == fold_token((kc, fl), t@),
{
    match lookup_token(t) {
        None => (kc, fl),
        Some(EventKey::Int(code)) => (Some(code), fl),
        Some(EventKey::Flags(f)) => (kc, fl | f),
    }
}

/// Parses one combo descriptor into its match key, or `None` when the
/// combo names no keycode. Never fails: unknown tokens are ignored.
pub fn parse_combo(s: &str) -> (r: Option<ComboMatchKey>)
    ensures
        r == combo_match_key(s@),
{
    let n = s.unicode_len();
    let mut start: usize = 0;
    let mut i: usize = 0;
    let mut kc: Option<i64> = None;
    let mut fl: u64 = 0;
    proof {
        assert(s@.skip(0) =~= s@);
        assert(s@.subrange(0, 0) =~= Seq::<char>::empty());
    }
    while i < n
        invariant
            n == s@.len(),
            0 <= start <= i <= n,
            scan_combo(s@.skip(i as int), (kc, fl), s@.subrange(start as int, i as int))
                == scan_combo(s@, (None, 0u64), Seq::<char>::empty()),
        decreases n - i,
    {
        let c = s.get_char(i);
        if c == '+' {
            let tok = s.substring_char(start, i);
            let folded = apply_token(kc, fl, tok);
            proof {
                assert(s@.skip(i as int)[0] == s@[i as int]);
                assert(s@.skip(i as int).skip(1) =~= s@.skip(i as int + 1));
                assert(s@.subrange(i as int + 1, i as int + 1) =~= Seq::<char>::empty());
            }
            kc = folded.0;
            fl = folded.1;
            start = i + 1;
            i = i + 1;
        } else {
            proof {
                assert(s@.skip(i as int)[0] == s@[i as int]);
                assert(s@.skip(i as int).skip(1) =~= s@.skip(i as int + 1));
                assert(s@.subrange(start as int, i as int).push(s@[i as int]) =~= s@.subrange(
                    start as int,
                    i as int + 1,
                ));
            }
            i = i + 1;
        }
    }
    let tok = s.substring_char(start, n);
    let folded = apply_token(kc, fl, tok);
    proof {
        assert(s@.skip(n as int) =~= Seq::<char>::empty());
        lemma_scan_combo_split(s@, (None, 0u64), Seq::<char>::empty());
        lemma_split_plus_len(s@);
        assert(Seq::<char>::empty() + split_plus(s@)[0] =~= split_plus(s@)[0]);
        assert(prepend_first(Seq::<char>::empty(), split_plus(s@)) =~= split_plus(s@));
    }
    match folded.0 {
        Some(code) => Some(ComboMatchKey { keycode: code, modifiers: folded.1 }),
        None => None,
    }
}

/// Parses an ordered list of combo descriptors into the list of match
/// keys to block, in input order, dropping combos that name no keycode.
pub fn convert_hotkeys_to_event_keys(hotkeys: &Vec<String>) -> (r: EventKeys)
    ensures
        r@ == parse_combos(hotkeys.deep_view()),
{
    let mut out: EventKeys = Vec::new();
    let mut idx: usize = 0;
    proof {
        assert(hotkeys.deep_view().take(0) =~= Seq::<Seq<char>>::empty());
    }
    while idx < hotkeys.len()
        invariant
            0 <= idx <= hotkeys.len(),
            hotkeys.deep_view().len() == hotkeys@.len(),
            out@ == parse_combos(hotkeys.deep_view().take(idx as int)),
        decreases hotkeys.len() - idx,
    {
        let combo: &String = &hotkeys[idx];
        let parsed = parse_combo(combo.as_str());
        proof {
            let dv = hotkeys.deep_view();
            assert(dv[idx as int] == hotkeys@[idx as int]@);
            assert(dv.take(idx as int + 1).drop_last() =~= dv.take(idx as int));
            assert(dv.take(idx as int + 1).last() == dv[idx as int]);
        }
        match parsed {
            Some(k) => out.push(k),
            None => (),
        }
        idx += 1;
    }
    proof {
        assert(hotkeys.deep_view().take(hotkeys@.len() as int) =~= hotkeys.deep_view());
    }
    out
}

} // verus!
