//! Hotkey combinations: leading sigils, modifier sigils and the main key.
use vstd::prelude::*;
use crate::keys::{
    catalog_key_of, unknown_key_message, KEY_LEFTALT, KEY_LEFTCTRL, KEY_LEFTMETA, KEY_LEFTSHIFT,
};
use crate::text::{find_from, fold, has_between, lemma_find_from, trim, trimmed};

verus! {

/// A parsed hotkey combination. The sigil modifiers stand in the fixed order
/// Ctrl, Alt, Shift, Meta, followed by the first key of an `A & B` form.
pub struct KeyCombo {
    pub modifiers: Vec<u16>,
    pub key: u16,
    pub wildcard: bool,
}

/// `~` and `*` (pass-through, wildcard) and `$` (force).
pub open spec fn is_lead_sigil(c: char) -> bool {
    c == '~' || c == '*' || c == '$'
}

/// `^ ! + #`: Ctrl, Alt, Shift, Meta.
pub open spec fn is_mod_sigil(c: char) -> bool {
    c == '^' || c == '!' || c == '+' || c == '#'
}

pub open spec fn scan_lead(s: Seq<char>, i: int) -> int
    decreases s.len() - i,
{
    if 0 <= i < s.len() && is_lead_sigil(s[i]) {
        scan_lead(s, i + 1)
    } else {
        i
    }
}

pub open spec fn scan_mods(s: Seq<char>, i: int) -> int
    decreases s.len() - i,
{
    if 0 <= i < s.len() && is_mod_sigil(s[i]) {
        scan_mods(s, i + 1)
    } else {
        i
    }
}

/// End of the leading `~ * $` run.
pub open spec fn lead_end(s: Seq<char>) -> int {
    scan_lead(s, 0)
}

/// End of the modifier sigil run that follows it.
pub open spec fn mods_end(s: Seq<char>) -> int {
    scan_mods(s, lead_end(s))
}

/// The modifier keys named by the sigils between `from` and `to`, as a set
/// written in canonical order.
pub open spec fn sigil_modifiers(s: Seq<char>, from: int, to: int) -> Seq<u16> {
    (if has_between(s, from, to, '^') { seq![KEY_LEFTCTRL] } else { Seq::empty() })
        + (if has_between(s, from, to, '!') { seq![KEY_LEFTALT] } else { Seq::empty() })
        + (if has_between(s, from, to, '+') { seq![KEY_LEFTSHIFT] } else { Seq::empty() })
        + (if has_between(s, from, to, '#') { seq![KEY_LEFTMETA] } else { Seq::empty() })
}

/// The text after all sigils.
pub open spec fn combo_rest(s: Seq<char>) -> Seq<char> {
    s.subrange(mods_end(s), s.len() as int)
}

/// The key names of the combination: one name, or the two of `A & B`.
pub open spec fn combo_names(s: Seq<char>) -> (Option<Seq<char>>, Seq<char>) {
    let rest = combo_rest(s);
    match find_from(rest, '&', 0) {
        Some(j) => (Some(trim(rest.subrange(0, j))), trim(rest.subrange(j + 1, rest.len() as int))),
        None => (None, trim(rest)),
    }
}

/// Whether a combination parses: every key name is in the catalog.
pub open spec fn combo_ok(s: Seq<char>) -> bool {
    let (a, b) = combo_names(s);
    (a is None || catalog_key_of(fold(a->0)) is Some) && catalog_key_of(fold(b)) is Some
}

/// Modifiers of a combination that parses.
pub open spec fn combo_modifiers(s: Seq<char>) -> Seq<u16> {
    let (a, b) = combo_names(s);
    let m = sigil_modifiers(s, lead_end(s), mods_end(s));
    match a {
        Some(a) => m.push(catalog_key_of(fold(a))->0),
        None => m,
    }
}

/// Main key of a combination that parses.
pub open spec fn combo_key(s: Seq<char>) -> u16 {
    catalog_key_of(fold(combo_names(s).1))->0
}

/// Whether the leading sigils mark the combination as a wildcard.
pub open spec fn combo_wildcard(s: Seq<char>) -> bool {
    has_between(s, 0, lead_end(s), '~') || has_between(s, 0, lead_end(s), '*')
}

/// The error text of a combination that does not parse: the first unknown name.
pub open spec fn combo_error(s: Seq<char>) -> Seq<char> {
    let (a, b) = combo_names(s);
    if a is Some && catalog_key_of(fold(a->0)) is None {
        unknown_key_message(a->0)
    } else {
        unknown_key_message(b)
    }
}

fn key_of_chars(n: &Vec<char>) -> (r: Result<u16, String>)
    ensures
        catalog_key_of(fold(n@)) is Some ==> r == Ok::<u16, String>(
            catalog_key_of(fold(n@))->0,
        ),
        catalog_key_of(fold(n@)) is None ==> r is Err && r->Err_0@ == unknown_key_message(n@),
{
    let name = crate::text::chars_to_string(n);
    crate::keys::string_to_key(name.as_str())
}

/// Parses a hotkey combination such as `~^!a`, `$#F1` or `CapsLock & j`.
pub fn parse_key_combo(combo: &str) -> (r: Result<KeyCombo, String>)
    ensures
        combo_ok(combo@) ==> r is Ok && r->Ok_0.modifiers@ == combo_modifiers(combo@)
            && r->Ok_0.key == combo_key(combo@) && r->Ok_0.wildcard == combo_wildcard(combo@),
        !combo_ok(combo@) ==> r is Err && r->Err_0@ == combo_error(combo@),
{
    let s = crate::text::to_chars(combo);
    let len = s.len();
    let mut i: usize = 0;
    let mut wildcard = false;
    while i < len && (s[i] == '~' || s[i] == '*' || s[i] == '$')
        invariant
            len == s@.len(),
            s@ == combo@,
            0 <= i <= len,
            scan_lead(s@, 0) == scan_lead(s@, i as int),
            wildcard == (has_between(s@, 0, i as int, '~') || has_between(s@, 0, i as int, '*')),
        decreases len - i,
    {
        if s[i] == '~' || s[i] == '*' {
            wildcard = true;
        }
        i = i + 1;
    }
    let le = i;
    let mut ctrl = false;
    let mut alt = false;
    let mut shift = false;
    let mut meta = false;
    while i < len && (s[i] == '^' || s[i] == '!' || s[i] == '+' || s[i] == '#')
        invariant
            len == s@.len(),
            s@ == combo@,
            le == lead_end(s@),
            le <= i <= len,
            scan_mods(s@, le as int) == scan_mods(s@, i as int),
            ctrl == has_between(s@, le as int, i as int, '^'),
            alt == has_between(s@, le as int, i as int, '!'),
            shift == has_between(s@, le as int, i as int, '+'),
            meta == has_between(s@, le as int, i as int, '#'),
        decreases len - i,
    {
        if s[i] == '^' {
            ctrl = true;
        } else if s[i] == '!' {
            alt = true;
        } else if s[i] == '+' {
            shift = true;
        } else {
            meta = true;
        }
        i = i + 1;
    }
    let me = i;
    let mut modifiers: Vec<u16> = Vec::new();
    if ctrl {
        modifiers.push(KEY_LEFTCTRL);
    }
    if alt {
        modifiers.push(KEY_LEFTALT);
    }
    if shift {
        modifiers.push(KEY_LEFTSHIFT);
    }
    if meta {
        modifiers.push(KEY_LEFTMETA);
    }
    assert(modifiers@ =~= sigil_modifiers(s@, le as int, me as int));
    let rest = crate::text::slice(&s, me, len);
    assert(rest@ == combo_rest(combo@));
    match crate::text::find_char(&rest, '&', 0) {
        Some(j) => {
            proof {
                lemma_find_from(rest@, '&', 0);
            }
            let a = trimmed(&rest, 0, j);
            let b = trimmed(&rest, j + 1, rest.len());
            let ka = match key_of_chars(&a) {
                Ok(k) => k,
                Err(e) => {
                    return Err(e);
                },
            };
            let kb = match key_of_chars(&b) {
                Ok(k) => k,
                Err(e) => {
                    return Err(e);
                },
            };
            modifiers.push(ka);
            Ok(KeyCombo { modifiers, key: kb, wildcard })
        },
        None => {
            let b = trimmed(&rest, 0, rest.len());
            assert(rest@.subrange(0, rest@.len() as int) =~= rest@);
            let kb = match key_of_chars(&b) {
                Ok(k) => k,
                Err(e) => {
                    return Err(e);
                },
            };
            Ok(KeyCombo { modifiers, key: kb, wildcard })
        },
    }
}

proof fn lemma_scan_mods_prefix(p: Seq<char>, rest: Seq<char>, i: int)
    requires
        0 <= i <= p.len(),
        forall|k: int| 0 <= k < p.len() ==> is_mod_sigil(p[k]),
        rest.len() > 0 ==> !is_mod_sigil(rest[0]),
    ensures
        scan_mods(p + rest, i) == p.len(),
    decreases p.len() - i,
{
    if i < p.len() {
        lemma_scan_mods_prefix(p, rest, i + 1);
    }
}

proof fn lemma_sigil_prefix(p: Seq<char>, rest: Seq<char>)
    requires
        p.len() > 0,
        forall|k: int| 0 <= k < p.len() ==> is_mod_sigil(p[k]),
        rest.len() > 0 ==> !is_mod_sigil(rest[0]),
    ensures
        lead_end(p + rest) == 0,
        mods_end(p + rest) == p.len(),
        combo_rest(p + rest) == rest,
        forall|c: char| has_between(p + rest, 0, p.len() as int, c) == p.contains(c),
{
    let s = p + rest;
    assert(s[0] == p[0]);
    lemma_scan_mods_prefix(p, rest, 0);
    assert(combo_rest(s) =~= rest);
    assert forall|c: char| has_between(s, 0, p.len() as int, c) == p.contains(c) by {
        if p.contains(c) {
            let k = choose|k: int| 0 <= k < p.len() && p[k] == c;
            assert(s[k] == c);
        }
        if has_between(s, 0, p.len() as int, c) {
            let k = choose|k: int| 0 <= k < p.len() && s[k] == c;
            assert(p[k] == c);
        }
    }
}

/// Modifier sigils may be written in any order: two runs of modifier sigils
/// that hold the same sigils, put before the same key text, parse to the
/// same combination (or to the same error).
pub proof fn lemma_sigil_order_irrelevant(run_a: Seq<char>, run_b: Seq<char>, rest: Seq<char>)
    requires
        forall|k: int| 0 <= k < run_a.len() ==> is_mod_sigil(run_a[k]),
        forall|k: int| 0 <= k < run_b.len() ==> is_mod_sigil(run_b[k]),
        forall|c: char| run_a.contains(c) <==> run_b.contains(c),
        rest.len() > 0 ==> !is_mod_sigil(rest[0]),
    ensures
        combo_ok(run_a + rest) == combo_ok(run_b + rest),
        combo_modifiers(run_a + rest) == combo_modifiers(run_b + rest),
        combo_key(run_a + rest) == combo_key(run_b + rest),
        combo_wildcard(run_a + rest) == combo_wildcard(run_b + rest),
        combo_error(run_a + rest) == combo_error(run_b + rest),
{
    if run_a.len() == 0 || run_b.len() == 0 {
        if run_a.len() > 0 {
            assert(run_b.contains(run_a[0]));
        }
        if run_b.len() > 0 {
            assert(run_a.contains(run_b[0]));
        }
        assert(run_a =~= run_b);
    } else {
        let s1 = run_a + rest;
        let s2 = run_b + rest;
        lemma_sigil_prefix(run_a, rest);
        lemma_sigil_prefix(run_b, rest);
        assert(run_a.contains('^') == run_b.contains('^'));
        assert(has_between(s1, 0, run_a.len() as int, '^') == has_between(s2, 0, run_b.len() as int, '^'));
        assert(run_a.contains('!') == run_b.contains('!'));
        assert(has_between(s1, 0, run_a.len() as int, '!') == has_between(s2, 0, run_b.len() as int, '!'));
        assert(run_a.contains('+') == run_b.contains('+'));
        assert(has_between(s1, 0, run_a.len() as int, '+') == has_between(s2, 0, run_b.len() as int, '+'));
        assert(run_a.contains('#') == run_b.contains('#'));
        assert(has_between(s1, 0, run_a.len() as int, '#') == has_between(s2, 0, run_b.len() as int, '#'));
        assert(!has_between(s1, 0, 0, '~') && !has_between(s1, 0, 0, '*'));
        assert(!has_between(s2, 0, 0, '~') && !has_between(s2, 0, 0, '*'));
    }
}

} // verus!
