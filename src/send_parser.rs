//! Tokenizer for the key-sequence strings of `Send`.
use vstd::prelude::*;
use crate::combo::is_mod_sigil;
use crate::keys::{
    char_key, char_to_key, parse_special_key, special_key_of, KEY_LEFTALT, KEY_LEFTCTRL,
    KEY_LEFTMETA, KEY_LEFTSHIFT,
};
use crate::text::{chars_to_string, fold};

verus! {

/// A key with the modifiers written before it, or a run of literal text.
pub enum SendToken {
    Key { key: u16, modifiers: Vec<u16> },
    Text(String),
}

/// What a token stands for.
pub enum TokenView {
    Key(u16, Seq<u16>),
    Text(Seq<char>),
}

impl View for SendToken {
    type V = TokenView;

    open spec fn view(&self) -> TokenView {
        match self {
            SendToken::Key { key, modifiers } => TokenView::Key(*key, modifiers@),
            SendToken::Text(s) => TokenView::Text(s@),
        }
    }
}

/// The tokenizer's state after a prefix of the input.
pub struct SendScan {
    pub tokens: Seq<TokenView>,
    pub mods: Seq<u16>,
    pub text: Seq<char>,
    pub bracket: Option<Seq<char>>,
}

/// The modifier key of a sigil.
pub open spec fn sigil_key(c: char) -> u16 {
    if c == '^' {
        KEY_LEFTCTRL
    } else if c == '!' {
        KEY_LEFTALT
    } else if c == '+' {
        KEY_LEFTSHIFT
    } else {
        KEY_LEFTMETA
    }
}

pub open spec fn scan_init() -> SendScan {
    SendScan { tokens: Seq::empty(), mods: Seq::empty(), text: Seq::empty(), bracket: None }
}

/// Pending text becomes a token.
pub open spec fn flush_text(st: SendScan) -> SendScan {
    if st.text.len() > 0 {
        SendScan { tokens: st.tokens.push(TokenView::Text(st.text)), text: Seq::empty(), ..st }
    } else {
        st
    }
}

/// A key token with the pending modifiers, which it consumes.
pub open spec fn emit_key(st: SendScan, k: Option<u16>) -> SendScan {
    match k {
        Some(k) => SendScan {
            tokens: st.tokens.push(TokenView::Key(k, st.mods)),
            mods: Seq::empty(),
            ..st
        },
        None => st,
    }
}

/// One input character.
pub open spec fn scan_step(st: SendScan, c: char) -> SendScan {
    match st.bracket {
        Some(name) => if c == '}' {
            emit_key(SendScan { bracket: None, ..st }, special_key_of(fold(name)))
        } else {
            SendScan { bracket: Some(name.push(c)), ..st }
        },
        None => if is_mod_sigil(c) {
            let f = flush_text(st);
            SendScan { mods: f.mods.push(sigil_key(c)), ..f }
        } else if c == '{' {
            SendScan { bracket: Some(Seq::empty()), ..flush_text(st) }
        } else if st.mods.len() > 0 {
            emit_key(flush_text(st), char_key(c))
        } else {
            SendScan { text: st.text.push(c), ..st }
        },
    }
}

/// The state after the whole input.
pub open spec fn scan_all(s: Seq<char>) -> SendScan
    decreases s.len(),
{
    if s.len() == 0 {
        scan_init()
    } else {
        scan_step(scan_all(s.drop_last()), s.last())
    }
}

/// At the end, an unclosed brace is read as if closed, and text is flushed.
pub open spec fn scan_finish(st: SendScan) -> Seq<TokenView> {
    let st = match st.bracket {
        Some(name) => emit_key(SendScan { bracket: None, ..st }, special_key_of(fold(name))),
        None => st,
    };
    flush_text(st).tokens
}

/// The tokens of a send string.
pub open spec fn send_tokens(s: Seq<char>) -> Seq<TokenView> {
    scan_finish(scan_all(s))
}

pub open spec fn tokens_view(v: Seq<SendToken>) -> Seq<TokenView> {
    v.map_values(|t: SendToken| t@)
}

fn flush_exec(tokens: &mut Vec<SendToken>, text: &mut Vec<char>)
    ensures
        ({
            let st = SendScan { tokens: tokens_view(old(tokens)@), mods: Seq::empty(), text: old(text)@, bracket: None };
            &&& tokens_view(final(tokens)@) == flush_text(st).tokens
            &&& final(text)@ == flush_text(st).text
        }),
{
    if text.len() > 0 {
        let s = chars_to_string(text);
        tokens.push(SendToken::Text(s));
        text.clear();
        assert(tokens_view(final(tokens)@) =~= tokens_view(old(tokens)@).push(TokenView::Text(old(text)@)));
        assert(final(text)@ =~= Seq::<char>::empty());
    }
}

fn emit_exec(tokens: &mut Vec<SendToken>, mods: &mut Vec<u16>, k: Option<u16>)
    ensures
        ({
            let st = SendScan { tokens: tokens_view(old(tokens)@), mods: old(mods)@, text: Seq::empty(), bracket: None };
            &&& tokens_view(final(tokens)@) == emit_key(st, k).tokens
            &&& final(mods)@ == emit_key(st, k).mods
        }),
{
    match k {
        Some(key) => {
            let m = mods.clone();
            assert(m@ == old(mods)@);
            tokens.push(SendToken::Key { key, modifiers: m });
            mods.clear();
            assert(tokens_view(final(tokens)@) =~= tokens_view(old(tokens)@).push(TokenView::Key(key, old(mods)@)));
            assert(final(mods)@ =~= Seq::<u16>::empty());
        },
        None => {},
    }
}

/// Splits a send string into key tokens and literal text runs. A modifier
/// sigil (`^ ! + #`) applies to the next bracketed key or bare character; a
/// bare character with pending modifiers becomes a key token, so `^c` is
/// Ctrl+C. An unknown key name is dropped.
pub fn parse_send_string(input: &str) -> (r: Vec<SendToken>)
    ensures
        tokens_view(r@) == send_tokens(input@),
{
    let s = crate::text::to_chars(input);
    let mut tokens: Vec<SendToken> = Vec::new();
    let mut mods: Vec<u16> = Vec::new();
    let mut text: Vec<char> = Vec::new();
    let mut in_bracket = false;
    let mut name: Vec<char> = Vec::new();
    let mut i: usize = 0;
    while i < s.len()
        invariant
            s@ == input@,
            i <= s@.len(),
            ({
                let st = scan_all(s@.subrange(0, i as int));
                &&& tokens_view(tokens@) == st.tokens
                &&& mods@ == st.mods
                &&& text@ == st.text
                &&& in_bracket == st.bracket is Some
                &&& in_bracket ==> name@ == st.bracket->0
                &&& (mods@.len() > 0 || in_bracket) ==> text@.len() == 0
            }),
        decreases s@.len() - i,
    {
        let c = s[i];
        assert(s@.subrange(0, i + 1).drop_last() =~= s@.subrange(0, i as int));
        if in_bracket {
            if c == '}' {
                in_bracket = false;
                let nm = chars_to_string(&name);
                let k = parse_special_key(nm.as_str());
                emit_exec(&mut tokens, &mut mods, k);
            } else {
                name.push(c);
            }
        } else if c == '^' || c == '!' || c == '+' || c == '#' {
            flush_exec(&mut tokens, &mut text);
            let m = if c == '^' {
                KEY_LEFTCTRL
            } else if c == '!' {
                KEY_LEFTALT
            } else if c == '+' {
                KEY_LEFTSHIFT
            } else {
                KEY_LEFTMETA
            };
            mods.push(m);
        } else if c == '{' {
            flush_exec(&mut tokens, &mut text);
            in_bracket = true;
            name = Vec::new();
        } else if mods.len() > 0 {
            let k = char_to_key(c);
            emit_exec(&mut tokens, &mut mods, k);
        } else {
            text.push(c);
        }
        i = i + 1;
    }
    assert(s@.subrange(0, s@.len() as int) =~= s@);
    if in_bracket {
        let nm = chars_to_string(&name);
        let k = parse_special_key(nm.as_str());
        emit_exec(&mut tokens, &mut mods, k);
    }
    flush_exec(&mut tokens, &mut text);
    tokens
}

/// A send string made of bracketed key names only.
pub open spec fn bracketed(names: Seq<Seq<char>>) -> Seq<char>
    decreases names.len(),
{
    if names.len() == 0 {
        Seq::empty()
    } else {
        bracketed(names.drop_last()) + seq!['{'] + names.last() + seq!['}']
    }
}

pub open spec fn scan_from(st: SendScan, s: Seq<char>) -> SendScan
    decreases s.len(),
{
    if s.len() == 0 {
        st
    } else {
        scan_step(scan_from(st, s.drop_last()), s.last())
    }
}

proof fn lemma_scan_concat(a: Seq<char>, b: Seq<char>)
    ensures
        scan_all(a + b) == scan_from(scan_all(a), b),
    decreases b.len(),
{
    if b.len() == 0 {
        assert(a + b =~= a);
    } else {
        assert((a + b).drop_last() =~= a + b.drop_last());
        lemma_scan_concat(a, b.drop_last());
    }
}

proof fn lemma_scan_open(st: SendScan, name: Seq<char>)
    requires
        st.bracket is None,
        st.text.len() == 0,
        forall|k: int| 0 <= k < name.len() ==> name[k] != '}',
    ensures
        scan_from(st, seq!['{'] + name) == (SendScan { bracket: Some(name), ..st }),
    decreases name.len(),
{
    if name.len() == 0 {
        assert(seq!['{'] + name =~= seq!['{']);
        assert(seq!['{'].drop_last() =~= Seq::<char>::empty());
        assert(name =~= Seq::<char>::empty());
        assert(scan_from(st, seq!['{']) == scan_step(scan_from(st, Seq::<char>::empty()), '{'));
    } else {
        assert((seq!['{'] + name).drop_last() =~= seq!['{'] + name.drop_last());
        lemma_scan_open(st, name.drop_last());
        assert(name.drop_last().push(name.last()) =~= name);
        assert(name[name.len() - 1] != '}');
        assert((seq!['{'] + name).last() == name.last());
    }
}

/// The token of one known bracketed name, without modifiers.
pub open spec fn plain_key_token(n: Seq<char>) -> TokenView {
    TokenView::Key(special_key_of(fold(n))->0, Seq::empty())
}

proof fn lemma_scan_brackets(names: Seq<Seq<char>>)
    requires
        forall|i: int|
            0 <= i < names.len() ==> (forall|k: int|
                0 <= k < names[i].len() ==> names[i][k] != '}') && special_key_of(fold(names[i])) is Some,
    ensures
        scan_all(bracketed(names)) == (SendScan {
            tokens: names.map_values(|n: Seq<char>| plain_key_token(n)),
            mods: Seq::empty(),
            text: Seq::empty(),
            bracket: None,
        }),
    decreases names.len(),
{
    if names.len() == 0 {
        assert(names.map_values(|n: Seq<char>| plain_key_token(n)) =~= Seq::<TokenView>::empty());
    } else {
        let init = names.drop_last();
        let n = names.last();
        assert forall|i: int|
            0 <= i < init.len() implies (forall|k: int|
                0 <= k < init[i].len() ==> init[i][k] != '}') && special_key_of(fold(init[i])) is Some by {
            assert(init[i] == names[i]);
        }
        lemma_scan_brackets(init);
        let st = scan_all(bracketed(init));
        let chunk = seq!['{'] + n + seq!['}'];
        assert(bracketed(names) =~= bracketed(init) + chunk);
        lemma_scan_concat(bracketed(init), chunk);
        assert(chunk.drop_last() =~= seq!['{'] + n);
        lemma_scan_open(st, n);
        assert(names.map_values(|n: Seq<char>| plain_key_token(n)) =~= init.map_values(
            |n: Seq<char>| plain_key_token(n),
        ).push(plain_key_token(n)));
    }
}

/// A send string made only of bracketed key names, each one known and none
/// preceded by a sigil, gives one key token per bracket, in order, each
/// without modifiers.
pub proof fn lemma_brackets_only(names: Seq<Seq<char>>)
    requires
        forall|i: int|
            0 <= i < names.len() ==> (forall|k: int|
                0 <= k < names[i].len() ==> names[i][k] != '}') && special_key_of(fold(names[i])) is Some,
    ensures
        send_tokens(bracketed(names)) == names.map_values(|n: Seq<char>| plain_key_token(n)),
{
    lemma_scan_brackets(names);
}

} // verus!
