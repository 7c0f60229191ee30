//! Line-oriented parser of the hotkey script language.
//!
//! Lines are trimmed; empty lines and `;` comments are skipped. An action
//! that cannot be parsed aborts the whole parse with an error naming the
//! text and the hotkey line it belongs to, inside a block as at the top
//! level: no partial script is returned.
use vstd::prelude::*;
use crate::combo::{combo_error, combo_key, combo_modifiers, combo_ok, combo_wildcard, parse_key_combo};
use crate::keys::catalog_key_of;
use crate::text::{
    chars_to_string, find_from, fold, fold_vec, is_ws, push_char, slice, starts_with, starts_with_lit_at,
    string_of, to_chars, trim, trimmed,
};
use crate::types::{
    criteria_view, node_of, nodes_of, AhkAction, AhkConfig, AhkHotkey, AhkHotstring, CriteriaView,
    Node, WindowCriteria,
};

verus! {

pub open spec fn is_alnum(c: char) -> bool {
    ('a' <= c && c <= 'z') || ('A' <= c && c <= 'Z') || ('0' <= c && c <= '9')
}

/// Whether `t` begins with the keyword `kw` (given in lower case), in any
/// case, and the keyword is not the start of a longer word.
pub open spec fn kw_match(t: Seq<char>, kw: Seq<char>) -> bool {
    kw.len() <= t.len() && fold(t.subrange(0, kw.len() as int)) == kw && (t.len() == kw.len()
        || !is_alnum(t[kw.len() as int]))
}

/// An argument list without its parentheses, or without a leading comma.
pub open spec fn strip_parens(r: Seq<char>) -> Seq<char> {
    if r.len() >= 2 && r[0] == '(' && r.last() == ')' {
        trim(r.subrange(1, r.len() - 1))
    } else if r.len() >= 1 && r[0] == ',' {
        trim(r.subrange(1, r.len() as int))
    } else {
        r
    }
}

/// A text without its surrounding double or single quotes.
pub open spec fn strip_quotes(r: Seq<char>) -> Seq<char> {
    if r.len() >= 2 && ((r[0] == '"' && r.last() == '"') || (r[0] == '\'' && r.last() == '\'')) {
        r.subrange(1, r.len() - 1)
    } else {
        r
    }
}

/// The argument of the command whose keyword takes the first `n` characters.
pub open spec fn arg_of(t: Seq<char>, n: int) -> Seq<char> {
    strip_quotes(strip_parens(trim(t.subrange(n, t.len() as int))))
}

/// What a backtick escape stands for; an unknown one stays as written.
pub open spec fn escape_of(c: char) -> Seq<char> {
    if c == 'n' {
        seq!['\n']
    } else if c == 'r' {
        seq!['\r']
    } else if c == 't' {
        seq!['\t']
    } else if c == '`' || c == '"' || c == '\'' {
        seq![c]
    } else {
        seq!['`', c]
    }
}

/// A text with its backtick escapes replaced.
pub open spec fn unescape(s: Seq<char>) -> Seq<char>
    decreases s.len(),
{
    if s.len() == 0 {
        Seq::empty()
    } else if s[0] == '`' && s.len() >= 2 {
        escape_of(s[1]) + unescape(s.subrange(2, s.len() as int))
    } else {
        seq![s[0]] + unescape(s.subrange(1, s.len() as int))
    }
}

/// Splitting into words: the words so far and the word being read.
pub open spec fn words_scan(s: Seq<char>) -> (Seq<Seq<char>>, Seq<char>)
    decreases s.len(),
{
    if s.len() == 0 {
        (Seq::empty(), Seq::empty())
    } else {
        let (done, cur) = words_scan(s.drop_last());
        if is_ws(s.last()) {
            if cur.len() > 0 {
                (done.push(cur), Seq::empty())
            } else {
                (done, cur)
            }
        } else {
            (done, cur.push(s.last()))
        }
    }
}

/// The whitespace-separated words of a text.
pub open spec fn words(s: Seq<char>) -> Seq<Seq<char>> {
    let (done, cur) = words_scan(s);
    if cur.len() > 0 {
        done.push(cur)
    } else {
        done
    }
}

pub open spec fn is_digit(c: char) -> bool {
    '0' <= c && c <= '9'
}

/// The value of a run of decimal digits.
pub open spec fn digits_value(s: Seq<char>) -> int
    decreases s.len(),
{
    if s.len() == 0 {
        0
    } else {
        digits_value(s.drop_last()) * 10 + (s.last() as int - '0' as int)
    }
}

/// A decimal number that fits in 64 bits.
pub open spec fn u64_of(s: Seq<char>) -> Option<u64> {
    if s.len() > 0 && (forall|i: int| 0 <= i < s.len() ==> is_digit(s[i])) && digits_value(s)
        <= u64::MAX {
        Some(digits_value(s) as u64)
    } else {
        None
    }
}

/// Window criteria: `ahk_exe NAME`, `ahk_class NAME`, or a title.
pub open spec fn criteria_of(s: Seq<char>) -> CriteriaView {
    if starts_with(s, "ahk_exe "@) {
        CriteriaView::Exe(trim(s.subrange(8, s.len() as int)))
    } else if starts_with(s, "ahk_class "@) {
        CriteriaView::Class(trim(s.subrange(10, s.len() as int)))
    } else {
        CriteriaView::Title(s)
    }
}

/// The action of one line.
pub open spec fn action_of(t: Seq<char>) -> Result<Node, Seq<char>> {
    if kw_match(t, "run"@) {
        Ok(Node::Run(words(arg_of(t, 3))))
    } else if kw_match(t, "sendinput"@) || kw_match(t, "sendevent"@) {
        Ok(Node::Send(unescape(arg_of(t, 9))))
    } else if kw_match(t, "send"@) {
        Ok(Node::Send(unescape(arg_of(t, 4))))
    } else if kw_match(t, "sleep"@) {
        match u64_of(arg_of(t, 5)) {
            Some(n) => Ok(Node::Sleep(n)),
            None => Err("Invalid sleep duration: "@ + t),
        }
    } else if kw_match(t, "winactivate"@) {
        Ok(Node::WinActivate(criteria_of(arg_of(t, 11))))
    } else if kw_match(t, "winclose"@) {
        Ok(Node::WinClose(criteria_of(arg_of(t, 8))))
    } else if kw_match(t, "winwaitactive"@) {
        Ok(Node::WinWaitActive(criteria_of(arg_of(t, 13)), None))
    } else {
        match catalog_key_of(fold(t)) {
            Some(k) => Ok(Node::Remap(seq![k])),
            None => Err("Unknown action: "@ + t),
        }
    }
}

/// The outcome of parsing an action, in terms of what the action stands for.
pub open spec fn action_result(r: Result<AhkAction, String>) -> Result<Node, Seq<char>> {
    match r {
        Ok(a) => Ok(node_of(a)),
        Err(e) => Err(e@),
    }
}

fn kw_exec(t: &Vec<char>, kw: &str) -> (r: bool)
    ensures
        r == kw_match(t@, kw@),
{
    let n = kw.unicode_len();
    if n > t.len() {
        return false;
    }
    let head = slice(t, 0, n);
    let low = fold_vec(&head);
    assert(low@.subrange(0, low@.len() as int) =~= low@);
    if !starts_with_lit_at(&low, 0, kw) || low.len() != n {
        return false;
    }
    assert(low@ =~= kw@);
    if t.len() == n {
        true
    } else {
        let c = t[n];
        !(('a' <= c && c <= 'z') || ('A' <= c && c <= 'Z') || ('0' <= c && c <= '9'))
    }
}

fn arg_exec(t: &Vec<char>, n: usize) -> (r: Vec<char>)
    requires
        n <= t@.len(),
    ensures
        r@ == arg_of(t@, n as int),
{
    let r1 = trimmed(t, n, t.len());
    let len1 = r1.len();
    let r2 = if len1 >= 2 && r1[0] == '(' && r1[len1 - 1] == ')' {
        trimmed(&r1, 1, len1 - 1)
    } else if len1 >= 1 && r1[0] == ',' {
        trimmed(&r1, 1, len1)
    } else {
        r1
    };
    assert(r2@ == strip_parens(r1@));
    let len2 = r2.len();
    if len2 >= 2 && ((r2[0] == '"' && r2[len2 - 1] == '"') || (r2[0] == '\'' && r2[len2 - 1] == '\'')) {
        slice(&r2, 1, len2 - 1)
    } else {
        r2
    }
}

proof fn lemma_unescape_step(s: Seq<char>, i: int)
    requires
        0 <= i < s.len(),
    ensures
        s[i] == '`' && i + 1 < s.len() ==> unescape(s.subrange(i, s.len() as int)) == escape_of(
            s[i + 1],
        ) + unescape(s.subrange(i + 2, s.len() as int)),
        !(s[i] == '`' && i + 1 < s.len()) ==> unescape(s.subrange(i, s.len() as int)) == seq![
            s[i],
        ] + unescape(s.subrange(i + 1, s.len() as int)),
{
    let r = s.subrange(i, s.len() as int);
    if i + 1 < s.len() {
        assert(r.subrange(2, r.len() as int) =~= s.subrange(i + 2, s.len() as int));
    }
    assert(r.subrange(1, r.len() as int) =~= s.subrange(i + 1, s.len() as int));
}

/// Replaces the backtick escapes of a quoted argument.
pub fn unescape_exec(s: &Vec<char>) -> (r: Vec<char>)
    ensures
        r@ == unescape(s@),
{
    let mut out: Vec<char> = Vec::new();
    let mut i: usize = 0;
    let n = s.len();
    assert(s@.subrange(0, n as int) =~= s@);
    assert(out@ + unescape(s@) =~= unescape(s@));
    while i < n
        invariant
            n == s@.len(),
            i <= n,
            out@ + unescape(s@.subrange(i as int, n as int)) == unescape(s@),
        decreases n - i,
    {
        proof {
            lemma_unescape_step(s@, i as int);
        }
        let ghost before = out@;
        if s[i] == '`' && i + 1 < n {
            let c = s[i + 1];
            if c == 'n' {
                out.push('\n');
            } else if c == 'r' {
                out.push('\r');
            } else if c == 't' {
                out.push('\t');
            } else if c == '`' || c == '"' || c == '\'' {
                out.push(c);
            } else {
                out.push('`');
                out.push(c);
            }
            assert(out@ =~= before + escape_of(c));
            assert(out@ + unescape(s@.subrange(i + 2, n as int)) =~= before + unescape(
                s@.subrange(i as int, n as int),
            ));
            i = i + 2;
        } else {
            out.push(s[i]);
            assert(out@ + unescape(s@.subrange(i + 1, n as int)) =~= before + unescape(
                s@.subrange(i as int, n as int),
            ));
            i = i + 1;
        }
    }
    assert(s@.subrange(0, n as int) =~= s@);
    assert(s@.subrange(n as int, n as int) =~= Seq::<char>::empty());
    assert(out@ + Seq::<char>::empty() =~= out@);
    out
}

/// The whitespace-separated words of a text.
pub fn split_words(s: &Vec<char>) -> (r: Vec<String>)
    ensures
        r@.map_values(|w: String| w@) == words(s@),
{
    let mut done: Vec<String> = Vec::new();
    let mut cur: Vec<char> = Vec::new();
    let mut i: usize = 0;
    while i < s.len()
        invariant
            i <= s@.len(),
            done@.map_values(|w: String| w@) == words_scan(s@.subrange(0, i as int)).0,
            cur@ == words_scan(s@.subrange(0, i as int)).1,
        decreases s@.len() - i,
    {
        assert(s@.subrange(0, i + 1).drop_last() =~= s@.subrange(0, i as int));
        let c = s[i];
        if c == ' ' || c == '\t' || c == '\r' || c == '\n' {
            if cur.len() > 0 {
                let w = chars_to_string(&cur);
                let ghost d = done@.map_values(|w: String| w@);
                done.push(w);
                assert(done@.map_values(|w: String| w@) =~= d.push(cur@));
                cur = Vec::new();
            }
        } else {
            cur.push(c);
        }
        i = i + 1;
    }
    assert(s@.subrange(0, s@.len() as int) =~= s@);
    if cur.len() > 0 {
        let w = chars_to_string(&cur);
        let ghost d = done@.map_values(|w: String| w@);
        done.push(w);
        assert(done@.map_values(|w: String| w@) =~= d.push(cur@));
    }
    done
}

/// Reads a decimal number that fits in 64 bits.
pub fn parse_u64(s: &Vec<char>) -> (r: Option<u64>)
    ensures
        r == u64_of(s@),
{
    if s.len() == 0 {
        return None;
    }
    let mut v: u64 = 0;
    let mut i: usize = 0;
    while i < s.len()
        invariant
            i <= s@.len(),
            s@.len() > 0,
            v as int == digits_value(s@.subrange(0, i as int)),
            forall|k: int| 0 <= k < i ==> is_digit(s@[k]),
        decreases s@.len() - i,
    {
        assert(s@.subrange(0, i + 1).drop_last() =~= s@.subrange(0, i as int));
        let c = s[i];
        if !('0' <= c && c <= '9') {
            return None;
        }
        let d = (c as u32 - '0' as u32) as u64;
        if v > (u64::MAX - d) / 10 {
            proof {
                lemma_digits_grow(s@, i as int);
            }
            return None;
        }
        v = v * 10 + d;
        i = i + 1;
    }
    assert(s@.subrange(0, s@.len() as int) =~= s@);
    Some(v)
}

proof fn lemma_digits_nonneg(s: Seq<char>)
    requires
        forall|k: int| 0 <= k < s.len() ==> is_digit(s[k]),
    ensures
        digits_value(s) >= 0,
    decreases s.len(),
{
    if s.len() > 0 {
        lemma_digits_nonneg(s.drop_last());
    }
}

proof fn lemma_digits_prefix_le(s: Seq<char>, j: int)
    requires
        0 <= j <= s.len(),
        forall|k: int| 0 <= k < s.len() ==> is_digit(s[k]),
    ensures
        digits_value(s.subrange(0, j)) <= digits_value(s),
    decreases s.len() - j,
{
    if j < s.len() {
        lemma_digits_prefix_le(s, j + 1);
        assert(s.subrange(0, j + 1).drop_last() =~= s.subrange(0, j));
        lemma_digits_nonneg(s.subrange(0, j));
    } else {
        assert(s.subrange(0, j) =~= s);
    }
}

proof fn lemma_digits_grow(s: Seq<char>, i: int)
    requires
        0 <= i < s.len(),
        forall|k: int| 0 <= k < i ==> is_digit(s[k]),
        is_digit(s[i]),
        digits_value(s.subrange(0, i)) * 10 + (s[i] as int - '0' as int) > u64::MAX,
    ensures
        u64_of(s) is None,
{
    if forall|k: int| 0 <= k < s.len() ==> is_digit(s[k]) {
        assert(s.subrange(0, i + 1).drop_last() =~= s.subrange(0, i));
        lemma_digits_prefix_le(s, i + 1);
    }
}

fn criteria_exec(s: &Vec<char>) -> (r: WindowCriteria)
    ensures
        criteria_view(r) == criteria_of(s@),
{
    assert(s@.subrange(0, s@.len() as int) =~= s@);
    if starts_with_lit_at(s, 0, "ahk_exe ") {
        proof {
            reveal_strlit("ahk_exe ");
        }
        WindowCriteria::Exe(chars_to_string(&trimmed(s, 8, s.len())))
    } else if starts_with_lit_at(s, 0, "ahk_class ") {
        proof {
            reveal_strlit("ahk_class ");
        }
        WindowCriteria::Class(chars_to_string(&trimmed(s, 10, s.len())))
    } else {
        WindowCriteria::Title(chars_to_string(s))
    }
}

fn concat_lit(lit: &str, t: &Vec<char>) -> (r: String)
    ensures
        r@ == lit@ + t@,
{
    let mut r = string_of(lit);
    let mut i: usize = 0;
    while i < t.len()
        invariant
            i <= t@.len(),
            r@ == lit@ + t@.subrange(0, i as int),
        decreases t@.len() - i,
    {
        push_char(&mut r, t[i]);
        i = i + 1;
        assert(r@ =~= lit@ + t@.subrange(0, i as int));
    }
    assert(t@.subrange(0, t@.len() as int) =~= t@);
    r
}

/// Parses the action of one line (already trimmed).
pub fn parse_action(t: &Vec<char>) -> (r: Result<AhkAction, String>)
    ensures
        action_result(r) == action_of(t@),
{
    proof {
        reveal_strlit("run");
        reveal_strlit("sendinput");
        reveal_strlit("sendevent");
        reveal_strlit("send");
        reveal_strlit("sleep");
        reveal_strlit("winactivate");
        reveal_strlit("winclose");
        reveal_strlit("winwaitactive");
    }
    if kw_exec(t, "run") {
        let a = arg_exec(t, 3);
        let parts = split_words(&a);
        Ok(AhkAction::Run(parts))
    } else if kw_exec(t, "sendinput") || kw_exec(t, "sendevent") {
        let a = arg_exec(t, 9);
        Ok(AhkAction::Send(chars_to_string(&unescape_exec(&a))))
    } else if kw_exec(t, "send") {
        let a = arg_exec(t, 4);
        Ok(AhkAction::Send(chars_to_string(&unescape_exec(&a))))
    } else if kw_exec(t, "sleep") {
        let a = arg_exec(t, 5);
        match parse_u64(&a) {
            Some(n) => Ok(AhkAction::Sleep(n)),
            None => Err(concat_lit("Invalid sleep duration: ", t)),
        }
    } else if kw_exec(t, "winactivate") {
        Ok(AhkAction::WinActivate(criteria_exec(&arg_exec(t, 11))))
    } else if kw_exec(t, "winclose") {
        Ok(AhkAction::WinClose(criteria_exec(&arg_exec(t, 8))))
    } else if kw_exec(t, "winwaitactive") {
        Ok(AhkAction::WinWaitActive { criteria: criteria_exec(&arg_exec(t, 13)), timeout_ms: None })
    } else {
        let name = chars_to_string(t);
        match crate::keys::string_to_key(name.as_str()) {
            Ok(k) => {
                let v: Vec<u16> = vec![k];
                assert(v@ =~= seq![k]);
                Ok(AhkAction::Remap(v))
            },
            Err(_) => Err(concat_lit("Unknown action: ", t)),
        }
    }
}

/// Splitting into lines: the lines so far and the line being read.
pub open spec fn lines_scan(s: Seq<char>) -> (Seq<Seq<char>>, Seq<char>)
    decreases s.len(),
{
    if s.len() == 0 {
        (Seq::empty(), Seq::empty())
    } else {
        let (done, cur) = lines_scan(s.drop_last());
        if s.last() == '\n' {
            (done.push(trim(cur)), Seq::empty())
        } else {
            (done, cur.push(s.last()))
        }
    }
}

/// The trimmed lines of a text.
pub open spec fn lines_of(s: Seq<char>) -> Seq<Seq<char>> {
    let (done, cur) = lines_scan(s);
    done.push(trim(cur))
}

pub open spec fn lines_view(v: Seq<Vec<char>>) -> Seq<Seq<char>> {
    v.map_values(|l: Vec<char>| l@)
}

/// Splits a text into trimmed lines.
pub fn split_lines(s: &str) -> (r: Vec<Vec<char>>)
    ensures
        lines_view(r@) == lines_of(s@),
{
    let v = to_chars(s);
    let mut done: Vec<Vec<char>> = Vec::new();
    let mut cur: Vec<char> = Vec::new();
    let mut i: usize = 0;
    while i < v.len()
        invariant
            i <= v@.len(),
            v@ == s@,
            lines_view(done@) == lines_scan(v@.subrange(0, i as int)).0,
            cur@ == lines_scan(v@.subrange(0, i as int)).1,
        decreases v@.len() - i,
    {
        assert(v@.subrange(0, i + 1).drop_last() =~= v@.subrange(0, i as int));
        if v[i] == '\n' {
            let l = trimmed(&cur, 0, cur.len());
            assert(cur@.subrange(0, cur@.len() as int) =~= cur@);
            let ghost d = lines_view(done@);
            done.push(l);
            assert(lines_view(done@) =~= d.push(trim(cur@)));
            cur = Vec::new();
        } else {
            cur.push(v[i]);
        }
        i = i + 1;
    }
    assert(v@.subrange(0, v@.len() as int) =~= v@);
    let l = trimmed(&cur, 0, cur.len());
    assert(cur@.subrange(0, cur@.len() as int) =~= cur@);
    let ghost d = lines_view(done@);
    done.push(l);
    assert(lines_view(done@) =~= d.push(trim(cur@)));
    done
}

/// Deepest brace nesting a `Shell` block may reach.
pub const MAX_DEPTH: usize = 1000000;

/// Lines that carry nothing: empty, or a `;` comment.
pub open spec fn is_skip(l: Seq<char>) -> bool {
    l.len() == 0 || l[0] == ';'
}

/// `If WinActive("...") {`
pub open spec fn is_if_open(l: Seq<char>) -> bool {
    kw_match(l, "if"@) && l.len() > 2 && l.last() == '{'
}

/// The condition of an `If` line: between the keyword and the brace.
pub open spec fn if_condition(l: Seq<char>) -> Seq<char> {
    trim(l.subrange(2, l.len() - 1))
}

/// `Shell {`
pub open spec fn is_shell_open(l: Seq<char>) -> bool {
    kw_match(l, "shell"@) && l.len() > 5 && l.last() == '{' && trim(l.subrange(5, l.len() - 1)).len()
        == 0
}

pub open spec fn is_else_open(l: Seq<char>) -> bool {
    l == "else {"@ || l == "else{"@
}

pub open spec fn is_close_else(l: Seq<char>) -> bool {
    l == "} else {"@ || l == "}else{"@ || l == "} else{"@ || l == "}else {"@
}

/// The window criteria of a `WinActive("...")` condition.
pub open spec fn condition_criteria(c: Seq<char>) -> Option<CriteriaView> {
    if kw_match(c, "winactive"@) {
        Some(criteria_of(arg_of(c, 9)))
    } else {
        None
    }
}

pub open spec fn count_char(l: Seq<char>, c: char) -> int
    decreases l.len(),
{
    if l.len() == 0 {
        0
    } else {
        count_char(l.drop_last(), c) + if l.last() == c {
            1int
        } else {
            0int
        }
    }
}

/// The raw script of a `Shell` block from line `i` on, with the brace depth
/// `depth`; lines are joined by line breaks. Returns the script and the line
/// after the block.
pub open spec fn shell_of(L: Seq<Seq<char>>, i: int, depth: int, acc: Seq<char>, started: bool) -> Result<
    (Seq<char>, int),
    Seq<char>,
>
    decreases L.len() - i,
{
    if i < 0 || i >= L.len() {
        Err("Unclosed block"@)
    } else {
        let o = count_char(L[i], '{');
        let d = depth + o - count_char(L[i], '}');
        if depth > MAX_DEPTH || o > MAX_DEPTH {
            Err("Block nesting too deep"@)
        } else if d <= 0 {
            Ok((acc, i + 1))
        } else {
            shell_of(
                L,
                i + 1,
                d,
                if started {
                    acc + seq!['\n'] + L[i]
                } else {
                    L[i]
                },
                true,
            )
        }
    }
}

/// Statements of a block from line `i` up to its closing brace. Returns the
/// statements, the line after the closing brace, and whether that brace was
/// `} else {`.
pub open spec fn block_of(L: Seq<Seq<char>>, i: int) -> Result<(Seq<Node>, int, bool), Seq<char>>
    decreases L.len() - i,
{
    if i < 0 || i >= L.len() {
        Err("Unclosed block"@)
    } else {
        let l = L[i];
        if is_skip(l) {
            block_of(L, i + 1)
        } else if l == "}"@ {
            Ok((Seq::empty(), i + 1, false))
        } else if is_close_else(l) {
            Ok((Seq::empty(), i + 1, true))
        } else if is_shell_open(l) {
            match shell_of(L, i + 1, 1, Seq::empty(), false) {
                Err(e) => Err(e),
                Ok((script, j)) => if i < j <= L.len() {
                    match block_of(L, j) {
                        Err(e) => Err(e),
                        Ok((rest, end, f)) => Ok((seq![Node::Shell(script)] + rest, end, f)),
                    }
                } else {
                    Err("Unclosed block"@)
                },
            }
        } else if is_if_open(l) {
            match condition_criteria(if_condition(l)) {
                None => Err("Unknown condition: "@ + l),
                Some(crit) => match block_of(L, i + 1) {
                    Err(e) => Err(e),
                    Ok((then_nodes, j, else_inline)) => if !(i < j <= L.len()) {
                        Err("Unclosed block"@)
                    } else if else_inline || (j < L.len() && is_else_open(L[j])) {
                        let k = if else_inline {
                            j
                        } else {
                            j + 1
                        };
                        match block_of(L, k) {
                            Err(e) => Err(e),
                            Ok((else_nodes, m, _)) => if i < m <= L.len() {
                                match block_of(L, m) {
                                    Err(e) => Err(e),
                                    Ok((rest, end, f)) => Ok(
                                        (
                                            seq![Node::IfWinActive(crit, then_nodes, Some(else_nodes))]
                                                + rest,
                                            end,
                                            f,
                                        ),
                                    ),
                                }
                            } else {
                                Err("Unclosed block"@)
                            },
                        }
                    } else {
                        match block_of(L, j) {
                            Err(e) => Err(e),
                            Ok((rest, end, f)) => Ok(
                                (seq![Node::IfWinActive(crit, then_nodes, None)] + rest, end, f),
                            ),
                        }
                    },
                },
            }
        } else {
            match action_of(l) {
                Err(e) => Err(e),
                Ok(n) => match block_of(L, i + 1) {
                    Err(e) => Err(e),
                    Ok((rest, end, f)) => Ok((seq![n] + rest, end, f)),
                },
            }
        }
    }
}

fn count_exec(l: &Vec<char>, c: char) -> (r: usize)
    ensures
        r as int == count_char(l@, c),
        r <= l@.len(),
{
    let mut n: usize = 0;
    let mut i: usize = 0;
    while i < l.len()
        invariant
            i <= l@.len(),
            n <= i,
            n as int == count_char(l@.subrange(0, i as int), c),
        decreases l@.len() - i,
    {
        assert(l@.subrange(0, i + 1).drop_last() =~= l@.subrange(0, i as int));
        if l[i] == c {
            n = n + 1;
        }
        i = i + 1;
    }
    assert(l@.subrange(0, l@.len() as int) =~= l@);
    n
}

pub open spec fn shell_result(r: Result<(String, usize), String>) -> Result<(Seq<char>, int), Seq<char>> {
    match r {
        Ok((s, j)) => Ok((s@, j as int)),
        Err(e) => Err(e@),
    }
}

/// Reads the raw script of a `Shell` block starting at line `i`.
pub fn parse_shell(L: &Vec<Vec<char>>, i: usize) -> (r: Result<(String, usize), String>)
    ensures
        shell_result(r) == shell_of(lines_view(L@), i as int, 1, Seq::empty(), false),
{
    let ghost lv = lines_view(L@);
    let mut acc: Vec<char> = Vec::new();
    let mut started = false;
    let mut depth: usize = 1;
    let mut k: usize = i;
    while k < L.len()
        invariant
            lv == lines_view(L@),
            i <= k,
            1 <= depth,
            shell_of(lv, i as int, 1, Seq::empty(), false) == shell_of(lv, k as int, depth as int, acc@, started),
        decreases L@.len() - k,
    {
        let l = &L[k];
        assert(lv[k as int] == l@);
        let o = count_exec(l, '{');
        let c = count_exec(l, '}');
        if depth > MAX_DEPTH || o > MAX_DEPTH {
            return Err(string_of("Block nesting too deep"));
        }
        if c >= depth + o {
            return Ok((chars_to_string(&acc), k + 1));
        }
        let d = depth + o - c;
        let ghost old_acc = acc@;
        if started {
            acc.push('\n');
        } else {
            acc = Vec::new();
        }
        let mut j: usize = 0;
        let ghost base = acc@;
        while j < l.len()
            invariant
                j <= l@.len(),
                acc@ == base + l@.subrange(0, j as int),
            decreases l@.len() - j,
        {
            acc.push(l[j]);
            j = j + 1;
            assert(acc@ =~= base + l@.subrange(0, j as int));
        }
        assert(l@.subrange(0, l@.len() as int) =~= l@);
        assert(acc@ =~= (if started { old_acc + seq!['\n'] + l@ } else { l@ }));
        assert(shell_of(lv, k as int, depth as int, old_acc, started) == shell_of(
            lv,
            k + 1,
            d as int,
            if started { old_acc + seq!['\n'] + lv[k as int] } else { lv[k as int] },
            true,
        ));
        started = true;
        depth = d;
        k = k + 1;
    }
    Err(string_of("Unclosed block"))
}

pub open spec fn block_result(r: Result<(Vec<AhkAction>, usize, bool), String>) -> Result<
    (Seq<Node>, int, bool),
    Seq<char>,
> {
    match r {
        Ok((v, j, f)) => Ok((nodes_of(v@), j as int, f)),
        Err(e) => Err(e@),
    }
}

pub proof fn lemma_nodes_of_concat(a: Seq<AhkAction>, b: Seq<AhkAction>)
    ensures
        nodes_of(a + b) == nodes_of(a) + nodes_of(b),
    decreases b.len(),
{
    if b.len() == 0 {
        assert(a + b =~= a);
        assert(nodes_of(b) =~= Seq::<Node>::empty());
        assert(nodes_of(a) + nodes_of(b) =~= nodes_of(a));
    } else {
        assert((a + b).drop_last() =~= a + b.drop_last());
        lemma_nodes_of_concat(a, b.drop_last());
        assert(nodes_of(a) + nodes_of(b) =~= (nodes_of(a) + nodes_of(b.drop_last())).push(
            node_of(b.last()),
        ));
    }
}

fn prepend(a: AhkAction, rest: Vec<AhkAction>) -> (r: Vec<AhkAction>)
    ensures
        nodes_of(r@) == seq![node_of(a)] + nodes_of(rest@),
{
    let ghost an = node_of(a);
    let mut v: Vec<AhkAction> = Vec::new();
    v.push(a);
    let ghost first = v@;
    let mut rest = rest;
    let ghost rv = rest@;
    v.append(&mut rest);
    proof {
        lemma_nodes_of_concat(first, rv);
        assert(first.drop_last() =~= Seq::<AhkAction>::empty());
        assert(nodes_of(first.drop_last()) =~= Seq::<Node>::empty());
        assert(first.last() == first[0]);
        assert(nodes_of(first) =~= seq![an]);
    }
    v
}

fn is_close_else_exec(l: &Vec<char>) -> (r: bool)
    ensures
        r == is_close_else(l@),
{
    crate::text::eq_lit(l, "} else {") || crate::text::eq_lit(l, "}else{") || crate::text::eq_lit(
        l,
        "} else{",
    ) || crate::text::eq_lit(l, "}else {")
}

fn is_shell_open_exec(l: &Vec<char>) -> (r: bool)
    ensures
        r == is_shell_open(l@),
{
    proof {
        reveal_strlit("shell");
    }
    if !kw_exec(l, "shell") || l.len() <= 5 || l[l.len() - 1] != '{' {
        return false;
    }
    trimmed(l, 5, l.len() - 1).len() == 0
}

fn is_if_open_exec(l: &Vec<char>) -> (r: bool)
    ensures
        r == is_if_open(l@),
{
    proof {
        reveal_strlit("if");
    }
    kw_exec(l, "if") && l.len() > 2 && l[l.len() - 1] == '{'
}

fn condition_exec(l: &Vec<char>) -> (r: Option<WindowCriteria>)
    requires
        is_if_open(l@),
    ensures
        match r {
            Some(c) => condition_criteria(if_condition(l@)) == Some(criteria_view(c)),
            None => condition_criteria(if_condition(l@)) is None,
        },
{
    proof {
        reveal_strlit("winactive");
    }
    let c = trimmed(l, 2, l.len() - 1);
    if kw_exec(&c, "winactive") {
        Some(criteria_exec(&arg_exec(&c, 9)))
    } else {
        None
    }
}

/// Parses the statements of a block from line `i` to its closing brace.
pub fn parse_block(L: &Vec<Vec<char>>, i: usize) -> (r: Result<(Vec<AhkAction>, usize, bool), String>)
    ensures
        block_result(r) == block_of(lines_view(L@), i as int),
    decreases L@.len() - i,
{
    let ghost lv = lines_view(L@);
    if i >= L.len() {
        return Err(string_of("Unclosed block"));
    }
    let l = &L[i];
    assert(lv[i as int] == l@);
    if l.len() == 0 || l[0] == ';' {
        return parse_block(L, i + 1);
    }
    if crate::text::eq_lit(l, "}") {
        return Ok((Vec::new(), i + 1, false));
    }
    if is_close_else_exec(l) {
        return Ok((Vec::new(), i + 1, true));
    }
    if is_shell_open_exec(l) {
        match parse_shell(L, i + 1) {
            Err(e) => {
                return Err(e);
            },
            Ok((script, j)) => {
                if !(i < j && j <= L.len()) {
                    return Err(string_of("Unclosed block"));
                }
                match parse_block(L, j) {
                    Err(e) => {
                        return Err(e);
                    },
                    Ok((rest, end, f)) => {
                        return Ok((prepend(AhkAction::Shell(script), rest), end, f));
                    },
                }
            },
        }
    }
    if is_if_open_exec(l) {
        let crit = match condition_exec(l) {
            None => {
                return Err(concat_lit("Unknown condition: ", l));
            },
            Some(c) => c,
        };
        match parse_block(L, i + 1) {
            Err(e) => {
                return Err(e);
            },
            Ok((then_actions, j, else_inline)) => {
                if !(i < j && j <= L.len()) {
                    return Err(string_of("Unclosed block"));
                }
                let else_next = !else_inline && j < L.len() && (crate::text::eq_lit(&L[j], "else {")
                    || crate::text::eq_lit(&L[j], "else{"));
                if else_inline || else_next {
                    let k = if else_inline {
                        j
                    } else {
                        j + 1
                    };
                    match parse_block(L, k) {
                        Err(e) => {
                            return Err(e);
                        },
                        Ok((else_actions, m, _)) => {
                            if !(i < m && m <= L.len()) {
                                return Err(string_of("Unclosed block"));
                            }
                            match parse_block(L, m) {
                                Err(e) => {
                                    return Err(e);
                                },
                                Ok((rest, end, f)) => {
                                    let node = AhkAction::IfWinActive {
                                        criteria: crit,
                                        then_actions,
                                        else_actions: Some(else_actions),
                                    };
                                    return Ok((prepend(node, rest), end, f));
                                },
                            }
                        },
                    }
                } else {
                    match parse_block(L, j) {
                        Err(e) => {
                            return Err(e);
                        },
                        Ok((rest, end, f)) => {
                            let node = AhkAction::IfWinActive {
                                criteria: crit,
                                then_actions,
                                else_actions: None,
                            };
                            return Ok((prepend(node, rest), end, f));
                        },
                    }
                }
            },
        }
    }
    match parse_action(l) {
        Err(e) => Err(e),
        Ok(a) => match parse_block(L, i + 1) {
            Err(e) => Err(e),
            Ok((rest, end, f)) => Ok((prepend(a, rest), end, f)),
        },
    }
}

/// What a hotkey stands for.
pub struct HotkeyView {
    pub modifiers: Seq<u16>,
    pub key: u16,
    pub action: Node,
    pub context: Option<Seq<char>>,
    pub wildcard: bool,
}

/// What a hotstring stands for.
pub struct HotstringView {
    pub trigger: Seq<char>,
    pub replacement: Seq<char>,
    pub immediate: bool,
    pub case_sensitive: bool,
    pub omit_char: bool,
    pub execute: bool,
    pub context: Option<Seq<char>>,
}

pub open spec fn opt_view(o: Option<String>) -> Option<Seq<char>> {
    match o {
        Some(s) => Some(s@),
        None => None,
    }
}

pub open spec fn hotkey_view(h: AhkHotkey) -> HotkeyView {
    HotkeyView {
        modifiers: h.modifiers@,
        key: h.key,
        action: node_of(h.action),
        context: opt_view(h.context),
        wildcard: h.is_wildcard,
    }
}

pub open spec fn hotstring_view(h: AhkHotstring) -> HotstringView {
    HotstringView {
        trigger: h.trigger@,
        replacement: h.replacement@,
        immediate: h.immediate,
        case_sensitive: h.case_sensitive,
        omit_char: h.omit_char,
        execute: h.execute,
        context: opt_view(h.context),
    }
}

/// The context a `#HotIf` line sets: none for a bare `#HotIf`, else the
/// quoted text of `WinActive("...")`, with a leading `!` when negated.
pub open spec fn hotif_of(l: Seq<char>) -> Result<Option<Seq<char>>, Seq<char>> {
    let rest = trim(l.subrange(6, l.len() as int));
    if rest.len() == 0 {
        Ok(None)
    } else {
        let neg = rest[0] == '!';
        let c = if neg {
            trim(rest.subrange(1, rest.len() as int))
        } else {
            rest
        };
        if kw_match(c, "winactive"@) {
            Ok(
                Some(
                    if neg {
                        seq!['!'] + arg_of(c, 9)
                    } else {
                        arg_of(c, 9)
                    },
                ),
            )
        } else {
            Err("Invalid #HotIf directive: "@ + l)
        }
    }
}

/// A hotstring line `:OPTIONS:trigger::replacement`, without its context.
pub open spec fn hotstring_line_of(l: Seq<char>) -> Result<HotstringView, Seq<char>> {
    match find_from(l, ':', 1) {
        None => Err("Invalid hotstring: "@ + l),
        Some(j) => {
            let opts = l.subrange(1, j);
            let rest = l.subrange(j + 1, l.len() as int);
            match find_from(rest, ':', 0) {
                None => Err("Invalid hotstring: "@ + l),
                Some(k) => if k > 0 && k + 2 < rest.len() && rest[k + 1] == ':' {
                    Ok(
                        HotstringView {
                            trigger: rest.subrange(0, k),
                            replacement: rest.subrange(k + 2, rest.len() as int),
                            immediate: opts.contains('*'),
                            case_sensitive: opts.contains('C') || opts.contains('c'),
                            omit_char: opts.contains('O') || opts.contains('o'),
                            execute: opts.contains('X') || opts.contains('x'),
                            context: None,
                        },
                    )
                } else {
                    Err("Invalid hotstring: "@ + l)
                },
            }
        },
    }
}

/// A hotkey line's combination and right-hand side, split at the first `::`.
pub open spec fn hotkey_split(l: Seq<char>) -> Option<(Seq<char>, Seq<char>)> {
    match find_from(l, ':', 0) {
        Some(k) => if k > 0 && k + 1 < l.len() && l[k + 1] == ':' {
            Some((trim(l.subrange(0, k)), trim(l.subrange(k + 2, l.len() as int))))
        } else {
            None
        },
        None => None,
    }
}

pub open spec fn with_hotkey(h: HotkeyView, r: Result<(Seq<HotkeyView>, Seq<HotstringView>), Seq<char>>) -> Result<
    (Seq<HotkeyView>, Seq<HotstringView>),
    Seq<char>,
> {
    match r {
        Ok((a, b)) => Ok((seq![h] + a, b)),
        Err(e) => Err(e),
    }
}

pub open spec fn with_hotstring(h: HotstringView, r: Result<(Seq<HotkeyView>, Seq<HotstringView>), Seq<char>>) -> Result<
    (Seq<HotkeyView>, Seq<HotstringView>),
    Seq<char>,
> {
    match r {
        Ok((a, b)) => Ok((a, seq![h] + b)),
        Err(e) => Err(e),
    }
}

pub open spec fn combo_hotkey(combo: Seq<char>, action: Node, ctx: Option<Seq<char>>) -> HotkeyView {
    HotkeyView {
        modifiers: combo_modifiers(combo),
        key: combo_key(combo),
        action,
        context: ctx,
        wildcard: combo_wildcard(combo),
    }
}

/// An error message with the line it arose in.
pub open spec fn in_line(e: Seq<char>, l: Seq<char>) -> Seq<char> {
    e + " in line: "@ + l
}

fn with_line(e: String, l: &Vec<char>) -> (r: String)
    ensures
        r@ == in_line(e@, l@),
{
    let mut r = e;
    crate::text::push_str(&mut r, " in line: ");
    let mut i: usize = 0;
    let ghost base = r@;
    while i < l.len()
        invariant
            i <= l@.len(),
            r@ == base + l@.subrange(0, i as int),
        decreases l@.len() - i,
    {
        push_char(&mut r, l[i]);
        i = i + 1;
        assert(r@ =~= base + l@.subrange(0, i as int));
    }
    assert(l@.subrange(0, l@.len() as int) =~= l@);
    r
}

/// The hotkeys and hotstrings declared from line `i` on, under context `ctx`.
/// Lines that are neither directives, hotstrings nor hotkeys are ignored.
pub open spec fn script_from(L: Seq<Seq<char>>, i: int, ctx: Option<Seq<char>>) -> Result<
    (Seq<HotkeyView>, Seq<HotstringView>),
    Seq<char>,
>
    decreases L.len() - i,
{
    if i < 0 || i >= L.len() {
        Ok((Seq::empty(), Seq::empty()))
    } else {
        let l = L[i];
        if is_skip(l) {
            script_from(L, i + 1, ctx)
        } else if starts_with(l, "#HotIf"@) {
            match hotif_of(l) {
                Err(e) => Err(e),
                Ok(c) => script_from(L, i + 1, c),
            }
        } else if l[0] == ':' {
            match hotstring_line_of(l) {
                Err(e) => Err(e),
                Ok(h) => with_hotstring(HotstringView { context: ctx, ..h }, script_from(L, i + 1, ctx)),
            }
        } else {
            match hotkey_split(l) {
                None => script_from(L, i + 1, ctx),
                Some((combo, rhs)) => if !combo_ok(combo) {
                    Err(in_line(combo_error(combo), l))
                } else if rhs == "{"@ {
                    match block_of(L, i + 1) {
                        Err(e) => Err(in_line(e, l)),
                        Ok((nodes, j, f)) => if f {
                            Err("Unexpected else: "@ + l)
                        } else if i < j <= L.len() {
                            with_hotkey(
                                combo_hotkey(combo, Node::Block(nodes), ctx),
                                script_from(L, j, ctx),
                            )
                        } else {
                            Err(in_line("Unclosed block"@, l))
                        },
                    }
                } else {
                    match action_of(rhs) {
                        Err(e) => Err(in_line(e, l)),
                        Ok(n) => with_hotkey(combo_hotkey(combo, n, ctx), script_from(L, i + 1, ctx)),
                    }
                },
            }
        }
    }
}

/// The hotkeys and hotstrings of a script text.
pub open spec fn script_of(s: Seq<char>) -> Result<(Seq<HotkeyView>, Seq<HotstringView>), Seq<char>> {
    script_from(lines_of(s), 0, None)
}

pub open spec fn config_result(r: Result<AhkConfig, String>) -> Result<
    (Seq<HotkeyView>, Seq<HotstringView>),
    Seq<char>,
> {
    match r {
        Ok(c) => Ok(
            (
                c.hotkeys@.map_values(|h: AhkHotkey| hotkey_view(h)),
                c.hotstrings@.map_values(|h: AhkHotstring| hotstring_view(h)),
            ),
        ),
        Err(e) => Err(e@),
    }
}

/// The context a `#HotIf` line sets.
pub fn parse_hotif(l: &Vec<char>) -> (r: Result<Option<String>, String>)
    requires
        l@.len() >= 6,
    ensures
        match r {
            Ok(c) => hotif_of(l@) == Ok::<Option<Seq<char>>, Seq<char>>(opt_view(c)),
            Err(e) => hotif_of(l@) == Err::<Option<Seq<char>>, Seq<char>>(e@),
        },
{
    proof {
        reveal_strlit("winactive");
    }
    let rest = trimmed(l, 6, l.len());
    if rest.len() == 0 {
        return Ok(None);
    }
    let neg = rest[0] == '!';
    let c = if neg {
        trimmed(&rest, 1, rest.len())
    } else {
        rest
    };
    if kw_exec(&c, "winactive") {
        let a = arg_exec(&c, 9);
        if neg {
            let mut v: Vec<char> = vec!['!'];
            let mut a = a;
            let ghost av = a@;
            v.append(&mut a);
            assert(v@ =~= seq!['!'] + av);
            Ok(Some(chars_to_string(&v)))
        } else {
            Ok(Some(chars_to_string(&a)))
        }
    } else {
        Err(concat_lit("Invalid #HotIf directive: ", l))
    }
}

fn has_char(v: &Vec<char>, c: char) -> (r: bool)
    ensures
        r == v@.contains(c),
{
    let mut i: usize = 0;
    while i < v.len()
        invariant
            i <= v@.len(),
            forall|k: int| 0 <= k < i ==> v@[k] != c,
        decreases v@.len() - i,
    {
        if v[i] == c {
            assert(v@[i as int] == c);
            return true;
        }
        i = i + 1;
    }
    false
}

/// Parses a hotstring line, giving it the context `ctx`.
pub fn parse_hotstring(l: &Vec<char>, ctx: &Option<String>) -> (r: Result<AhkHotstring, String>)
    ensures
        match r {
            Ok(h) => hotstring_line_of(l@) is Ok && hotstring_view(h) == (HotstringView {
                context: opt_view(*ctx),
                ..hotstring_line_of(l@)->Ok_0
            }),
            Err(e) => hotstring_line_of(l@) == Err::<HotstringView, Seq<char>>(e@),
        },
{
    match crate::text::find_char(l, ':', 1) {
        None => Err(concat_lit("Invalid hotstring: ", l)),
        Some(j) => {
            proof {
                crate::text::lemma_find_from(l@, ':', 1);
            }
            assert(j < l.len());
            let opts = slice(l, 1, j);
            let rest = slice(l, j + 1, l.len());
            match crate::text::find_char(&rest, ':', 0) {
                None => Err(concat_lit("Invalid hotstring: ", l)),
                Some(k) => {
                    proof {
                        crate::text::lemma_find_from(rest@, ':', 0);
                    }
                    if k > 0 && k + 2 < rest.len() && rest[k + 1] == ':' {
                        let context = match ctx {
                            Some(c) => Some(c.clone()),
                            None => None,
                        };
                        Ok(
                            AhkHotstring {
                                trigger: chars_to_string(&slice(&rest, 0, k)),
                                replacement: chars_to_string(&slice(&rest, k + 2, rest.len())),
                                immediate: has_char(&opts, '*'),
                                case_sensitive: has_char(&opts, 'C') || has_char(&opts, 'c'),
                                omit_char: has_char(&opts, 'O') || has_char(&opts, 'o'),
                                execute: has_char(&opts, 'X') || has_char(&opts, 'x'),
                                context,
                            },
                        )
                    } else {
                        Err(concat_lit("Invalid hotstring: ", l))
                    }
                },
            }
        },
    }
}

/// Splits a hotkey line into its combination and its right-hand side.
pub fn parse_hotkey(l: &Vec<char>) -> (r: Option<(Vec<char>, Vec<char>)>)
    ensures
        match r {
            Some((a, b)) => hotkey_split(l@) == Some((a@, b@)),
            None => hotkey_split(l@) is None,
        },
{
    match crate::text::find_char(l, ':', 0) {
        Some(k) => {
            proof {
                crate::text::lemma_find_from(l@, ':', 0);
            }
            assert(k < l.len());
            if k > 0 && k + 1 < l.len() && l[k + 1] == ':' {
                Some((trimmed(l, 0, k), trimmed(l, k + 2, l.len())))
            } else {
                None
            }
        },
        None => None,
    }
}

fn clone_ctx(ctx: &Option<String>) -> (r: Option<String>)
    ensures
        opt_view(r) == opt_view(*ctx),
{
    match ctx {
        Some(c) => Some(c.clone()),
        None => None,
    }
}

#[verifier::rlimit(100)]
/// Parses a script text into its hotkeys and hotstrings. Each one carries the
/// context of the `#HotIf` directive above it, if any.
pub fn parse_ahk_content(content: &str) -> (r: Result<AhkConfig, String>)
    ensures
        config_result(r) == script_of(content@),
{
    proof {
        reveal_strlit("#HotIf");
    }
    let L = split_lines(content);
    let ghost lv = lines_view(L@);
    let mut hotkeys: Vec<AhkHotkey> = Vec::new();
    let mut hotstrings: Vec<AhkHotstring> = Vec::new();
    let mut ctx: Option<String> = None;
    let mut i: usize = 0;
    assert(script_from(lv, 0, None) == ({
        let r = script_from(lv, 0, None);
        match r {
            Ok((a, b)) => Ok((Seq::<HotkeyView>::empty() + a, Seq::<HotstringView>::empty() + b)),
            Err(e) => Err(e),
        }
    })) by {
        match script_from(lv, 0, None) {
            Ok((a, b)) => {
                assert(Seq::<HotkeyView>::empty() + a =~= a);
                assert(Seq::<HotstringView>::empty() + b =~= b);
            },
            Err(e) => {},
        }
    }
    while i < L.len()
        invariant
            lv == lines_view(L@),
            lv == lines_of(content@),
            i <= L@.len(),
            script_from(lv, 0, None) == (match script_from(lv, i as int, opt_view(ctx)) {
                Ok((a, b)) => Ok((
                    hotkeys@.map_values(|h: AhkHotkey| hotkey_view(h)) + a,
                    hotstrings@.map_values(|h: AhkHotstring| hotstring_view(h)) + b,
                )),
                Err(e) => Err(e),
            }),
        decreases L@.len() - i,
    {
        let l = &L[i];
        assert(lv[i as int] == l@);
        let ghost hk = hotkeys@.map_values(|h: AhkHotkey| hotkey_view(h));
        let ghost hs = hotstrings@.map_values(|h: AhkHotstring| hotstring_view(h));
        if l.len() == 0 || l[0] == ';' {
            i = i + 1;
        } else if starts_with_lit_at(l, 0, "#HotIf") {
            assert(l@.subrange(0, l@.len() as int) =~= l@);
            proof {
                reveal_strlit("#HotIf");
            }
            assert("#HotIf"@.len() == 6);
            match parse_hotif(l) {
                Err(e) => {
                    return Err(e);
                },
                Ok(c) => {
                    ctx = c;
                    i = i + 1;
                },
            }
        } else if l[0] == ':' {
            assert(l@.subrange(0, l@.len() as int) =~= l@);
            match parse_hotstring(l, &ctx) {
                Err(e) => {
                    return Err(e);
                },
                Ok(h) => {
                    let ghost hv = hotstring_view(h);
                    hotstrings.push(h);
                    assert(hotstrings@.map_values(|h: AhkHotstring| hotstring_view(h)) =~= hs.push(hv));
                    i = i + 1;
                    proof {
                        match script_from(lv, i as int, opt_view(ctx)) {
                            Ok((a, b)) => {
                                assert(hs.push(hv) + b =~= hs + (seq![hv] + b));
                            },
                            Err(e) => {},
                        }
                    }
                },
            }
        } else {
            assert(l@.subrange(0, l@.len() as int) =~= l@);
            match parse_hotkey(l) {
                None => {
                    i = i + 1;
                },
                Some((combo, rhs)) => {
                    let cs = chars_to_string(&combo);
                    let kc = match parse_key_combo(cs.as_str()) {
                        Err(e) => {
                            return Err(with_line(e, l));
                        },
                        Ok(kc) => kc,
                    };
                    let (action, next) = if crate::text::eq_lit(&rhs, "{") {
                        match parse_block(&L, i + 1) {
                            Err(e) => {
                                return Err(with_line(e, l));
                            },
                            Ok((v, j, f)) => {
                                if f {
                                    return Err(concat_lit("Unexpected else: ", l));
                                }
                                if !(i < j && j <= L.len()) {
                                    return Err(with_line(string_of("Unclosed block"), l));
                                }
                                (AhkAction::Block(v), j)
                            },
                        }
                    } else {
                        match parse_action(&rhs) {
                            Err(e) => {
                                return Err(with_line(e, l));
                            },
                            Ok(a) => (a, i + 1),
                        }
                    };
                    let h = AhkHotkey {
                        modifiers: kc.modifiers,
                        key: kc.key,
                        action,
                        context: clone_ctx(&ctx),
                        is_wildcard: kc.wildcard,
                    };
                    let ghost hv = hotkey_view(h);
                    hotkeys.push(h);
                    assert(hotkeys@.map_values(|h: AhkHotkey| hotkey_view(h)) =~= hk.push(hv));
                    i = next;
                    proof {
                        match script_from(lv, i as int, opt_view(ctx)) {
                            Ok((a, b)) => {
                                assert(hk.push(hv) + a =~= hk + (seq![hv] + a));
                            },
                            Err(e) => {},
                        }
                    }
                },
            }
        }
    }
    proof {
        assert(hotkeys@.map_values(|h: AhkHotkey| hotkey_view(h)) + Seq::<HotkeyView>::empty()
            =~= hotkeys@.map_values(|h: AhkHotkey| hotkey_view(h)));
        assert(hotstrings@.map_values(|h: AhkHotstring| hotstring_view(h)) + Seq::<HotstringView>::empty()
            =~= hotstrings@.map_values(|h: AhkHotstring| hotstring_view(h)));
    }
    Ok(AhkConfig { hotkeys, hotstrings })
}

} // verus!
