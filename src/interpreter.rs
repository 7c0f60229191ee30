//! Runtime interpreter of script actions.
//!
//! The interpreter evaluates an action tree against the window context it
//! was created with and expands it into primitive actions. Window conditions
//! read that context. Interpretation stops at a `WinWaitActive`: what is
//! left of the program goes into a wait action, and the dispatcher, once the
//! wait is over (each poll decided by `win_wait_step`), interprets it
//! against the window as it is by then.
use vstd::prelude::*;
use crate::action::{actions_view, key_action, push_action, strings_view, Action, ActionView};
use crate::keys::{shift_table, KEY_LEFTSHIFT};
use crate::multipurpose::{PRESS, RELEASE};
use crate::send_parser::{parse_send_string, send_tokens, tokens_view, SendToken, TokenView};
use crate::text::{push_char, push_str, starts_with, string_of, to_chars};
use crate::types::{copy_action, criteria_view, node_of, nodes_of, AhkAction, CriteriaView, Node, WindowCriteria};

verus! {

broadcast use vstd::std_specs::vec::axiom_vec_decreases_to_view, vstd::seq::axiom_seq_index_decreases;

/// Executes script actions against a snapshot of the active window.
pub struct AhkInterpreter {
    pub application_cache: Option<String>,
    pub title_cache: Option<String>,
}

/// A known value, or the empty text when unknown.
pub open spec fn or_empty(v: Option<String>) -> Seq<char> {
    match v {
        Some(s) => s@,
        None => Seq::empty(),
    }
}

/// Whether the window criteria hold for the given title and class: exact,
/// case-sensitive comparison.
pub open spec fn criteria_hold(c: WindowCriteria, title: Seq<char>, class: Seq<char>) -> bool {
    match c {
        WindowCriteria::Title(t) => title == t@,
        WindowCriteria::Class(k) => class == k@,
        WindowCriteria::Exe(e) => class == e@,
    }
}

/// Whether a command's first word is a web address.
pub open spec fn is_url(s: Seq<char>) -> bool {
    starts_with(s, "http://"@) || starts_with(s, "https://"@)
}

/// Words joined by single spaces.
pub open spec fn join_words(v: Seq<Seq<char>>) -> Seq<char>
    decreases v.len(),
{
    if v.len() == 0 {
        Seq::empty()
    } else if v.len() == 1 {
        v[0]
    } else {
        join_words(v.drop_last()) + seq![' '] + v.last()
    }
}

/// The command line of `Run`: a web address is opened, anything else is
/// run by the shell.
pub open spec fn run_command_of(parts: Seq<Seq<char>>) -> Seq<Seq<char>> {
    if parts.len() > 0 && is_url(parts[0]) {
        seq!["xdg-open"@, parts[0]]
    } else {
        seq!["/bin/sh"@, "-c"@, join_words(parts)]
    }
}

/// The window tool's search flag for the criteria.
pub open spec fn search_flag(c: WindowCriteria) -> Seq<char> {
    match c {
        WindowCriteria::Title(_) => "--name"@,
        WindowCriteria::Class(_) => "--class"@,
        WindowCriteria::Exe(_) => "--classname"@,
    }
}

pub open spec fn criteria_text(c: WindowCriteria) -> Seq<char> {
    match c {
        WindowCriteria::Title(t) => t@,
        WindowCriteria::Class(k) => k@,
        WindowCriteria::Exe(e) => e@,
    }
}

/// The window tool's command line: search, then act on what was found.
pub open spec fn window_command_of(action: Seq<char>, c: WindowCriteria) -> Seq<Seq<char>> {
    seq!["kdotool"@, "search"@, search_flag(c), criteria_text(c), action]
}

/// Key press and release actions of one character of literal text; Shift
/// is wrapped around the characters that need it.
pub open spec fn char_actions(c: char) -> Seq<ActionView> {
    match shift_table(c) {
        Some((k, true)) => seq![
            ActionView::Key(KEY_LEFTSHIFT, PRESS),
            ActionView::Key(k, PRESS),
            ActionView::Key(k, RELEASE),
            ActionView::Key(KEY_LEFTSHIFT, RELEASE),
        ],
        Some((k, false)) => seq![ActionView::Key(k, PRESS), ActionView::Key(k, RELEASE)],
        None => Seq::empty(),
    }
}

pub open spec fn text_actions(t: Seq<char>) -> Seq<ActionView>
    decreases t.len(),
{
    if t.len() == 0 {
        Seq::empty()
    } else {
        text_actions(t.drop_last()) + char_actions(t.last())
    }
}

/// Modifiers pressed in order, the key tapped, modifiers released in
/// reverse order.
pub open spec fn key_token_actions(k: u16, mods: Seq<u16>) -> Seq<ActionView> {
    mods.map_values(|m: u16| ActionView::Key(m, PRESS)) + seq![
        ActionView::Key(k, PRESS),
        ActionView::Key(k, RELEASE),
    ] + mods.reverse().map_values(|m: u16| ActionView::Key(m, RELEASE))
}

pub open spec fn token_actions(t: TokenView) -> Seq<ActionView> {
    match t {
        TokenView::Key(k, mods) => key_token_actions(k, mods),
        TokenView::Text(s) => text_actions(s),
    }
}

pub open spec fn tokens_actions(ts: Seq<TokenView>) -> Seq<ActionView>
    decreases ts.len(),
{
    if ts.len() == 0 {
        Seq::empty()
    } else {
        tokens_actions(ts.drop_last()) + token_actions(ts.last())
    }
}

/// The actions of `Send` on a key-sequence string.
pub open spec fn send_actions(s: Seq<char>) -> Seq<ActionView> {
    tokens_actions(send_tokens(s))
}

/// The actions of tapping each key in turn.
pub open spec fn remap_actions(keys: Seq<u16>) -> Seq<ActionView>
    decreases keys.len(),
{
    if keys.len() == 0 {
        Seq::empty()
    } else {
        remap_actions(keys.drop_last()) + seq![
            ActionView::Key(keys.last(), PRESS),
            ActionView::Key(keys.last(), RELEASE),
        ]
    }
}

/// Interpretation up to the first wait: the actions so far, and, if a
/// `WinWaitActive` was reached, its criteria, timeout and the rest of the
/// program after it.
pub struct Run {
    pub out: Seq<ActionView>,
    pub wait: Option<(CriteriaView, Option<u64>, Seq<Node>)>,
}

pub open spec fn done(out: Seq<ActionView>) -> Run {
    Run { out, wait: None }
}

/// One script action interpreted for the given window title and class, up
/// to the first wait.
pub open spec fn run(a: AhkAction, title: Seq<char>, class: Seq<char>) -> Run
    decreases a,
{
    match a {
        AhkAction::Run(parts) => done(seq![ActionView::Command(run_command_of(strings_view(parts@)))]),
        AhkAction::Send(s) => done(send_actions(s@)),
        AhkAction::Remap(keys) => done(remap_actions(keys@)),
        AhkAction::Sleep(ms) => done(seq![ActionView::Delay(ms)]),
        AhkAction::Shell(script) => done(seq![ActionView::Command(seq!["/bin/sh"@, "-c"@, script@])]),
        AhkAction::Block(v) => run_list(v@, title, class),
        AhkAction::WinActivate(c) => done(seq![ActionView::Command(window_command_of("windowactivate"@, c))]),
        AhkAction::WinClose(c) => done(seq![ActionView::Command(window_command_of("windowclose"@, c))]),
        AhkAction::IfWinActive { criteria, then_actions, else_actions } => if criteria_hold(
            criteria,
            title,
            class,
        ) {
            run_list(then_actions@, title, class)
        } else {
            match else_actions {
                Some(e) => run_list(e@, title, class),
                None => done(Seq::empty()),
            }
        },
        AhkAction::WinWaitActive { criteria, timeout_ms } => Run {
            out: Seq::empty(),
            wait: Some((criteria_view(criteria), timeout_ms, Seq::empty())),
        },
    }
}

/// A sequence of script actions interpreted in order, up to the first wait;
/// the actions after a wait are kept for later.
pub open spec fn run_list(v: Seq<AhkAction>, title: Seq<char>, class: Seq<char>) -> Run
    decreases v,
{
    if v.len() == 0 {
        done(Seq::empty())
    } else {
        let r = run_list(v.drop_last(), title, class);
        match r.wait {
            Some((c, t, rest)) => Run { out: r.out, wait: Some((c, t, rest.push(node_of(v.last())))) },
            None => {
                let s = run(v.last(), title, class);
                Run { out: r.out + s.out, wait: s.wait }
            },
        }
    }
}

/// The primitive actions of one script action, for the given window title
/// and class: those up to the first wait, then the wait with the rest.
pub open spec fn interp(a: AhkAction, title: Seq<char>, class: Seq<char>) -> Seq<ActionView> {
    let r = run(a, title, class);
    match r.wait {
        Some((c, t, rest)) => r.out.push(ActionView::WaitActive(c, t, rest)),
        None => r.out,
    }
}

pub open spec fn wait_view(w: Option<(WindowCriteria, Option<u64>, Vec<AhkAction>)>) -> Option<(CriteriaView, Option<u64>, Seq<Node>)> {
    match w {
        Some((c, t, rest)) => Some((criteria_view(c), t, nodes_of(rest@))),
        None => None,
    }
}

/// A text with each `'` written as `'\''`, for use inside single quotes.
pub open spec fn shell_escape(s: Seq<char>) -> Seq<char>
    decreases s.len(),
{
    if s.len() == 0 {
        Seq::empty()
    } else if s.last() == '\'' {
        shell_escape(s.drop_last()) + seq!['\'', '\\', '\'', '\'']
    } else {
        shell_escape(s.drop_last()).push(s.last())
    }
}

/// The window tool's command as one shell line.
pub open spec fn window_shell_of(c: WindowCriteria, action: Seq<char>) -> Seq<char> {
    "kdotool search "@ + search_flag(c) + seq![' ', '\''] + shell_escape(criteria_text(c))
        + seq!['\'', ' '] + action
}

fn starts_with_url(s: &String) -> (r: bool)
    ensures
        r == is_url(s@),
{
    let v = to_chars(s.as_str());
    assert(v@.subrange(0, v@.len() as int) =~= v@);
    crate::text::starts_with_lit_at(&v, 0, "http://") || crate::text::starts_with_lit_at(
        &v,
        0,
        "https://",
    )
}

fn join_exec(v: &Vec<String>) -> (r: String)
    ensures
        r@ == join_words(strings_view(v@)),
{
    let mut r = String::new();
    let mut i: usize = 0;
    while i < v.len()
        invariant
            i <= v@.len(),
            r@ == join_words(strings_view(v@.subrange(0, i as int))),
        decreases v@.len() - i,
    {
        let ghost before = strings_view(v@.subrange(0, i as int));
        assert(strings_view(v@.subrange(0, i + 1)).drop_last() =~= before);
        if i > 0 {
            push_char(&mut r, ' ');
        }
        push_str(&mut r, v[i].as_str());
        i = i + 1;
        if i == 1 {
            assert(strings_view(v@.subrange(0, 1)) =~= seq![v@[0]@]);
            assert(r@ =~= v@[0]@);
        } else {
            assert(r@ =~= join_words(strings_view(v@.subrange(0, i as int))));
        }
    }
    assert(v@.subrange(0, v@.len() as int) =~= v@);
    r
}

/// The command line of `Run` for the given words.
pub fn run_command(parts: &Vec<String>) -> (r: Vec<String>)
    ensures
        strings_view(r@) == run_command_of(strings_view(parts@)),
{
    let mut cmd: Vec<String> = Vec::new();
    if parts.len() > 0 && starts_with_url(&parts[0]) {
        cmd.push(string_of("xdg-open"));
        cmd.push(parts[0].clone());
    } else {
        cmd.push(string_of("/bin/sh"));
        cmd.push(string_of("-c"));
        cmd.push(join_exec(parts));
    }
    assert(strings_view(cmd@) =~= run_command_of(strings_view(parts@)));
    cmd
}

fn push_key(out: &mut Vec<Action>, k: u16, v: i32)
    ensures
        actions_view(final(out)@) == actions_view(old(out)@).push(ActionView::Key(k, v)),
{
    push_action(out, key_action(k, v));
}

fn push_char_actions(out: &mut Vec<Action>, c: char)
    ensures
        actions_view(final(out)@) == actions_view(old(out)@) + char_actions(c),
{
    let ghost o = actions_view(out@);
    match crate::keys::char_to_key_with_shift(c) {
        Some((k, true)) => {
            push_key(out, KEY_LEFTSHIFT, PRESS);
            push_key(out, k, PRESS);
            push_key(out, k, RELEASE);
            push_key(out, KEY_LEFTSHIFT, RELEASE);
        },
        Some((k, false)) => {
            push_key(out, k, PRESS);
            push_key(out, k, RELEASE);
        },
        None => {},
    }
    assert(actions_view(out@) =~= o + char_actions(c));
}

fn push_token_actions(out: &mut Vec<Action>, tok: &SendToken)
    ensures
        actions_view(final(out)@) == actions_view(old(out)@) + token_actions(tok@),
{
    let ghost o = actions_view(out@);
    match tok {
        SendToken::Text(s) => {
            let v = to_chars(s.as_str());
            let mut i: usize = 0;
            while i < v.len()
                invariant
                    i <= v@.len(),
                    v@ == s@,
                    actions_view(out@) == o + text_actions(v@.subrange(0, i as int)),
                decreases v@.len() - i,
            {
                assert(v@.subrange(0, i + 1).drop_last() =~= v@.subrange(0, i as int));
                push_char_actions(out, v[i]);
                i = i + 1;
                assert(actions_view(out@) =~= o + text_actions(v@.subrange(0, i as int)));
            }
            assert(v@.subrange(0, v@.len() as int) =~= v@);
        },
        SendToken::Key { key, modifiers } => {
            let n = modifiers.len();
            let mut i: usize = 0;
            while i < n
                invariant
                    i <= n,
                    n == modifiers@.len(),
                    actions_view(out@) == o + modifiers@.subrange(0, i as int).map_values(
                        |m: u16| ActionView::Key(m, PRESS),
                    ),
                decreases n - i,
            {
                push_key(out, modifiers[i], PRESS);
                i = i + 1;
                assert(actions_view(out@) =~= o + modifiers@.subrange(0, i as int).map_values(
                    |m: u16| ActionView::Key(m, PRESS),
                ));
            }
            assert(modifiers@.subrange(0, n as int) =~= modifiers@);
            push_key(out, *key, PRESS);
            push_key(out, *key, RELEASE);
            let ghost mid = actions_view(out@);
            let mut j: usize = n;
            while j > 0
                invariant
                    j <= n,
                    n == modifiers@.len(),
                    actions_view(out@) == mid + modifiers@.subrange(j as int, n as int).reverse().map_values(
                        |m: u16| ActionView::Key(m, RELEASE),
                    ),
                decreases j,
            {
                push_key(out, modifiers[j - 1], RELEASE);
                j = j - 1;
                assert(modifiers@.subrange(j as int, n as int).reverse() =~= modifiers@.subrange(
                    j + 1,
                    n as int,
                ).reverse().push(modifiers@[j as int]));
                assert(actions_view(out@) =~= mid + modifiers@.subrange(j as int, n as int).reverse().map_values(
                    |m: u16| ActionView::Key(m, RELEASE),
                ));
            }
            assert(modifiers@.subrange(0, n as int) =~= modifiers@);
            assert(actions_view(out@) =~= o + key_token_actions(*key, modifiers@));
        },
    }
}

/// The primitive actions of `Send` on a key-sequence string.
pub fn convert_send_to_actions(send_str: &str) -> (r: Vec<Action>)
    ensures
        actions_view(r@) == send_actions(send_str@),
{
    let tokens = parse_send_string(send_str);
    let mut out: Vec<Action> = Vec::new();
    let mut i: usize = 0;
    while i < tokens.len()
        invariant
            i <= tokens@.len(),
            actions_view(out@) == tokens_actions(tokens_view(tokens@.subrange(0, i as int))),
        decreases tokens@.len() - i,
    {
        assert(tokens_view(tokens@.subrange(0, i + 1)).drop_last() =~= tokens_view(
            tokens@.subrange(0, i as int),
        ));
        push_token_actions(&mut out, &tokens[i]);
        i = i + 1;
    }
    assert(tokens@.subrange(0, tokens@.len() as int) =~= tokens@);
    out
}

fn shell_escape_exec(s: &String) -> (r: String)
    ensures
        r@ == shell_escape(s@),
{
    let v = to_chars(s.as_str());
    let mut r = String::new();
    let mut i: usize = 0;
    while i < v.len()
        invariant
            i <= v@.len(),
            v@ == s@,
            r@ == shell_escape(v@.subrange(0, i as int)),
        decreases v@.len() - i,
    {
        assert(v@.subrange(0, i + 1).drop_last() =~= v@.subrange(0, i as int));
        if v[i] == '\'' {
            push_char(&mut r, '\'');
            push_char(&mut r, '\\');
            push_char(&mut r, '\'');
            push_char(&mut r, '\'');
        } else {
            push_char(&mut r, v[i]);
        }
        i = i + 1;
        assert(r@ =~= shell_escape(v@.subrange(0, i as int)));
    }
    assert(v@.subrange(0, v@.len() as int) =~= v@);
    r
}

fn criteria_parts(c: &WindowCriteria) -> (r: (String, String))
    ensures
        r.0@ == search_flag(*c),
        r.1@ == criteria_text(*c),
{
    match c {
        WindowCriteria::Title(t) => (string_of("--name"), t.clone()),
        WindowCriteria::Class(k) => (string_of("--class"), k.clone()),
        WindowCriteria::Exe(e) => (string_of("--classname"), e.clone()),
    }
}

/// How one poll of `WinWaitActive` ends.
#[derive(PartialEq, Eq, Structural, Clone, Copy)]
pub enum WaitStep {
    /// The window is active: go on.
    Done,
    /// The timeout has passed: give up and go on.
    TimedOut,
    /// Sleep one poll interval, then ask again.
    Poll,
}

/// Interval between two polls of `WinWaitActive`, in milliseconds.
pub const WAIT_POLL_MS: u64 = 50;

/// The decision after one poll of `WinWaitActive`, `elapsed_ms` after the
/// wait began: without a timeout it waits as long as it takes; with one it
/// makes `timeout / WAIT_POLL_MS` polls at most.
pub fn win_wait_step(active: bool, elapsed_ms: u64, timeout_ms: Option<u64>) -> (r: WaitStep)
    ensures
        active ==> r == WaitStep::Done,
        !active ==> match timeout_ms {
            Some(t) => (r == WaitStep::TimedOut) == (elapsed_ms / WAIT_POLL_MS + 1 >= t / WAIT_POLL_MS)
                && (r == WaitStep::Poll) == (elapsed_ms / WAIT_POLL_MS + 1 < t / WAIT_POLL_MS),
            None => r == WaitStep::Poll,
        },
{
    if active {
        WaitStep::Done
    } else {
        match timeout_ms {
            Some(t) => {
                if elapsed_ms / WAIT_POLL_MS + 1 >= t / WAIT_POLL_MS {
                    WaitStep::TimedOut
                } else {
                    WaitStep::Poll
                }
            },
            None => WaitStep::Poll,
        }
    }
}

impl AhkInterpreter {
    /// An interpreter for the given active-window title and class; an
    /// unknown value reads as the empty text.
    pub fn new(current_window: Option<String>, current_application: Option<String>) -> (r:
        AhkInterpreter)
        ensures
            r.title_cache == current_window,
            r.application_cache == current_application,
    {
        AhkInterpreter { application_cache: current_application, title_cache: current_window }
    }

    /// Whether the criteria hold for the active window.
    pub fn check_window_active(&self, criteria: &WindowCriteria) -> (r: bool)
        ensures
            r == criteria_hold(*criteria, or_empty(self.title_cache), or_empty(self.application_cache)),
    {
        let title = match &self.title_cache {
            Some(t) => t.clone(),
            None => String::new(),
        };
        let class = match &self.application_cache {
            Some(c) => c.clone(),
            None => String::new(),
        };
        match criteria {
            WindowCriteria::Title(t) => title == *t,
            WindowCriteria::Class(k) => class == *k,
            WindowCriteria::Exe(e) => class == *e,
        }
    }

    /// The window tool's command line for an action on matching windows.
    pub fn build_kdotool_command(&self, action: &str, criteria: &WindowCriteria) -> (r: Vec<
        String,
    >)
        ensures
            strings_view(r@) == window_command_of(action@, *criteria),
    {
        let (flag, text) = criteria_parts(criteria);
        let mut cmd: Vec<String> = Vec::new();
        cmd.push(string_of("kdotool"));
        cmd.push(string_of("search"));
        cmd.push(flag);
        cmd.push(text);
        cmd.push(string_of(action));
        assert(strings_view(cmd@) =~= window_command_of(action@, *criteria));
        cmd
    }

    /// The window tool's command as one shell line, the criteria quoted.
    pub fn build_kdotool_shell(&self, criteria: &WindowCriteria, action: &str) -> (r: String)
        ensures
            r@ == window_shell_of(*criteria, action@),
    {
        let (flag, text) = criteria_parts(criteria);
        let mut r = string_of("kdotool search ");
        push_str(&mut r, flag.as_str());
        push_char(&mut r, ' ');
        push_char(&mut r, '\'');
        let esc = shell_escape_exec(&text);
        push_str(&mut r, esc.as_str());
        push_char(&mut r, '\'');
        push_char(&mut r, ' ');
        push_str(&mut r, action);
        assert(r@ =~= window_shell_of(*criteria, action@));
        r
    }

    /// The primitive actions of a script action: those up to the first
    /// `WinWaitActive`, then a wait action holding the rest.
    pub fn execute(&self, action: &AhkAction) -> (r: Vec<Action>)
        ensures
            actions_view(r@) == interp(*action, or_empty(self.title_cache), or_empty(self.application_cache)),
    {
        let mut out: Vec<Action> = Vec::new();
        let w = self.execute_into(action, &mut out);
        match w {
            Some((criteria, timeout_ms, rest)) => {
                push_action(&mut out, Action::WaitActive { criteria, timeout_ms, rest });
            },
            None => {},
        }
        proof {
            let r = run(*action, or_empty(self.title_cache), or_empty(self.application_cache));
            assert(Seq::<ActionView>::empty() + r.out =~= r.out);
        }
        out
    }

    fn execute_list(&self, v: &Vec<AhkAction>, out: &mut Vec<Action>) -> (w: Option<(WindowCriteria, Option<u64>, Vec<AhkAction>)>)
        ensures
            actions_view(final(out)@) == actions_view(old(out)@) + run_list(
                v@,
                or_empty(self.title_cache),
                or_empty(self.application_cache),
            ).out,
            wait_view(w) == run_list(v@, or_empty(self.title_cache), or_empty(self.application_cache)).wait,
        decreases v, 1nat,
    {
        let ghost title = or_empty(self.title_cache);
        let ghost class = or_empty(self.application_cache);
        let ghost o = actions_view(out@);
        let mut w: Option<(WindowCriteria, Option<u64>, Vec<AhkAction>)> = None;
        let mut i: usize = 0;
        assert(o + Seq::<ActionView>::empty() =~= o);
        while i < v.len()
            invariant
                i <= v@.len(),
                title == or_empty(self.title_cache),
                class == or_empty(self.application_cache),
                actions_view(out@) == o + run_list(v@.subrange(0, i as int), title, class).out,
                wait_view(w) == run_list(v@.subrange(0, i as int), title, class).wait,
            decreases v@.len() - i,
        {
            assert(v@.subrange(0, i + 1).drop_last() =~= v@.subrange(0, i as int));
            assert(v@.subrange(0, i + 1).last() == v@[i as int]);
            let ghost before = actions_view(out@);
            let cur = w;
            w = match cur {
                Some((c, t, rest)) => {
                    let mut rest = rest;
                    let ghost rv = rest@;
                    rest.push(copy_action(&v[i]));
                    assert(rest@.drop_last() =~= rv);
                    Some((c, t, rest))
                },
                None => {
                    let r = self.execute_into(&v[i], out);
                    assert(actions_view(out@) =~= o + run_list(v@.subrange(0, i + 1), title, class).out);
                    r
                },
            };
            i = i + 1;
        }
        assert(v@.subrange(0, v@.len() as int) =~= v@);
        w
    }

    /// Appends the primitive actions of a script action to `out`, up to the
    /// first `WinWaitActive`; returns that wait with the rest of the program.
    pub fn execute_into(&self, action: &AhkAction, out: &mut Vec<Action>) -> (w: Option<(WindowCriteria, Option<u64>, Vec<AhkAction>)>)
        ensures
            actions_view(final(out)@) == actions_view(old(out)@) + run(
                *action,
                or_empty(self.title_cache),
                or_empty(self.application_cache),
            ).out,
            wait_view(w) == run(*action, or_empty(self.title_cache), or_empty(self.application_cache)).wait,
        decreases action, 0nat,
    {
        let ghost o = actions_view(out@);
        let w = match action {
            AhkAction::Run(parts) => {
                push_action(out, Action::Command(run_command(parts)));
                None
            },
            AhkAction::Send(keys) => {
                let mut v = convert_send_to_actions(keys.as_str());
                out.append(&mut v);
                None
            },
            AhkAction::Remap(keys) => {
                let mut i: usize = 0;
                while i < keys.len()
                    invariant
                        i <= keys@.len(),
                        actions_view(out@) == o + remap_actions(keys@.subrange(0, i as int)),
                    decreases keys@.len() - i,
                {
                    assert(keys@.subrange(0, i + 1).drop_last() =~= keys@.subrange(0, i as int));
                    push_key(out, keys[i], PRESS);
                    push_key(out, keys[i], RELEASE);
                    i = i + 1;
                    assert(actions_view(out@) =~= o + remap_actions(keys@.subrange(0, i as int)));
                }
                assert(keys@.subrange(0, keys@.len() as int) =~= keys@);
                None
            },
            AhkAction::Sleep(ms) => {
                push_action(out, Action::Delay(*ms));
                None
            },
            AhkAction::Shell(script) => {
                let mut cmd: Vec<String> = Vec::new();
                cmd.push(string_of("/bin/sh"));
                cmd.push(string_of("-c"));
                cmd.push(script.clone());
                assert(strings_view(cmd@) =~= seq!["/bin/sh"@, "-c"@, script@]);
                push_action(out, Action::Command(cmd));
                None
            },
            AhkAction::Block(v) => self.execute_list(v, out),
            AhkAction::WinActivate(c) => {
                push_action(out, Action::Command(self.build_kdotool_command("windowactivate", c)));
                None
            },
            AhkAction::WinClose(c) => {
                push_action(out, Action::Command(self.build_kdotool_command("windowclose", c)));
                None
            },
            AhkAction::IfWinActive { criteria, then_actions, else_actions } => {
                if self.check_window_active(criteria) {
                    self.execute_list(then_actions, out)
                } else {
                    match else_actions {
                        Some(e) => self.execute_list(e, out),
                        None => None,
                    }
                }
            },
            AhkAction::WinWaitActive { criteria, timeout_ms } => {
                let rest: Vec<AhkAction> = Vec::new();
                assert(nodes_of(rest@) =~= Seq::<Node>::empty());
                Some((crate::types::copy_criteria(criteria), *timeout_ms, rest))
            },
        };
        assert(actions_view(out@) =~= o + run(
            *action,
            or_empty(self.title_cache),
            or_empty(self.application_cache),
        ).out);
        w
    }
}

} // verus!
