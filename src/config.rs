//! Compiled configuration: keymap entries keyed by key code, in declaration
//! order, with the contexts that scope them.
use vstd::prelude::*;
use crate::interpreter::run_command;
use crate::keys::{
    KEY_LEFTALT, KEY_LEFTCTRL, KEY_LEFTMETA, KEY_LEFTSHIFT, KEY_RIGHTALT, KEY_RIGHTCTRL,
    KEY_RIGHTMETA, KEY_RIGHTSHIFT,
};
use crate::hotstring::HotstringMatcher;
use crate::multipurpose::MultiPurposeKey;
use crate::text::{fold, starts_with, starts_with_lit_at, string_of, to_chars, trimmed, chars_to_string};
use crate::types::{AhkAction, AhkConfig, AhkHotkey, AhkHotstring};

verus! {

broadcast use vstd::std_specs::vec::axiom_vec_decreases_to_view, vstd::seq::axiom_seq_index_decreases;

/// A modifier a keymap entry asks for.
#[derive(Clone, Copy, PartialEq, Eq, Structural)]
pub enum Modifier {
    Shift,
    Control,
    Alt,
    Windows,
    Key(u16),
}

/// A key with the modifiers that go with it.
#[derive(Clone)]
pub struct KeyPress {
    pub key: u16,
    pub modifiers: Vec<Modifier>,
}

/// Names that a context must (`only`) or must not (`not`) hold.
#[derive(Clone)]
pub struct OnlyOrNot {
    pub only: Option<Vec<String>>,
    pub not: Option<Vec<String>>,
}

/// A nested keymap layer pushed by a key, with its own timeout.
pub struct Remap {
    pub remap: Vec<(KeyPress, Vec<KeymapAction>)>,
    pub timeout_ms: Option<u64>,
    pub timeout_key: Option<Vec<u16>>,
}

/// What a keymap entry does.
pub enum KeymapAction {
    KeyPressAndRelease(KeyPress),
    KeyPress(u16),
    KeyRepeat(u16),
    KeyRelease(u16),
    Remap(Remap),
    Launch(Vec<String>),
    SetMode(String),
    SetMark(bool),
    WithMark(KeyPress),
    EscapeNextKey(bool),
    Sleep(u64),
    SetExtraModifiers(Vec<u16>),
    AhkInterpreted(AhkAction),
}

/// One candidate for a key.
pub struct KeymapEntry {
    pub actions: Vec<KeymapAction>,
    pub modifiers: Vec<Modifier>,
    pub application: Option<OnlyOrNot>,
    pub title: Option<OnlyOrNot>,
    pub device: Option<OnlyOrNot>,
    pub mode: Option<Vec<String>>,
    pub exact_match: bool,
}

/// A keymap as declared: key presses to actions, with shared scoping.
pub struct Keymap {
    pub name: String,
    pub remap: Vec<(KeyPress, Vec<KeymapAction>)>,
    pub application: Option<OnlyOrNot>,
    pub window: Option<OnlyOrNot>,
    pub device: Option<OnlyOrNot>,
    pub mode: Option<Vec<String>>,
    pub exact_match: bool,
}

/// What a static remap does with a key.
pub enum ModmapAction {
    Keys(Vec<u16>),
    MultiPurposeKey(MultiPurposeKey),
    PressReleaseKey { skip_key_event: bool, press: Vec<KeymapAction>, repeat: Vec<KeymapAction>, release: Vec<KeymapAction> },
}

/// A static remap table with shared scoping.
pub struct Modmap {
    pub name: String,
    pub remap: Vec<(u16, ModmapAction)>,
    pub application: Option<OnlyOrNot>,
    pub window: Option<OnlyOrNot>,
    pub device: Option<OnlyOrNot>,
    pub mode: Option<Vec<String>>,
}

/// The whole compiled configuration.
pub struct Config {
    pub modmap: Vec<Modmap>,
    /// Keymaps declared but not compiled into `keymap_table`.
    pub keymap: Vec<Keymap>,
    pub default_mode: String,
    pub virtual_modifiers: Vec<u16>,
    pub keypress_delay_ms: u64,
    pub keymap_table: Vec<(u16, Vec<KeymapEntry>)>,
    pub enable_wheel: bool,
    pub hotstrings: Vec<AhkHotstring>,
    pub hotstring_matcher: Option<HotstringMatcher>,
}

/// The mode a configuration starts in.
pub fn default_mode() -> (r: String)
    ensures
        r@ == "default"@,
{
    string_of("default")
}

/// The default of flags that are on unless configured off.
pub fn const_true() -> (r: bool)
    ensures
        r,
{
    true
}

impl Config {
    /// An empty configuration in the default mode.
    pub fn new() -> (r: Config)
        ensures
            r.modmap@.len() == 0,
            r.keymap@.len() == 0,
            r.default_mode@ == "default"@,
            r.virtual_modifiers@.len() == 0,
            r.keypress_delay_ms == 0,
            r.keymap_table@.len() == 0,
            r.enable_wheel,
            r.hotstrings@.len() == 0,
            r.hotstring_matcher is None,
    {
        Config {
            modmap: Vec::new(),
            keymap: Vec::new(),
            default_mode: default_mode(),
            virtual_modifiers: Vec::new(),
            keypress_delay_ms: 0,
            keymap_table: Vec::new(),
            enable_wheel: const_true(),
            hotstrings: Vec::new(),
            hotstring_matcher: None,
        }
    }
}

impl Default for Config {
    fn default() -> (r: Config)
        ensures
            r.modmap@.len() == 0,
            r.keymap@.len() == 0,
            r.default_mode@ == "default"@,
            r.virtual_modifiers@.len() == 0,
            r.keymap_table@.len() == 0,
            r.enable_wheel,
            r.hotstring_matcher is None,
    {
        Config::new()
    }
}

/// The formats a configuration file may be written in.
#[derive(PartialEq, Eq, Structural, Clone, Copy)]
pub enum ConfigFiletype {
    Yaml,
    Toml,
    Ahk,
}

/// The extension of a file name: what follows its last dot, if the dot is
/// not the name's first character.
pub open spec fn extension_of(name: Seq<char>) -> Option<Seq<char>> {
    match last_dot(name, name.len() as int) {
        Some(d) => if d > 0 {
            Some(name.subrange(d + 1, name.len() as int))
        } else {
            None
        },
        None => None,
    }
}

pub open spec fn last_dot(name: Seq<char>, end: int) -> Option<int>
    decreases end,
{
    if end <= 0 || end > name.len() {
        None
    } else if name[end - 1] == '.' {
        Some(end - 1)
    } else {
        last_dot(name, end - 1)
    }
}

/// The format a file name selects: by extension, in any case; YAML otherwise.
pub open spec fn filetype_of(name: Seq<char>) -> ConfigFiletype {
    match extension_of(name) {
        Some(e) => if fold(e) == "toml"@ {
            ConfigFiletype::Toml
        } else if fold(e) == "ahk"@ {
            ConfigFiletype::Ahk
        } else {
            ConfigFiletype::Yaml
        },
        None => ConfigFiletype::Yaml,
    }
}

/// The format of a configuration file, from its file name.
pub fn get_file_ext(file_name: &str) -> (r: ConfigFiletype)
    ensures
        r == filetype_of(file_name@),
{
    let v = to_chars(file_name);
    let mut end: usize = v.len();
    while end > 0 && v[end - 1] != '.'
        invariant
            end <= v@.len(),
            last_dot(v@, v@.len() as int) == last_dot(v@, end as int),
        decreases end,
    {
        end = end - 1;
    }
    if end <= 1 {
        return ConfigFiletype::Yaml;
    }
    let ext = crate::text::fold_vec(&crate::text::slice(&v, end, v.len()));
    if crate::text::eq_lit(&ext, "toml") {
        ConfigFiletype::Toml
    } else if crate::text::eq_lit(&ext, "ahk") {
        ConfigFiletype::Ahk
    } else {
        ConfigFiletype::Yaml
    }
}

/// The modifier that a modifier key stands for; any other key stands for itself.
pub open spec fn modifier_of_key(k: u16) -> Modifier {
    if k == KEY_LEFTCTRL || k == KEY_RIGHTCTRL {
        Modifier::Control
    } else if k == KEY_LEFTALT || k == KEY_RIGHTALT {
        Modifier::Alt
    } else if k == KEY_LEFTSHIFT || k == KEY_RIGHTSHIFT {
        Modifier::Shift
    } else if k == KEY_LEFTMETA || k == KEY_RIGHTMETA {
        Modifier::Windows
    } else {
        Modifier::Key(k)
    }
}

pub fn to_modifier(k: u16) -> (r: Modifier)
    ensures
        r == modifier_of_key(k),
{
    if k == KEY_LEFTCTRL || k == KEY_RIGHTCTRL {
        Modifier::Control
    } else if k == KEY_LEFTALT || k == KEY_RIGHTALT {
        Modifier::Alt
    } else if k == KEY_LEFTSHIFT || k == KEY_RIGHTSHIFT {
        Modifier::Shift
    } else if k == KEY_LEFTMETA || k == KEY_RIGHTMETA {
        Modifier::Windows
    } else {
        Modifier::Key(k)
    }
}

/// How a `#HotIf` context scopes a hotkey.
pub enum ContextScope {
    /// The active window's class is (`negated`: is not) the name.
    Application { name: String, negated: bool },
    /// The active window's title is (`negated`: is not) the text.
    Title { text: String, negated: bool },
}

/// The scope of a context text: `ahk_exe NAME` and `ahk_class NAME` name a
/// window class, anything else a title; a leading `!` negates it.
pub open spec fn context_scope(c: Seq<char>) -> (bool, bool, Seq<char>) {
    let neg = c.len() > 0 && c[0] == '!';
    let body = if neg {
        c.subrange(1, c.len() as int)
    } else {
        c
    };
    if starts_with(body, "ahk_exe "@) {
        (neg, true, crate::text::trim(body.subrange(8, body.len() as int)))
    } else if starts_with(body, "ahk_class "@) {
        (neg, true, crate::text::trim(body.subrange(10, body.len() as int)))
    } else {
        (neg, false, body)
    }
}

pub open spec fn scope_view(s: ContextScope) -> (bool, bool, Seq<char>) {
    match s {
        ContextScope::Application { name, negated } => (negated, true, name@),
        ContextScope::Title { text, negated } => (negated, false, text@),
    }
}

/// Reads the scope of a hotkey's context text.
pub fn parse_ahk_context(context: &str) -> (r: ContextScope)
    ensures
        scope_view(r) == context_scope(context@),
{
    proof {
        reveal_strlit("ahk_exe ");
        reveal_strlit("ahk_class ");
    }
    let c = to_chars(context);
    let neg = c.len() > 0 && c[0] == '!';
    let body = if neg {
        crate::text::slice(&c, 1, c.len())
    } else {
        c
    };
    assert(body@.subrange(0, body@.len() as int) =~= body@);
    if starts_with_lit_at(&body, 0, "ahk_exe ") {
        ContextScope::Application { name: chars_to_string(&trimmed(&body, 8, body.len())), negated: neg }
    } else if starts_with_lit_at(&body, 0, "ahk_class ") {
        ContextScope::Application { name: chars_to_string(&trimmed(&body, 10, body.len())), negated: neg }
    } else {
        ContextScope::Title { text: chars_to_string(&body), negated: neg }
    }
}

/// The names a matcher holds: the ones a value must be, and the ones it
/// must not be.
pub open spec fn matcher_names(m: OnlyOrNot) -> (Option<Seq<Seq<char>>>, Option<Seq<Seq<char>>>) {
    (
        match m.only {
            Some(v) => Some(crate::action::strings_view(v@)),
            None => None,
        },
        match m.not {
            Some(v) => Some(crate::action::strings_view(v@)),
            None => None,
        },
    )
}

/// The names of a matcher for one name.
pub open spec fn one_name_view(name: Seq<char>, negated: bool) -> (Option<Seq<Seq<char>>>, Option<Seq<Seq<char>>>) {
    if negated {
        (None, Some(seq![name]))
    } else {
        (Some(seq![name]), None)
    }
}

pub open spec fn opt_names(o: Option<OnlyOrNot>) -> Option<(Option<Seq<Seq<char>>>, Option<Seq<Seq<char>>>)> {
    match o {
        Some(m) => Some(matcher_names(m)),
        None => None,
    }
}

pub open spec fn opt_strings(o: Option<Vec<String>>) -> Option<Seq<Seq<char>>> {
    match o {
        Some(v) => Some(crate::action::strings_view(v@)),
        None => None,
    }
}

fn copy_names(o: &Option<OnlyOrNot>) -> (r: Option<OnlyOrNot>)
    ensures
        opt_names(r) == opt_names(*o),
{
    match o {
        Some(m) => Some(OnlyOrNot { only: copy_opt_strings(&m.only), not: copy_opt_strings(&m.not) }),
        None => None,
    }
}

fn copy_opt_strings(o: &Option<Vec<String>>) -> (r: Option<Vec<String>>)
    ensures
        opt_strings(r) == opt_strings(*o),
{
    match o {
        Some(v) => Some(copy_strings(v)),
        None => None,
    }
}

/// A matcher for one name.
fn one_name(name: String, negated: bool) -> (r: OnlyOrNot)
    ensures
        matcher_names(r) == one_name_view(name@, negated),
{
    let ghost nv = name@;
    let v: Vec<String> = vec![name];
    assert(crate::action::strings_view(v@) =~= seq![nv]);
    if negated {
        OnlyOrNot { only: None, not: Some(v) }
    } else {
        OnlyOrNot { only: Some(v), not: None }
    }
}

/// Whether an action taps `k` with no modifiers.
pub open spec fn is_plain_tap(a: KeymapAction, k: u16) -> bool {
    match a {
        KeymapAction::KeyPressAndRelease(kp) => kp.key == k && kp.modifiers@.len() == 0,
        _ => false,
    }
}

/// The actions a script action compiles to: commands are launched, key
/// remaps become key taps, sleeps stay sleeps, and everything else is
/// interpreted when the hotkey fires.
pub fn compile_action(a: AhkAction) -> (r: Vec<KeymapAction>)
    ensures
        compiled_actions(a, r@),
{
    match a {
        AhkAction::Run(parts) => {
            let mut out: Vec<KeymapAction> = Vec::new();
            out.push(KeymapAction::Launch(run_command(&parts)));
            out
        },
        AhkAction::Remap(keys) => {
            let mut out: Vec<KeymapAction> = Vec::new();
            let mut i: usize = 0;
            while i < keys.len()
                invariant
                    i <= keys@.len(),
                    out@.len() == i,
                    forall|j: int| 0 <= j < i ==> is_plain_tap(#[trigger] out@[j], keys@[j]),
                decreases keys@.len() - i,
            {
                let m: Vec<Modifier> = Vec::new();
                let ghost prev = out@;
                out.push(KeymapAction::KeyPressAndRelease(KeyPress { key: keys[i], modifiers: m }));
                assert(is_plain_tap(out@[i as int], keys@[i as int]));
                assert(forall|j: int| 0 <= j < i ==> out@[j] == prev[j]);
                i = i + 1;
            }
            out
        },
        AhkAction::Sleep(ms) => {
            let mut out: Vec<KeymapAction> = Vec::new();
            out.push(KeymapAction::Sleep(ms));
            out
        },
        other => {
            let mut out: Vec<KeymapAction> = Vec::new();
            out.push(KeymapAction::AhkInterpreted(other));
            out
        },
    }
}

/// The actions a script action compiles to, as `compile_action` gives them.
pub open spec fn compiled_actions(a: AhkAction, r: Seq<KeymapAction>) -> bool {
    match a {
        AhkAction::Run(parts) => r.len() == 1 && r[0] is Launch && crate::action::strings_view(r[0]->Launch_0@)
            == crate::interpreter::run_command_of(crate::action::strings_view(parts@)),
        AhkAction::Remap(keys) => r.len() == keys@.len() && forall|i: int|
            0 <= i < keys@.len() ==> is_plain_tap(#[trigger] r[i], keys@[i]),
        AhkAction::Sleep(ms) => r.len() == 1 && r[0] is Sleep && r[0]->Sleep_0 == ms,
        _ => r.len() == 1 && r[0] == KeymapAction::AhkInterpreted(a),
    }
}

/// Whether a keymap is the compiled form of a hotkey: one entry for its
/// combination with its compiled action, scoped by its context (an
/// application for `ahk_exe`/`ahk_class`, else a title with an exact
/// modifier match; negated by a leading `!`).
pub open spec fn converted(hotkey: AhkHotkey, r: Keymap) -> bool {
    &&& r.remap@.len() == 1
    &&& r.remap@[0].0.key == hotkey.key
    &&& r.remap@[0].0.modifiers@ == hotkey.modifiers@.map_values(|k: u16| modifier_of_key(k))
    &&& compiled_actions(hotkey.action, r.remap@[0].1@)
    &&& hotkey.context is None ==> r.application is None && r.window is None && !r.exact_match
    &&& hotkey.context is Some && context_scope(hotkey.context->0@).1 ==> r.application is Some
        && matcher_names(r.application->0) == one_name_view(
        context_scope(hotkey.context->0@).2,
        context_scope(hotkey.context->0@).0,
    ) && r.window is None && !r.exact_match
    &&& hotkey.context is Some && !context_scope(hotkey.context->0@).1 ==> r.window is Some
        && matcher_names(r.window->0) == one_name_view(
        context_scope(hotkey.context->0@).2,
        context_scope(hotkey.context->0@).0,
    ) && r.application is None && r.exact_match
    &&& r.device is None && r.mode is None
}

/// A hotkey compiled to a one-entry keymap, scoped by its context. A title
/// context asks for an exact modifier match.
pub fn convert_ahk_hotkey_to_keymap(hotkey: AhkHotkey) -> (r: Keymap)
    ensures
        converted(hotkey, r),
{
    let mut mods: Vec<Modifier> = Vec::new();
    let mut i: usize = 0;
    while i < hotkey.modifiers.len()
        invariant
            i <= hotkey.modifiers@.len(),
            mods@ == hotkey.modifiers@.subrange(0, i as int).map_values(|k: u16| modifier_of_key(k)),
        decreases hotkey.modifiers@.len() - i,
    {
        mods.push(to_modifier(hotkey.modifiers[i]));
        i = i + 1;
        assert(mods@ =~= hotkey.modifiers@.subrange(0, i as int).map_values(|k: u16| modifier_of_key(k)));
    }
    assert(hotkey.modifiers@.subrange(0, hotkey.modifiers@.len() as int) =~= hotkey.modifiers@);
    let actions = compile_action(hotkey.action);
    let kp = KeyPress { key: hotkey.key, modifiers: mods };
    let mut application: Option<OnlyOrNot> = None;
    let mut window: Option<OnlyOrNot> = None;
    let mut exact_match = false;
    match &hotkey.context {
        Some(c) => match parse_ahk_context(c.as_str()) {
            ContextScope::Application { name, negated } => {
                application = Some(one_name(name, negated));
            },
            ContextScope::Title { text, negated } => {
                window = Some(one_name(text, negated));
                exact_match = true;
            },
        },
        None => {},
    }
    Keymap {
        name: String::new(),
        remap: vec![(kp, actions)],
        application,
        window,
        device: None,
        mode: None,
        exact_match,
    }
}

fn copy_key_press(kp: &KeyPress) -> (r: KeyPress)
    ensures
        r.key == kp.key,
        r.modifiers@ == kp.modifiers@,
{
    let mut m: Vec<Modifier> = Vec::new();
    let mut i: usize = 0;
    while i < kp.modifiers.len()
        invariant
            i <= kp.modifiers@.len(),
            m@ == kp.modifiers@.subrange(0, i as int),
        decreases kp.modifiers@.len() - i,
    {
        m.push(kp.modifiers[i]);
        i = i + 1;
        assert(m@ =~= kp.modifiers@.subrange(0, i as int));
    }
    assert(kp.modifiers@.subrange(0, kp.modifiers@.len() as int) =~= kp.modifiers@);
    KeyPress { key: kp.key, modifiers: m }
}

/// A copy of a list of keymap actions.
pub fn copy_keymap_actions(v: &Vec<KeymapAction>) -> (r: Vec<KeymapAction>)
    ensures
        same_actions(v@, r@),
    decreases v, 2nat,
{
    let mut out: Vec<KeymapAction> = Vec::new();
    let mut i: usize = 0;
    while i < v.len()
        invariant
            i <= v@.len(),
            out@.len() == i,
            forall|j: int| 0 <= j < i ==> same_action(#[trigger] v@[j], out@[j]),
        decreases v@.len() - i,
    {
        let ghost prev = out@;
        out.push(copy_keymap_action(&v[i]));
        assert(forall|j: int| 0 <= j < i ==> out@[j] == prev[j]);
        i = i + 1;
    }
    out
}

pub open spec fn opt_keys(k: Option<Vec<u16>>) -> Option<Seq<u16>> {
    match k {
        Some(v) => Some(v@),
        None => None,
    }
}

/// Whether two nested remaps agree on their timeout, timeout keys, and the
/// key presses of their table, item by item, with as many actions each.
pub open spec fn same_remap(x: Remap, y: Remap) -> bool {
    &&& x.timeout_ms == y.timeout_ms
    &&& opt_keys(x.timeout_key) == opt_keys(y.timeout_key)
    &&& x.remap@.len() == y.remap@.len()
    &&& forall|i: int|
        0 <= i < x.remap@.len() ==> (#[trigger] x.remap@[i]).0.key == y.remap@[i].0.key && x.remap@[i].0.modifiers@
            == y.remap@[i].0.modifiers@ && x.remap@[i].1@.len() == y.remap@[i].1@.len()
}

/// Whether `b` is a copy of `a`: the same variant with the same content
/// (for a nested remap, as `same_remap` says).
pub open spec fn same_action(a: KeymapAction, b: KeymapAction) -> bool {
    match a {
        KeymapAction::KeyPressAndRelease(x) => match b {
            KeymapAction::KeyPressAndRelease(y) => x.key == y.key && x.modifiers@ == y.modifiers@,
            _ => false,
        },
        KeymapAction::KeyPress(x) => b == KeymapAction::KeyPress(x),
        KeymapAction::KeyRepeat(x) => b == KeymapAction::KeyRepeat(x),
        KeymapAction::KeyRelease(x) => b == KeymapAction::KeyRelease(x),
        KeymapAction::Remap(x) => match b {
            KeymapAction::Remap(y) => same_remap(x, y),
            _ => false,
        },
        KeymapAction::Launch(x) => match b {
            KeymapAction::Launch(y) => crate::action::strings_view(x@) == crate::action::strings_view(y@),
            _ => false,
        },
        KeymapAction::SetMode(x) => match b {
            KeymapAction::SetMode(y) => x@ == y@,
            _ => false,
        },
        KeymapAction::SetMark(x) => b == KeymapAction::SetMark(x),
        KeymapAction::WithMark(x) => match b {
            KeymapAction::WithMark(y) => x.key == y.key && x.modifiers@ == y.modifiers@,
            _ => false,
        },
        KeymapAction::EscapeNextKey(x) => b == KeymapAction::EscapeNextKey(x),
        KeymapAction::Sleep(x) => b == KeymapAction::Sleep(x),
        KeymapAction::SetExtraModifiers(x) => match b {
            KeymapAction::SetExtraModifiers(y) => x@ == y@,
            _ => false,
        },
        KeymapAction::AhkInterpreted(x) => match b {
            KeymapAction::AhkInterpreted(y) => crate::types::node_of(x) == crate::types::node_of(y),
            _ => false,
        },
    }
}

/// Whether `b` copies each action of `a`.
pub open spec fn same_actions(a: Seq<KeymapAction>, b: Seq<KeymapAction>) -> bool {
    a.len() == b.len() && forall|i: int| 0 <= i < a.len() ==> same_action(#[trigger] a[i], b[i])
}

fn copy_keys(k: &Option<Vec<u16>>) -> (r: Option<Vec<u16>>)
    ensures
        opt_keys(r) == opt_keys(*k),
{
    match k {
        Some(v) => Some(v.clone()),
        None => None,
    }
}

fn copy_strings(v: &Vec<String>) -> (r: Vec<String>)
    ensures
        crate::action::strings_view(r@) == crate::action::strings_view(v@),
{
    let mut out: Vec<String> = Vec::new();
    let mut i: usize = 0;
    while i < v.len()
        invariant
            i <= v@.len(),
            crate::action::strings_view(out@) == crate::action::strings_view(v@.subrange(0, i as int)),
        decreases v@.len() - i,
    {
        let s = v[i].clone();
        let ghost prev = out@;
        out.push(s);
        assert(crate::action::strings_view(out@) =~= crate::action::strings_view(prev).push(s@));
        assert(crate::action::strings_view(v@.subrange(0, i + 1)) =~= crate::action::strings_view(
            v@.subrange(0, i as int),
        ).push(v@[i as int]@));
        i = i + 1;
    }
    assert(v@.subrange(0, v@.len() as int) =~= v@);
    out
}

fn copy_remap(r: &Remap) -> (res: Remap)
    ensures
        same_remap(*r, res),
    decreases r, 1nat,
{
    let mut items: Vec<(KeyPress, Vec<KeymapAction>)> = Vec::new();
    let mut i: usize = 0;
    while i < r.remap.len()
        invariant
            i <= r.remap@.len(),
            items@.len() == i,
            forall|j: int|
                0 <= j < i ==> (#[trigger] r.remap@[j]).0.key == items@[j].0.key && r.remap@[j].0.modifiers@
                    == items@[j].0.modifiers@ && r.remap@[j].1@.len() == items@[j].1@.len(),
        decreases r.remap@.len() - i,
    {
        proof {
            assert(decreases_to!(r.remap => r.remap@));
            assert(decreases_to!(r.remap@ => r.remap@[i as int]));
            assert(decreases_to!(r.remap@[i as int] => r.remap@[i as int].1));
        }
        let (kp, acts) = &r.remap[i];
        let ghost prev = items@;
        items.push((copy_key_press(kp), copy_keymap_actions(acts)));
        assert(forall|j: int| 0 <= j < i ==> items@[j] == prev[j]);
        i = i + 1;
    }
    Remap { remap: items, timeout_ms: r.timeout_ms, timeout_key: copy_keys(&r.timeout_key) }
}

/// A copy of a keymap action.
pub fn copy_keymap_action(a: &KeymapAction) -> (r: KeymapAction)
    ensures
        same_action(*a, r),
    decreases a, 2nat,
{
    match a {
        KeymapAction::KeyPressAndRelease(kp) => KeymapAction::KeyPressAndRelease(copy_key_press(kp)),
        KeymapAction::KeyPress(k) => KeymapAction::KeyPress(*k),
        KeymapAction::KeyRepeat(k) => KeymapAction::KeyRepeat(*k),
        KeymapAction::KeyRelease(k) => KeymapAction::KeyRelease(*k),
        KeymapAction::Remap(r) => KeymapAction::Remap(copy_remap(r)),
        KeymapAction::Launch(cmd) => KeymapAction::Launch(copy_strings(cmd)),
        KeymapAction::SetMode(m) => KeymapAction::SetMode(m.clone()),
        KeymapAction::SetMark(b) => KeymapAction::SetMark(*b),
        KeymapAction::WithMark(kp) => KeymapAction::WithMark(copy_key_press(kp)),
        KeymapAction::EscapeNextKey(b) => KeymapAction::EscapeNextKey(*b),
        KeymapAction::Sleep(ms) => KeymapAction::Sleep(*ms),
        KeymapAction::SetExtraModifiers(k) => KeymapAction::SetExtraModifiers(k.clone()),
        KeymapAction::AhkInterpreted(x) => KeymapAction::AhkInterpreted(crate::types::copy_action(x)),
    }
}

/// Whether no two slots of a table share a key.
pub open spec fn keys_distinct(t: Seq<(u16, Vec<KeymapEntry>)>) -> bool {
    forall|a: int, b: int| 0 <= a < b < t.len() ==> t[a].0 != t[b].0
}




/// What a keymap entry holds.
pub struct EntryView {
    pub modifiers: Seq<Modifier>,
    pub actions: Vec<KeymapAction>,
    pub application: Option<(Option<Seq<Seq<char>>>, Option<Seq<Seq<char>>>)>,
    pub title: Option<(Option<Seq<Seq<char>>>, Option<Seq<Seq<char>>>)>,
    pub device: Option<(Option<Seq<Seq<char>>>, Option<Seq<Seq<char>>>)>,
    pub mode: Option<Seq<Seq<char>>>,
    pub exact_match: bool,
}

pub open spec fn entry_view(e: KeymapEntry) -> EntryView {
    EntryView {
        modifiers: e.modifiers@,
        actions: e.actions,
        application: opt_names(e.application),
        title: opt_names(e.title),
        device: opt_names(e.device),
        mode: opt_strings(e.mode),
        exact_match: e.exact_match,
    }
}

/// The entries that a keymap declares: each key press with its actions and
/// the keymap's scoping.
pub open spec fn items_of(k: Keymap) -> Seq<(u16, EntryView)> {
    k.remap@.map_values(
        |x: (KeyPress, Vec<KeymapAction>)|
            (
                x.0.key,
                EntryView {
                    modifiers: x.0.modifiers@,
                    actions: x.1,
                    application: opt_names(k.application),
                    title: opt_names(k.window),
                    device: opt_names(k.device),
                    mode: opt_strings(k.mode),
                    exact_match: k.exact_match,
                },
            ),
    )
}

/// The declared entries of some keymaps, in order.
pub open spec fn declared(k: Seq<Keymap>) -> Seq<(u16, EntryView)>
    decreases k.len(),
{
    if k.len() == 0 {
        Seq::empty()
    } else {
        declared(k.drop_last()) + items_of(k.last())
    }
}

/// The declared entries of `key`, in declaration order.
pub open spec fn declared_for(d: Seq<(u16, EntryView)>, key: u16) -> Seq<EntryView>
    decreases d.len(),
{
    if d.len() == 0 {
        Seq::empty()
    } else if d.last().0 == key {
        declared_for(d.drop_last(), key).push(d.last().1)
    } else {
        declared_for(d.drop_last(), key)
    }
}

pub open spec fn entry_views(es: Seq<KeymapEntry>) -> Seq<EntryView> {
    es.map_values(|e: KeymapEntry| entry_view(e))
}

/// A table that holds, for each key, the declared entries of that key in
/// declaration order, and a slot for every declared key.
pub open spec fn table_matches(t: Seq<(u16, Vec<KeymapEntry>)>, d: Seq<(u16, EntryView)>) -> bool {
    &&& keys_distinct(t)
    &&& forall|s: int| 0 <= s < t.len() ==> entry_views(#[trigger] t[s].1@) == declared_for(d, t[s].0)
    &&& forall|k: u16| declared_for(d, k).len() > 0 ==> exists|s: int| 0 <= s < t.len() && (#[trigger] t[s]).0 == k
}

proof fn lemma_declared_concat(a: Seq<Keymap>, k: Keymap)
    ensures
        declared(a.push(k)) == declared(a) + items_of(k),
{
    assert(a.push(k).drop_last() =~= a);
}

/// The keymap table: for each key, its candidates in declaration order,
/// which is the order that resolution tries them in. Each key has one slot.
pub fn build_keymap_table(keymaps: Vec<Keymap>) -> (r: Vec<(u16, Vec<KeymapEntry>)>)
    ensures
        table_matches(r@, declared(keymaps@)),
{
    let ghost all = keymaps@;
    let mut keymaps = keymaps;
    let mut table: Vec<(u16, Vec<KeymapEntry>)> = Vec::new();
    let ghost mut done: int = 0;
    assert(declared(all.subrange(0, 0)) =~= Seq::<(u16, EntryView)>::empty());
    while keymaps.len() > 0
        invariant
            0 <= done,
            done + keymaps@.len() == all.len(),
            keymaps@ == all.subrange(done, all.len() as int),
            table_matches(table@, declared(all.subrange(0, done))),
        decreases keymaps@.len(),
    {
        let km = keymaps.remove(0);
        assert(km == all[done]);
        let ghost prefix = declared(all.subrange(0, done));
        let ghost km_items = items_of(km);
        let ghost km_remap = km.remap@;
        let mut items = km.remap;
        let ghost mut added: int = 0;
        assert(prefix + km_items.subrange(0, 0) =~= prefix);
        while items.len() > 0
            invariant
                0 <= added <= km_items.len(),
                items@.len() + added == km_items.len(),
                items@ == km_remap.subrange(added, km_remap.len() as int),
                km_items.len() == km_remap.len(),
                km_items == items_of(km),
                km_remap == km.remap@,
                table_matches(table@, prefix + km_items.subrange(0, added)),
            decreases items@.len(),
        {
            let ghost d0 = prefix + km_items.subrange(0, added);
            let ghost rest = items@;
            let (kp, actions) = items.remove(0);
            assert((kp, actions) == km_remap[added]);
            let ghost d1 = prefix + km_items.subrange(0, added + 1);
            assert(d1.drop_last() =~= d0);
            let entry = KeymapEntry {
                actions,
                modifiers: kp.modifiers,
                application: copy_names(&km.application),
                title: copy_names(&km.window),
                device: copy_names(&km.device),
                mode: copy_opt_strings(&km.mode),
                exact_match: km.exact_match,
            };
            let ghost em = entry_view(entry);
            assert(d1.last() == km_items[added]);
            assert(km_items[added] == (kp.key, em));
            let mut s: usize = 0;
            while s < table.len() && table[s].0 != kp.key
                invariant
                    s <= table@.len(),
                    forall|j: int| 0 <= j < s ==> table@[j].0 != kp.key,
                decreases table@.len() - s,
            {
                s = s + 1;
            }
            if s < table.len() {
                let ghost before = table@;
                let (k, mut es) = table.remove(s);
                let ghost old_es = es@;
                es.push(entry);
                assert(entry_views(es@) =~= entry_views(old_es).push(em));
                table.insert(s, (k, es));
                assert(table@ =~= before.update(s as int, (k, es)));
                assert forall|t: int| 0 <= t < table@.len() implies entry_views(#[trigger] table@[t].1@)
                    == declared_for(d1, table@[t].0) by {
                    if t != s {
                        assert(table@[t] == before[t]);
                        assert(entry_views(before[t].1@) == declared_for(d0, before[t].0));
                    } else {
                        assert(entry_views(before[t].1@) == declared_for(d0, before[t].0));
                    }
                }
                assert forall|q: u16| declared_for(d1, q).len() > 0 implies exists|t: int| 0 <= t < table@.len() && (#[trigger] table@[t]).0 == q by {
                    if q == kp.key {
                        assert(table@[s as int].0 == q);
                    } else {
                        assert(declared_for(d1, q) == declared_for(d0, q));
                        let t = choose|t: int| 0 <= t < before.len() && (#[trigger] before[t]).0 == q;
                        assert(table@[t].0 == q);
                    }
                }
            } else {
                let mut es: Vec<KeymapEntry> = Vec::new();
                es.push(entry);
                let ghost before = table@;
                assert(entry_views(es@) =~= seq![em]);
                table.push((kp.key, es));
                assert(declared_for(d0, kp.key).len() == 0) by {
                    if declared_for(d0, kp.key).len() > 0 {
                        let t = choose|t: int| 0 <= t < before.len() && (#[trigger] before[t]).0 == kp.key;
                        assert(before[t].0 != kp.key);
                    }
                }
                assert(declared_for(d1, kp.key) =~= seq![em]);
                assert forall|t: int| 0 <= t < table@.len() implies entry_views(#[trigger] table@[t].1@)
                    == declared_for(d1, table@[t].0) by {
                    if t < before.len() {
                        assert(table@[t] == before[t]);
                        assert(entry_views(before[t].1@) == declared_for(d0, before[t].0));
                        assert(before[t].0 != kp.key);
                    }
                }
                assert forall|q: u16| declared_for(d1, q).len() > 0 implies exists|t: int| 0 <= t < table@.len() && (#[trigger] table@[t]).0 == q by {
                    if q == kp.key {
                        assert(table@[before.len() as int].0 == q);
                    } else {
                        assert(declared_for(d1, q) == declared_for(d0, q));
                        let t = choose|t: int| 0 <= t < before.len() && (#[trigger] before[t]).0 == q;
                        assert(table@[t].0 == q);
                    }
                }
                assert forall|a: int, b: int| 0 <= a < b < table@.len() implies table@[a].0 != table@[b].0 by {
                    if b == before.len() {
                        assert(table@[a] == before[a]);
                    } else {
                        assert(table@[a] == before[a]);
                        assert(table@[b] == before[b]);
                    }
                }
            }
            proof {
                added = added + 1;
            }
        }
        proof {
            assert(km_items.subrange(0, added) =~= km_items);
            assert(all.subrange(0, done + 1) =~= all.subrange(0, done).push(all[done]));
            lemma_declared_concat(all.subrange(0, done), all[done]);
            done = done + 1;
        }
    }
    assert(all.subrange(0, all.len() as int) =~= all);
    table
}

/// A copy of a hotstring.
pub fn copy_hotstring(h: &AhkHotstring) -> (r: AhkHotstring)
    ensures
        r == *h,
{
    let context = match &h.context {
        Some(c) => Some(c.clone()),
        None => None,
    };
    AhkHotstring {
        trigger: h.trigger.clone(),
        replacement: h.replacement.clone(),
        immediate: h.immediate,
        case_sensitive: h.case_sensitive,
        omit_char: h.omit_char,
        execute: h.execute,
        context,
    }
}

/// The hotstrings of a script, in declaration order, for the matcher.
pub fn extract_hotstrings(ahk: &AhkConfig) -> (r: Vec<AhkHotstring>)
    ensures
        r@ == ahk.hotstrings@,
{
    let mut out: Vec<AhkHotstring> = Vec::new();
    let mut i: usize = 0;
    while i < ahk.hotstrings.len()
        invariant
            i <= ahk.hotstrings@.len(),
            out@ == ahk.hotstrings@.subrange(0, i as int),
        decreases ahk.hotstrings@.len() - i,
    {
        out.push(copy_hotstring(&ahk.hotstrings[i]));
        i = i + 1;
        assert(out@ =~= ahk.hotstrings@.subrange(0, i as int));
    }
    assert(ahk.hotstrings@.subrange(0, ahk.hotstrings@.len() as int) =~= ahk.hotstrings@);
    out
}

/// A parsed script, unchanged: scripts are compiled as they are.
pub fn transpile_to_xremap(ahk: AhkConfig) -> (r: AhkConfig)
    ensures
        r == ahk,
{
    ahk
}

/// A parsed script compiled into a configuration: CapsLock is a virtual
/// modifier, each hotkey becomes a keymap entry, and the hotstrings, if
/// any, get a matcher.
pub fn compile_ahk_config(ahk: AhkConfig) -> (r: Config)
    ensures
        r.virtual_modifiers@ == seq![crate::keys::KEY_CAPSLOCK],
        r.hotstrings@ == ahk.hotstrings@,
        ahk.hotstrings@.len() > 0 ==> r.hotstring_matcher is Some && r.hotstring_matcher->0.hotstrings@ == ahk.hotstrings@,
        ahk.hotstrings@.len() == 0 ==> r.hotstring_matcher is None,
        exists|ks: Seq<Keymap>|
            #![trigger ks.len()]
            ks.len() == ahk.hotkeys@.len() && (forall|i: int|
                0 <= i < ks.len() ==> converted(ahk.hotkeys@[i], #[trigger] ks[i])) && table_matches(
                r.keymap_table@,
                declared(ks),
            ),
        r.default_mode@ == "default"@,
{
    let hotstrings = extract_hotstrings(&ahk);
    let ghost hk_all = ahk.hotkeys@;
    let mut config = Config::new();
    config.virtual_modifiers.push(crate::keys::KEY_CAPSLOCK);
    assert(config.virtual_modifiers@ =~= seq![crate::keys::KEY_CAPSLOCK]);
    let mut hotkeys = ahk.hotkeys;
    let ghost n = hotkeys@.len();
    let mut keymaps: Vec<Keymap> = Vec::new();
    while hotkeys.len() > 0
        invariant
            keymaps@.len() + hotkeys@.len() == n,
            n == hk_all.len(),
            hotkeys@ == hk_all.subrange(keymaps@.len() as int, n as int),
            forall|j: int| 0 <= j < keymaps@.len() ==> converted(hk_all[j], #[trigger] keymaps@[j]),
        decreases hotkeys@.len(),
    {
        let h = hotkeys.remove(0);
        assert(h == hk_all[keymaps@.len() as int]);
        let ghost prev = keymaps@;
        keymaps.push(convert_ahk_hotkey_to_keymap(h));
        assert(forall|j: int| 0 <= j < prev.len() ==> keymaps@[j] == prev[j]);
    }
    let ghost ks = keymaps@;
    config.keymap_table = build_keymap_table(keymaps);
    assert(ks.len() == hk_all.len());
    if hotstrings.len() > 0 {
        let mut copies: Vec<AhkHotstring> = Vec::new();
        let mut i: usize = 0;
        while i < hotstrings.len()
            invariant
                i <= hotstrings@.len(),
                copies@ == hotstrings@.subrange(0, i as int),
            decreases hotstrings@.len() - i,
        {
            copies.push(copy_hotstring(&hotstrings[i]));
            i = i + 1;
            assert(copies@ =~= hotstrings@.subrange(0, i as int));
        }
        assert(hotstrings@.subrange(0, hotstrings@.len() as int) =~= hotstrings@);
        config.hotstring_matcher = Some(HotstringMatcher::new(copies));
    }
    config.hotstrings = hotstrings;
    config
}

pub open spec fn hotkey_total(s: Seq<AhkConfig>) -> Seq<AhkHotkey>
    decreases s.len(),
{
    if s.len() == 0 {
        Seq::empty()
    } else {
        hotkey_total(s.drop_last()) + s.last().hotkeys@
    }
}

pub open spec fn all_hotstrings(s: Seq<AhkConfig>) -> Seq<AhkHotstring>
    decreases s.len(),
{
    if s.len() == 0 {
        Seq::empty()
    } else {
        all_hotstrings(s.drop_last()) + s.last().hotstrings@
    }
}

/// Several scripts read as one: their hotkeys and hotstrings, in file
/// order, each file's in declaration order.
pub fn merge_ahk_configs(configs: Vec<AhkConfig>) -> (r: AhkConfig)
    ensures
        r.hotkeys@ == hotkey_total(configs@),
        r.hotstrings@ == all_hotstrings(configs@),
{
    let ghost all = configs@;
    let mut configs = configs;
    let mut hotkeys: Vec<AhkHotkey> = Vec::new();
    let mut hotstrings: Vec<AhkHotstring> = Vec::new();
    let ghost mut done: int = 0;
    while configs.len() > 0
        invariant
            0 <= done,
            done + configs@.len() == all.len(),
            configs@ == all.subrange(done, all.len() as int),
            hotkeys@ == hotkey_total(all.subrange(0, done)),
            hotstrings@ == all_hotstrings(all.subrange(0, done)),
        decreases configs@.len(),
    {
        let c = configs.remove(0);
        assert(c == all[done]);
        let mut hk = c.hotkeys;
        let mut hs = c.hotstrings;
        hotkeys.append(&mut hk);
        hotstrings.append(&mut hs);
        proof {
            assert(all.subrange(0, done + 1).drop_last() =~= all.subrange(0, done));
            assert(all.subrange(0, done + 1).last() == all[done]);
            done = done + 1;
        }
    }
    assert(all.subrange(0, all.len() as int) =~= all);
    AhkConfig { hotkeys, hotstrings }
}

} // verus!
