//! The per-event resolution state machine.
//!
//! Per key event: static remaps apply first (which may start a multi-purpose
//! key), then modifier tracking, then the override stack and the keymap;
//! only a pressed key that no hotkey claims feeds the hotstring matcher:
//! hotkeys take priority over hotstrings. Unmatched keys pass through.
//!
//! The caller supplies the time (milliseconds on a monotonic clock), the
//! active window's title and class, and runs the override timer: the
//! handler says when it should fire (`override_timer`) and is told by an
//! `Event::OverrideTimeout` when it did.
use vstd::prelude::*;
use crate::action::{actions_view, key_action, push_action, Action, ActionView, KeyEvent, RawInputEvent, RelativeEvent};
use crate::config::{
    copy_keymap_actions, same_actions, Config, Modmap, KeyPress, KeymapAction, KeymapEntry, ModmapAction, Modifier, OnlyOrNot, Remap,
};
use crate::hotstring::{lemma_match_fits, match_at, push_capped, HotstringMatcher, HotstringMatcherState};
use crate::interpreter::{interp, or_empty, AhkInterpreter};
use crate::keys::{char_of_key, key_to_char};
use crate::parser::{action_of, parse_action};
use crate::types::{AhkAction, AhkHotstring, Node};
use crate::action::strings_view;
use crate::keys::{
    is_modifier_key, modifier_key, KEY_BACKSPACE, KEY_LEFTALT, KEY_LEFTCTRL, KEY_LEFTMETA,
    KEY_LEFTSHIFT, KEY_RIGHTALT, KEY_RIGHTCTRL, KEY_RIGHTMETA, KEY_RIGHTSHIFT,
};
use crate::multipurpose::{deadline, MultiPurposeKeyState, PRESS, RELEASE, REPEAT};

verus! {

/// Offset that turns relative events into pseudo key codes, so that keymaps
/// can match wheel and motion directions.
pub const DISGUISED_EVENT_OFFSETTER: u16 = 59974;

/// The largest axis code whose pseudo keys fit in a key code.
pub const MAX_DISGUISED_AXIS: u16 = 2779;

/// The pseudo key that a keymap entry uses to match any key.
pub const KEY_MATCH_ANY: u16 = 60000;

/// The device an event came from.
pub struct InputDeviceInfo {
    pub name: String,
    pub path: String,
}

/// An input event, or the expiry of the override timer.
pub enum Event {
    KeyEvent(InputDeviceInfo, KeyEvent),
    RelativeEvent(InputDeviceInfo, RelativeEvent),
    OtherEvents(RawInputEvent),
    OverrideTimeout,
}

/// One resolved candidate: its index in the candidate list and the held
/// modifiers it did not ask for.
pub struct Pick {
    pub index: usize,
    pub extra: Vec<u16>,
}

/// The resolution engine's state.
pub struct EventHandler {
    /// Modifier keys (physical and virtual) that are down.
    pub modifiers: Vec<u16>,
    /// Modifiers that an entry currently dispatching did not ask for.
    pub extra_modifiers: Vec<u16>,
    /// Key down, and the key that was sent for it.
    pub pressed_keys: Vec<(u16, u16)>,
    pub application_cache: Option<String>,
    pub title_cache: Option<String>,
    pub multi_purpose_keys: Vec<(u16, MultiPurposeKeyState)>,
    /// The override stack: layers of (key, entry).
    pub override_remaps: Vec<Vec<(u16, KeymapEntry)>>,
    pub override_timeout_key: Option<Vec<u16>>,
    /// When the override timer should fire, if it is set.
    pub override_timer: Option<u64>,
    pub mode: String,
    pub mark_set: bool,
    pub escape_next_key: bool,
    pub keypress_delay_ms: u64,
    pub actions: Vec<Action>,
    pub hotstring_state: HotstringMatcherState,
}

/// Everything but the emitted actions and the override stack is unchanged.
pub open spec fn same_state(a: EventHandler, b: EventHandler) -> bool {
    &&& a.modifiers == b.modifiers
    &&& a.extra_modifiers == b.extra_modifiers
    &&& a.pressed_keys == b.pressed_keys
    &&& a.application_cache == b.application_cache
    &&& a.title_cache == b.title_cache
    &&& a.multi_purpose_keys == b.multi_purpose_keys
    &&& a.mode == b.mode
    &&& a.mark_set == b.mark_set
    &&& a.escape_next_key == b.escape_next_key
    &&& a.keypress_delay_ms == b.keypress_delay_ms
    &&& a.hotstring_state == b.hotstring_state
}

/// Release 0, press 1, repeat 2: press and repeat count as pressed.
pub open spec fn pressed_value(v: i32) -> bool {
    v == PRESS || v == REPEAT
}

pub fn is_pressed(value: i32) -> (r: bool)
    ensures
        r == pressed_value(value),
{
    value == PRESS || value == REPEAT
}

/// Whether every action is a nested remap (and there is one at least).
pub open spec fn all_remaps(a: Seq<KeymapAction>) -> bool {
    a.len() > 0 && forall|i: int| 0 <= i < a.len() ==> a[i] is Remap
}

pub fn is_remap(actions: &Vec<KeymapAction>) -> (r: bool)
    ensures
        r == all_remaps(actions@),
{
    if actions.len() == 0 {
        return false;
    }
    let mut i: usize = 0;
    while i < actions.len()
        invariant
            i <= actions@.len(),
            forall|j: int| 0 <= j < i ==> actions@[j] is Remap,
        decreases actions@.len() - i,
    {
        match &actions[i] {
            KeymapAction::Remap(_) => {},
            _ => {
                return false;
            },
        }
        i = i + 1;
    }
    true
}

/// Whether key `k` satisfies modifier `m` (either side of a modifier pair).
pub open spec fn key_is_modifier(k: u16, m: Modifier) -> bool {
    match m {
        Modifier::Shift => k == KEY_LEFTSHIFT || k == KEY_RIGHTSHIFT,
        Modifier::Control => k == KEY_LEFTCTRL || k == KEY_RIGHTCTRL,
        Modifier::Alt => k == KEY_LEFTALT || k == KEY_RIGHTALT,
        Modifier::Windows => k == KEY_LEFTMETA || k == KEY_RIGHTMETA,
        Modifier::Key(x) => k == x,
    }
}

fn key_is_modifier_exec(k: u16, m: Modifier) -> (r: bool)
    ensures
        r == key_is_modifier(k, m),
{
    match m {
        Modifier::Shift => k == KEY_LEFTSHIFT || k == KEY_RIGHTSHIFT,
        Modifier::Control => k == KEY_LEFTCTRL || k == KEY_RIGHTCTRL,
        Modifier::Alt => k == KEY_LEFTALT || k == KEY_RIGHTALT,
        Modifier::Windows => k == KEY_LEFTMETA || k == KEY_RIGHTMETA,
        Modifier::Key(x) => k == x,
    }
}

/// Whether one of `mods` is satisfied by key `k`.
pub open spec fn in_modifiers(mods: Seq<Modifier>, k: u16) -> bool {
    exists|i: int| 0 <= i < mods.len() && key_is_modifier(k, mods[i])
}

pub fn contains_modifier(mods: &Vec<Modifier>, key: u16) -> (r: bool)
    ensures
        r == in_modifiers(mods@, key),
{
    let mut i: usize = 0;
    while i < mods.len()
        invariant
            i <= mods@.len(),
            forall|j: int| 0 <= j < i ==> !key_is_modifier(key, mods@[j]),
        decreases mods@.len() - i,
    {
        if key_is_modifier_exec(key, mods[i]) {
            return true;
        }
        i = i + 1;
    }
    false
}

/// Whether modifier `m` is held.
pub open spec fn modifier_held(held: Seq<u16>, m: Modifier) -> bool {
    exists|i: int| 0 <= i < held.len() && key_is_modifier(held[i], m)
}

/// The key pressed to supply a missing modifier: the left one of a pair.
pub open spec fn key_for_modifier(m: Modifier) -> u16 {
    match m {
        Modifier::Shift => KEY_LEFTSHIFT,
        Modifier::Control => KEY_LEFTCTRL,
        Modifier::Alt => KEY_LEFTALT,
        Modifier::Windows => KEY_LEFTMETA,
        Modifier::Key(k) => k,
    }
}

/// Held keys that none of `mods` asks for, in the order they are held.
pub open spec fn extra_of(held: Seq<u16>, mods: Seq<Modifier>) -> Seq<u16>
    decreases held.len(),
{
    if held.len() == 0 {
        Seq::empty()
    } else if in_modifiers(mods, held.last()) {
        extra_of(held.drop_last(), mods)
    } else {
        extra_of(held.drop_last(), mods).push(held.last())
    }
}

/// Keys for the modifiers of `mods` that are not held, in order.
pub open spec fn missing_of(held: Seq<u16>, mods: Seq<Modifier>) -> Seq<u16>
    decreases mods.len(),
{
    if mods.len() == 0 {
        Seq::empty()
    } else if modifier_held(held, mods.last()) {
        missing_of(held, mods.drop_last())
    } else {
        missing_of(held, mods.drop_last()).push(key_for_modifier(mods.last()))
    }
}

/// Whether one of the names is `v`.
pub open spec fn has_name(names: Seq<String>, v: Seq<char>) -> bool {
    exists|i: int| 0 <= i < names.len() && #[trigger] names[i]@ == v
}

/// Whether a name matcher accepts a value: one of `only`, or none of `not`.
pub open spec fn names_match(m: OnlyOrNot, v: Seq<char>) -> bool {
    match m.only {
        Some(o) => has_name(o@, v),
        None => match m.not {
            Some(n) => !has_name(n@, v),
            None => false,
        },
    }
}

pub fn match_names(m: &OnlyOrNot, v: &String) -> (r: bool)
    ensures
        r == names_match(*m, v@),
{
    match &m.only {
        Some(o) => {
            let mut i: usize = 0;
            while i < o.len()
                invariant
                    i <= o@.len(),
                    m.only == Some(*o),
                    forall|j: int| 0 <= j < i ==> o@[j]@ != v@,
                decreases o@.len() - i,
            {
                let same = o[i] == *v;
                if same {
                    assert(o@[i as int]@ == v@);
                    assert(has_name(o@, v@));
                    return true;
                }
                i = i + 1;
            }
            false
        },
        None => match &m.not {
            Some(n) => {
                let mut i: usize = 0;
                while i < n.len()
                    invariant
                        i <= n@.len(),
                        m.only is None,
                        m.not == Some(*n),
                        forall|j: int| 0 <= j < i ==> n@[j]@ != v@,
                    decreases n@.len() - i,
                {
                    let same = n[i] == *v;
                    if same {
                        assert(n@[i as int]@ == v@);
                        assert(has_name(n@, v@));
                        return false;
                    }
                    i = i + 1;
                }
                true
            },
            None => false,
        },
    }
}

/// What a keymap entry is checked against.
pub struct MatchContext {
    pub held: Seq<u16>,
    pub title: Seq<char>,
    pub class: Seq<char>,
    pub device_name: Seq<char>,
    pub device_path: Seq<char>,
    pub mode: Seq<char>,
}

/// How specific an entry's context is: title first, then class, then none.
pub open spec fn tier_of(e: KeymapEntry) -> int {
    if e.title is Some {
        0
    } else if e.application is Some {
        1
    } else {
        2
    }
}

/// Whether an entry applies in a pass: the exact pass asks that no extra
/// modifier is held; both ask that none is missing and the context matches.
pub open spec fn entry_applies(e: KeymapEntry, exact_pass: bool, c: MatchContext) -> bool {
    &&& !(e.exact_match && !exact_pass)
    &&& !(exact_pass && extra_of(c.held, e.modifiers@).len() > 0)
    &&& missing_of(c.held, e.modifiers@).len() == 0
    &&& (e.title is Some ==> names_match(e.title->0, c.title))
    &&& (e.application is Some ==> names_match(e.application->0, c.class))
    &&& (e.device is Some ==> names_match(e.device->0, c.device_name) || names_match(
        e.device->0,
        c.device_path,
    ))
    &&& (e.mode is Some ==> exists|i: int| 0 <= i < e.mode->0@.len() && e.mode->0@[i]@ == c.mode)
}

/// A pick's view: candidate index and extra modifiers.
pub open spec fn pick_view(p: Pick) -> (int, Seq<u16>) {
    (p.index as int, p.extra@)
}

/// One pass over the candidates from tier `tier`, position `i` on, with the
/// nested remaps `remaps` gathered so far. The first applicable entry that
/// is not made of nested remaps wins outright; entries of nested remaps
/// accumulate, and resolve the key only if no outright entry applies.
pub open spec fn scan_pass(
    es: Seq<KeymapEntry>,
    c: MatchContext,
    exact_pass: bool,
    tier: int,
    i: int,
    remaps: Seq<(int, Seq<u16>)>,
) -> Option<Seq<(int, Seq<u16>)>>
    decreases 3 - tier, es.len() - i,
{
    if tier >= 3 || tier < 0 {
        if remaps.len() > 0 {
            Some(remaps)
        } else {
            None
        }
    } else if i >= es.len() || i < 0 {
        scan_pass(es, c, exact_pass, tier + 1, 0, remaps)
    } else {
        let e = es[i];
        if tier_of(e) != tier || !entry_applies(e, exact_pass, c) {
            scan_pass(es, c, exact_pass, tier, i + 1, remaps)
        } else {
            let p = (i, extra_of(c.held, e.modifiers@));
            if !all_remaps(e.actions@) {
                Some(seq![p])
            } else {
                scan_pass(es, c, exact_pass, tier, i + 1, remaps.push(p))
            }
        }
    }
}

/// The resolution of a key's candidates: the exact-modifier pass, then the
/// pass that allows extra held modifiers.
pub open spec fn select_entries(es: Seq<KeymapEntry>, c: MatchContext) -> Option<Seq<(int, Seq<u16>)>> {
    match scan_pass(es, c, true, 0, 0, Seq::empty()) {
        Some(p) => Some(p),
        None => scan_pass(es, c, false, 0, 0, Seq::empty()),
    }
}

pub open spec fn picks_view(v: Seq<Pick>) -> Seq<(int, Seq<u16>)> {
    v.map_values(|p: Pick| pick_view(p))
}

impl EventHandler {
    /// A fresh handler in the given mode.
    pub fn new(mode: &str, keypress_delay_ms: u64) -> (r: EventHandler)
        ensures
            r.modifiers@.len() == 0,
            r.extra_modifiers@.len() == 0,
            r.pressed_keys@.len() == 0,
            r.multi_purpose_keys@.len() == 0,
            r.override_remaps@.len() == 0,
            r.override_timeout_key is None,
            r.override_timer is None,
            r.mode@ == mode@,
            !r.mark_set,
            !r.escape_next_key,
            r.keypress_delay_ms == keypress_delay_ms,
            r.actions@.len() == 0,
            r.hotstring_state.buffer@.len() == 0,
            wf(r),
    {
        EventHandler {
            modifiers: Vec::new(),
            extra_modifiers: Vec::new(),
            pressed_keys: Vec::new(),
            application_cache: None,
            title_cache: None,
            multi_purpose_keys: Vec::new(),
            override_remaps: Vec::new(),
            override_timeout_key: None,
            override_timer: None,
            mode: crate::text::string_of(mode),
            mark_set: false,
            escape_next_key: false,
            keypress_delay_ms,
            actions: Vec::new(),
            hotstring_state: HotstringMatcherState::idle(),
        }
    }

    /// Whether modifier `m` is held.
    pub fn match_modifier(&self, m: Modifier) -> (r: bool)
        ensures
            r == modifier_held(self.modifiers@, m),
    {
        let mut i: usize = 0;
        while i < self.modifiers.len()
            invariant
                i <= self.modifiers@.len(),
                forall|j: int| 0 <= j < i ==> !key_is_modifier(self.modifiers@[j], m),
            decreases self.modifiers@.len() - i,
        {
            if key_is_modifier_exec(self.modifiers[i], m) {
                return true;
            }
            i = i + 1;
        }
        false
    }

    /// Held modifiers that `mods` does not ask for, and keys for the
    /// modifiers of `mods` that are not held.
    pub fn diff_modifiers(&self, mods: &Vec<Modifier>) -> (r: (Vec<u16>, Vec<u16>))
        ensures
            r.0@ == extra_of(self.modifiers@, mods@),
            r.1@ == missing_of(self.modifiers@, mods@),
    {
        let mut extra: Vec<u16> = Vec::new();
        let mut i: usize = 0;
        while i < self.modifiers.len()
            invariant
                i <= self.modifiers@.len(),
                extra@ == extra_of(self.modifiers@.subrange(0, i as int), mods@),
            decreases self.modifiers@.len() - i,
        {
            assert(self.modifiers@.subrange(0, i + 1).drop_last() =~= self.modifiers@.subrange(0, i as int));
            if !contains_modifier(mods, self.modifiers[i]) {
                extra.push(self.modifiers[i]);
            }
            i = i + 1;
        }
        assert(self.modifiers@.subrange(0, self.modifiers@.len() as int) =~= self.modifiers@);
        let mut missing: Vec<u16> = Vec::new();
        let mut j: usize = 0;
        while j < mods.len()
            invariant
                j <= mods@.len(),
                missing@ == missing_of(self.modifiers@, mods@.subrange(0, j as int)),
            decreases mods@.len() - j,
        {
            assert(mods@.subrange(0, j + 1).drop_last() =~= mods@.subrange(0, j as int));
            let m = mods[j];
            if !self.match_modifier(m) {
                let k = match m {
                    Modifier::Shift => KEY_LEFTSHIFT,
                    Modifier::Control => KEY_LEFTCTRL,
                    Modifier::Alt => KEY_LEFTALT,
                    Modifier::Windows => KEY_LEFTMETA,
                    Modifier::Key(k) => k,
                };
                missing.push(k);
            }
            j = j + 1;
        }
        assert(mods@.subrange(0, mods@.len() as int) =~= mods@);
        (extra, missing)
    }

    /// A key press adds the key to the held set, unless it is held; a
    /// release removes it.
    pub fn update_modifier(&mut self, key: u16, value: i32)
        ensures
            final(self).multi_purpose_keys == old(self).multi_purpose_keys,
            final(self).pressed_keys == old(self).pressed_keys,
            value == PRESS ==> final(self).modifiers@ == (if old(self).modifiers@.contains(key) {
                old(self).modifiers@
            } else {
                old(self).modifiers@.push(key)
            }),
            value == RELEASE ==> final(self).modifiers@ == without(old(self).modifiers@, key),
            value != PRESS && value != RELEASE ==> final(self).modifiers@ == old(self).modifiers@,
            final(self).actions == old(self).actions,
            others_same(*old(self), *final(self)),
            final(self).hotstring_state == old(self).hotstring_state,
            final(self).title_cache == old(self).title_cache,
            final(self).application_cache == old(self).application_cache,
    {
        assert(PRESS != RELEASE);
        if value == PRESS {
            let mut i: usize = 0;
            while i < self.modifiers.len()
                invariant
                    i <= self.modifiers@.len(),
                    value == PRESS,
                    self.modifiers@ == old(self).modifiers@,
                    *self == *old(self),
                    self.multi_purpose_keys == old(self).multi_purpose_keys,
                    self.pressed_keys == old(self).pressed_keys,
                    self.actions == old(self).actions,
                    self.title_cache == old(self).title_cache,
                    self.application_cache == old(self).application_cache,
                    forall|j: int| 0 <= j < i ==> self.modifiers@[j] != key,
                decreases self.modifiers@.len() - i,
            {
                if self.modifiers[i] == key {
                    assert(self.modifiers@[i as int] == key);
                    return;
                }
                i = i + 1;
            }
            self.modifiers.push(key);
        } else if value == RELEASE {
            let mut kept: Vec<u16> = Vec::new();
            let mut i: usize = 0;
            while i < self.modifiers.len()
                invariant
                    i <= self.modifiers@.len(),
                    value == RELEASE,
                    self.modifiers@ == old(self).modifiers@,
                    *self == *old(self),
                    self.multi_purpose_keys == old(self).multi_purpose_keys,
                    self.pressed_keys == old(self).pressed_keys,
                    self.actions == old(self).actions,
                    self.title_cache == old(self).title_cache,
                    self.application_cache == old(self).application_cache,
                    kept@ == without(self.modifiers@.subrange(0, i as int), key),
                decreases self.modifiers@.len() - i,
            {
                assert(self.modifiers@.subrange(0, i + 1).drop_last() =~= self.modifiers@.subrange(0, i as int));
                if self.modifiers[i] != key {
                    kept.push(self.modifiers[i]);
                }
                i = i + 1;
            }
            assert(self.modifiers@.subrange(0, self.modifiers@.len() as int) =~= self.modifiers@);
            self.modifiers = kept;
        }
    }

    /// The window title and class for the coming events; unknown reads as empty.
    pub fn set_window(&mut self, title: Option<String>, class: Option<String>)
        ensures
            final(self).title_cache == title,
            final(self).application_cache == class,
            final(self).modifiers == old(self).modifiers,
            final(self).actions == old(self).actions,
    {
        self.title_cache = title;
        self.application_cache = class;
    }

    /// Emits one key event.
    pub fn send_key(&mut self, key: u16, value: i32)
        ensures
            same_state(*final(self), *old(self)),
            actions_view(final(self).actions@) == actions_view(old(self).actions@).push(ActionView::Key(key, value)),
            final(self).modifiers == old(self).modifiers,
            final(self).override_remaps == old(self).override_remaps,
            final(self).override_timeout_key == old(self).override_timeout_key,
            final(self).override_timer == old(self).override_timer,
    {
        push_action(&mut self.actions, key_action(key, value));
    }

    /// Emits one action.
    pub fn send_action(&mut self, a: Action)
        ensures
            same_state(*final(self), *old(self)),
            actions_view(final(self).actions@) == actions_view(old(self).actions@).push(a@),
            final(self).modifiers == old(self).modifiers,
            final(self).override_remaps == old(self).override_remaps,
            final(self).override_timeout_key == old(self).override_timeout_key,
            final(self).override_timer == old(self).override_timer,
    {
        push_action(&mut self.actions, a);
    }

    /// Emits one key event per key.
    pub fn send_keys(&mut self, keys: &Vec<u16>, value: i32)
        ensures
            same_state(*final(self), *old(self)),
            actions_view(final(self).actions@) == actions_view(old(self).actions@) + keys@.map_values(
                |k: u16| ActionView::Key(k, value),
            ),
            final(self).modifiers == old(self).modifiers,
            final(self).override_remaps == old(self).override_remaps,
            final(self).override_timeout_key == old(self).override_timeout_key,
            final(self).override_timer == old(self).override_timer,
    {
        let ghost o = actions_view(self.actions@);
        let mut i: usize = 0;
        while i < keys.len()
            invariant
                i <= keys@.len(),
                actions_view(self.actions@) == o + keys@.subrange(0, i as int).map_values(|k: u16| ActionView::Key(k, value)),
                same_state(*self, *old(self)),
                self.modifiers == old(self).modifiers,
                self.override_remaps == old(self).override_remaps,
                self.override_timeout_key == old(self).override_timeout_key,
                self.override_timer == old(self).override_timer,
            decreases keys@.len() - i,
        {
            self.send_key(keys[i], value);
            i = i + 1;
            assert(actions_view(self.actions@) =~= o + keys@.subrange(0, i as int).map_values(|k: u16| ActionView::Key(k, value)));
        }
        assert(keys@.subrange(0, keys@.len() as int) =~= keys@);
    }

    /// Tears the override stack down and stops its timer.
    pub fn remove_override(&mut self)
        ensures
            same_state(*final(self), *old(self)),
            final(self).override_remaps@.len() == 0,
            final(self).override_timeout_key is None,
            final(self).override_timer is None,
            final(self).actions == old(self).actions,
            final(self).modifiers == old(self).modifiers,
    {
        self.override_timer = None;
        self.override_remaps = Vec::new();
        self.override_timeout_key = None;
    }

    /// The override timer fired (or the stack is abandoned): the timeout
    /// keys are tapped, each pressed then released, and the stack is torn down.
    pub fn timeout_override(&mut self)
        ensures
            same_state(*final(self), *old(self)),
            actions_view(final(self).actions@) == actions_view(old(self).actions@) + timeout_taps(old(self).override_timeout_key),
            final(self).override_remaps@.len() == 0,
            final(self).override_timeout_key is None,
            final(self).override_timer is None,
            final(self).modifiers == old(self).modifiers,
    {
        let ghost o = actions_view(self.actions@);
        let keys = self.override_timeout_key.take();
        match keys {
            Some(keys) => {
                let mut i: usize = 0;
                while i < keys.len()
                    invariant
                        i <= keys@.len(),
                        actions_view(self.actions@) == o + taps(keys@.subrange(0, i as int)),
                        same_state(*self, *old(self)),
                        self.override_timeout_key is None,
                        self.modifiers == old(self).modifiers,
                    decreases keys@.len() - i,
                {
                    assert(keys@.subrange(0, i + 1).drop_last() =~= keys@.subrange(0, i as int));
                    self.send_key(keys[i], PRESS);
                    self.send_key(keys[i], RELEASE);
                    i = i + 1;
                    assert(actions_view(self.actions@) =~= o + taps(keys@.subrange(0, i as int)));
                }
                assert(keys@.subrange(0, keys@.len() as int) =~= keys@);
            },
            None => {
                assert(actions_view(self.actions@) =~= o + timeout_taps(old(self).override_timeout_key));
            },
        }
        self.remove_override();
    }

    /// A nested remap is dispatched by `key` at `now`: its table becomes the
    /// top layer. The first layer of a stack starts the one timer that
    /// governs the whole stack, and fixes the keys tapped on timeout: the
    /// remap's own, else the key that pushed it.
    pub fn push_override(&mut self, remap: &Remap, exact_match: bool, key: u16, now: u64)
        ensures
            same_state(*final(self), *old(self)),
            pushed_override(*old(self), *final(self), *remap, exact_match, key, now),
            final(self).actions == old(self).actions,
            final(self).modifiers == old(self).modifiers,
    {
        let set_timeout = self.override_remaps.len() == 0;
        let layer = build_override_table(remap, exact_match);
        let ghost before = self.override_remaps@;
        self.override_remaps.push(layer);
        assert(self.override_remaps@.drop_last() =~= before);
        if set_timeout {
            match remap.timeout_ms {
                Some(t) => {
                    let at = if t > u64::MAX - now {
                        u64::MAX
                    } else {
                        now + t
                    };
                    self.override_timer = Some(at);
                    let keys = match &remap.timeout_key {
                        Some(k) => k.clone(),
                        None => {
                            let mut v: Vec<u16> = Vec::new();
                            v.push(key);
                            v
                        },
                    };
                    self.override_timeout_key = Some(keys);
                },
                None => {},
            }
        }
    }
}

/// A sequence without any occurrence of `k`.
pub open spec fn without(s: Seq<u16>, k: u16) -> Seq<u16>
    decreases s.len(),
{
    if s.len() == 0 {
        Seq::empty()
    } else if s.last() == k {
        without(s.drop_last(), k)
    } else {
        without(s.drop_last(), k).push(s.last())
    }
}

/// Each key pressed then released, in order.
pub open spec fn taps(keys: Seq<u16>) -> Seq<ActionView>
    decreases keys.len(),
{
    if keys.len() == 0 {
        Seq::empty()
    } else {
        taps(keys.drop_last()) + seq![ActionView::Key(keys.last(), PRESS), ActionView::Key(keys.last(), RELEASE)]
    }
}

/// The taps of the timeout keys, if any are set.
pub open spec fn timeout_taps(k: Option<Vec<u16>>) -> Seq<ActionView> {
    match k {
        Some(keys) => taps(keys@),
        None => Seq::empty(),
    }
}

/// An override entry made from a nested remap's item.
pub open spec fn layer_entry(x: (u16, KeymapEntry), item: (KeyPress, Vec<KeymapAction>), exact_match: bool) -> bool {
    &&& x.0 == item.0.key
    &&& x.1.modifiers@ == item.0.modifiers@
    &&& same_actions(item.1@, x.1.actions@)
    &&& x.1.exact_match == exact_match
    &&& x.1.title is None && x.1.application is None && x.1.device is None && x.1.mode is None
}

/// The layer that a nested remap pushes: one entry per item, in order.
pub open spec fn override_layer(remap: Remap, exact_match: bool, layer: Seq<(u16, KeymapEntry)>) -> bool {
    &&& layer.len() == remap.remap@.len()
    &&& forall|i: int| 0 <= i < layer.len() ==> layer_entry(#[trigger] layer[i], remap.remap@[i], exact_match)
}

/// What pushing a nested remap does to the override stack: the new layer
/// goes on top; the first layer of a stack with a timeout arms the timer and
/// fixes the timeout keys; otherwise the timer and keys stay.
pub open spec fn pushed_override(old: EventHandler, new: EventHandler, remap: Remap, exact_match: bool, key: u16, now: u64) -> bool {
    &&& new.override_remaps@.len() == old.override_remaps@.len() + 1
    &&& new.override_remaps@.drop_last() == old.override_remaps@
    &&& override_layer(remap, exact_match, new.override_remaps@.last()@)
    &&& if old.override_remaps@.len() == 0 && remap.timeout_ms is Some {
        &&& new.override_timer == Some(deadline(now, remap.timeout_ms->0))
        &&& new.override_timeout_key is Some
        &&& new.override_timeout_key->0@ == timeout_keys_of(remap.timeout_key, key)
    } else {
        new.override_timer == old.override_timer && new.override_timeout_key == old.override_timeout_key
    }
}

/// The layer that a nested remap pushes: one entry per key press, with no
/// context of its own.
pub fn build_override_table(remap: &Remap, exact_match: bool) -> (r: Vec<(u16, KeymapEntry)>)
    ensures
        override_layer(*remap, exact_match, r@),
{
    let mut out: Vec<(u16, KeymapEntry)> = Vec::new();
    let mut i: usize = 0;
    while i < remap.remap.len()
        invariant
            i <= remap.remap@.len(),
            out@.len() == i,
            forall|j: int| 0 <= j < i ==> layer_entry(#[trigger] out@[j], remap.remap@[j], exact_match),
        decreases remap.remap@.len() - i,
    {
        let (kp, acts) = &remap.remap[i];
        let mut mods: Vec<Modifier> = Vec::new();
        let mut k: usize = 0;
        while k < kp.modifiers.len()
            invariant
                k <= kp.modifiers@.len(),
                mods@ == kp.modifiers@.subrange(0, k as int),
            decreases kp.modifiers@.len() - k,
        {
            mods.push(kp.modifiers[k]);
            k = k + 1;
            assert(mods@ =~= kp.modifiers@.subrange(0, k as int));
        }
        assert(kp.modifiers@.subrange(0, kp.modifiers@.len() as int) =~= kp.modifiers@);
        let entry = KeymapEntry {
            actions: copy_keymap_actions(acts),
            modifiers: mods,
            application: None,
            title: None,
            device: None,
            mode: None,
            exact_match,
        };
        let ghost prev = out@;
        out.push((kp.key, entry));
        assert(forall|j: int| 0 <= j < i ==> out@[j] == prev[j]);
        assert(layer_entry(out@[i as int], remap.remap@[i as int], exact_match));
        i = i + 1;
    }
    out
}

/// The keys an override tapped on timeout: the configured ones, else the
/// key that pushed it.
pub open spec fn timeout_keys_of(configured: Option<Vec<u16>>, key: u16) -> Seq<u16> {
    match configured {
        Some(k) => k@,
        None => seq![key],
    }
}

/// An override pushed on an empty stack with a timeout, and left until its
/// timer fires, taps its timeout keys once each and nothing else; with the
/// default timeout key that is exactly one press and one release of the key
/// that pushed it. Afterwards no timeout key is left, so a later expiry taps
/// nothing.
pub proof fn lemma_override_timeout_taps_once(
    h0: EventHandler,
    h1: EventHandler,
    h2: EventHandler,
    remap: Remap,
    key: u16,
    now: u64,
)
    requires
        h0.override_remaps@.len() == 0,
        remap.timeout_ms is Some,
        h1.override_timer == Some(deadline(now, remap.timeout_ms->0)),
        h1.override_timeout_key is Some,
        h1.override_timeout_key->0@ == timeout_keys_of(remap.timeout_key, key),
        h1.actions == h0.actions,
        actions_view(h2.actions@) == actions_view(h1.actions@) + timeout_taps(h1.override_timeout_key),
        h2.override_timeout_key is None,
    ensures
        actions_view(h2.actions@) == actions_view(h0.actions@) + taps(timeout_keys_of(remap.timeout_key, key)),
        remap.timeout_key is None ==> actions_view(h2.actions@) == actions_view(h0.actions@) + seq![
            ActionView::Key(key, PRESS),
            ActionView::Key(key, RELEASE),
        ],
        timeout_taps(h2.override_timeout_key) == Seq::<ActionView>::empty(),
{
    if remap.timeout_key is None {
        let s = seq![key];
        assert(s.drop_last() =~= Seq::<u16>::empty());
        assert(s.last() == key);
        assert(taps(s.drop_last()) =~= Seq::<ActionView>::empty());
        assert(taps(s) =~= seq![ActionView::Key(key, PRESS), ActionView::Key(key, RELEASE)]);
    }
}

/// The first slot of the table that holds `key`, from `i` on.
pub open spec fn first_slot(t: Seq<(u16, Vec<KeymapEntry>)>, key: u16, i: int) -> Option<int>
    decreases t.len() - i,
{
    if i < 0 || i >= t.len() {
        None
    } else if t[i].0 == key {
        Some(i)
    } else {
        first_slot(t, key, i + 1)
    }
}

/// What the keymap table resolves a key to, if anything.
pub open spec fn table_resolution(t: Seq<(u16, Vec<KeymapEntry>)>, key: u16, c: MatchContext) -> Option<Seq<(int, Seq<u16>)>> {
    match first_slot(t, key, 0) {
        Some(s) => select_entries(t[s].1@, c),
        None => None,
    }
}

/// The entries of a layer for a key, in order.
pub open spec fn entries_for_key(l: Seq<(u16, KeymapEntry)>, key: u16) -> Seq<KeymapEntry>
    decreases l.len(),
{
    if l.len() == 0 {
        Seq::empty()
    } else if l.last().0 == key {
        entries_for_key(l.drop_last(), key).push(l.last().1)
    } else {
        entries_for_key(l.drop_last(), key)
    }
}

/// The entries of the override stack for a key: bottom layer first.
pub open spec fn layer_entries(layers: Seq<Vec<(u16, KeymapEntry)>>, key: u16) -> Seq<KeymapEntry>
    decreases layers.len(),
{
    if layers.len() == 0 {
        Seq::empty()
    } else {
        layer_entries(layers.drop_last(), key) + entries_for_key(layers.last()@, key)
    }
}

/// Whether the override stack resolves the key.
pub open spec fn override_claims(layers: Seq<Vec<(u16, KeymapEntry)>>, key: u16, c: MatchContext) -> bool {
    layer_entries(layers, key).len() > 0 && select_entries(layer_entries(layers, key), c) is Some
}

/// Where a key's resolution came from.
pub enum Resolution {
    /// Entries taken from the override stack, and the picks among them.
    Override(Vec<KeymapEntry>, Vec<Pick>),
    /// The keymap table's candidate list at this index, and the picks.
    Table(usize, Vec<Pick>),
    Nothing,
}

pub open spec fn or_empty_text(v: Option<String>) -> Seq<char> {
    match v {
        Some(s) => s@,
        None => Seq::empty(),
    }
}

/// Held keys that a key tap releases: modifier keys not set aside as extra.
pub open spec fn keep_extra(s: Seq<u16>, set_aside: Seq<u16>) -> Seq<u16>
    decreases s.len(),
{
    if s.len() == 0 {
        Seq::empty()
    } else if is_modifier_key(s.last()) && !set_aside.contains(s.last()) {
        keep_extra(s.drop_last(), set_aside).push(s.last())
    } else {
        keep_extra(s.drop_last(), set_aside)
    }
}

/// Missing keys that a key tap presses: modifier keys only.
pub open spec fn keep_modifiers(s: Seq<u16>) -> Seq<u16> {
    keep_extra(s, Seq::empty())
}

pub open spec fn key_events(s: Seq<u16>, v: i32) -> Seq<ActionView> {
    s.map_values(|k: u16| ActionView::Key(k, v))
}

/// The actions of tapping a key press: missing modifiers are pressed and
/// extra ones released around the tap, then restored.
pub open spec fn key_press_actions(
    held: Seq<u16>,
    set_aside: Seq<u16>,
    kp_key: u16,
    kp_mods: Seq<Modifier>,
    delay: u64,
) -> Seq<ActionView> {
    let extra = keep_extra(extra_of(held, kp_mods), set_aside);
    let missing = keep_modifiers(missing_of(held, kp_mods));
    key_events(missing, PRESS) + key_events(extra, RELEASE) + seq![
        ActionView::Key(kp_key, PRESS),
        ActionView::Key(kp_key, RELEASE),
        ActionView::Delay(delay),
    ] + key_events(extra, PRESS) + seq![ActionView::Delay(delay)] + key_events(missing, RELEASE)
}

fn keep_extra_exec(s: &Vec<u16>, set_aside: &Vec<u16>) -> (r: Vec<u16>)
    ensures
        r@ == keep_extra(s@, set_aside@),
{
    let mut out: Vec<u16> = Vec::new();
    let mut i: usize = 0;
    while i < s.len()
        invariant
            i <= s@.len(),
            out@ == keep_extra(s@.subrange(0, i as int), set_aside@),
        decreases s@.len() - i,
    {
        assert(s@.subrange(0, i + 1).drop_last() =~= s@.subrange(0, i as int));
        let k = s[i];
        let mut aside = false;
        let mut j: usize = 0;
        while j < set_aside.len()
            invariant
                j <= set_aside@.len(),
                aside == (exists|m: int| 0 <= m < j && set_aside@[m] == k),
            decreases set_aside@.len() - j,
        {
            if set_aside[j] == k {
                aside = true;
            }
            j = j + 1;
        }
        if modifier_key(k) && !aside {
            out.push(k);
        }
        i = i + 1;
    }
    assert(s@.subrange(0, s@.len() as int) =~= s@);
    out
}

fn mode_in(modes: &Vec<String>, mode: &String) -> (r: bool)
    ensures
        r == (exists|i: int| 0 <= i < modes@.len() && modes@[i]@ == mode@),
{
    let mut i: usize = 0;
    while i < modes.len()
        invariant
            i <= modes@.len(),
            forall|j: int| 0 <= j < i ==> modes@[j]@ != mode@,
        decreases modes@.len() - i,
    {
        let same = modes[i] == *mode;
        if same {
            assert(modes@[i as int]@ == mode@);
            return true;
        }
        i = i + 1;
    }
    false
}

fn text_of(v: &Option<String>) -> (r: String)
    ensures
        r@ == or_empty_text(*v),
{
    match v {
        Some(s) => s.clone(),
        None => String::new(),
    }
}

impl EventHandler {
    /// The context keymap entries are checked against.
    pub open spec fn match_context(&self, device: InputDeviceInfo) -> MatchContext {
        MatchContext {
            held: self.modifiers@,
            title: or_empty_text(self.title_cache),
            class: or_empty_text(self.application_cache),
            device_name: device.name@,
            device_path: device.path@,
            mode: self.mode@,
        }
    }

    fn entry_applies_exec(&self, e: &KeymapEntry, exact_pass: bool, device: &InputDeviceInfo, title: &String, class: &String) -> (r: bool)
        requires
            title@ == or_empty_text(self.title_cache),
            class@ == or_empty_text(self.application_cache),
        ensures
            r == entry_applies(*e, exact_pass, self.match_context(*device)),
    {
        if e.exact_match && !exact_pass {
            return false;
        }
        let (extra, missing) = self.diff_modifiers(&e.modifiers);
        if exact_pass && extra.len() > 0 {
            return false;
        }
        if missing.len() > 0 {
            return false;
        }
        match &e.title {
            Some(m) => {
                if !match_names(m, title) {
                    return false;
                }
            },
            None => {},
        }
        match &e.application {
            Some(m) => {
                if !match_names(m, class) {
                    return false;
                }
            },
            None => {},
        }
        match &e.device {
            Some(m) => {
                if !(match_names(m, &device.name) || match_names(m, &device.path)) {
                    return false;
                }
            },
            None => {},
        }
        match &e.mode {
            Some(modes) => mode_in(modes, &self.mode),
            None => true,
        }
    }

    /// Whether a title matcher accepts the active window's title.
    pub fn match_window(&self, m: &OnlyOrNot) -> (r: bool)
        ensures
            r == names_match(*m, or_empty_text(self.title_cache)),
    {
        match_names(m, &text_of(&self.title_cache))
    }

    /// Whether a class matcher accepts the active window's class.
    pub fn match_application(&self, m: &OnlyOrNot) -> (r: bool)
        ensures
            r == names_match(*m, or_empty_text(self.application_cache)),
    {
        match_names(m, &text_of(&self.application_cache))
    }

    /// Whether a device matcher accepts the device, by name or path.
    pub fn match_device(&self, m: &OnlyOrNot, device: &InputDeviceInfo) -> (r: bool)
        ensures
            r == (names_match(*m, device.name@) || names_match(*m, device.path@)),
    {
        match_names(m, &device.name) || match_names(m, &device.path)
    }

    /// Scans candidates in one pass, as `scan_pass` describes.
    fn scan_candidates(&self, es: &Vec<KeymapEntry>, exact_pass: bool, device: &InputDeviceInfo, title: &String, class: &String) -> (r: Option<Vec<Pick>>)
        requires
            title@ == or_empty_text(self.title_cache),
            class@ == or_empty_text(self.application_cache),
        ensures
            match r {
                Some(p) => scan_pass(es@, self.match_context(*device), exact_pass, 0, 0, Seq::empty()) == Some(picks_view(p@))
                    && forall|j: int| 0 <= j < p@.len() ==> p@[j].index < es@.len(),
                None => scan_pass(es@, self.match_context(*device), exact_pass, 0, 0, Seq::empty()) is None,
            },
    {
        let ghost c = self.match_context(*device);
        let mut remaps: Vec<Pick> = Vec::new();
        let mut tier: usize = 0;
        assert(picks_view(remaps@) =~= Seq::<(int, Seq<u16>)>::empty());
        while tier < 3
            invariant
                tier <= 3,
                c == self.match_context(*device),
                title@ == or_empty_text(self.title_cache),
                class@ == or_empty_text(self.application_cache),
                scan_pass(es@, c, exact_pass, 0, 0, Seq::empty()) == scan_pass(es@, c, exact_pass, tier as int, 0, picks_view(remaps@)),
                forall|j: int| 0 <= j < remaps@.len() ==> remaps@[j].index < es@.len(),
            decreases 3 - tier,
        {
            let mut i: usize = 0;
            while i < es.len()
                invariant
                    tier < 3,
                    i <= es@.len(),
                    c == self.match_context(*device),
                    title@ == or_empty_text(self.title_cache),
                    class@ == or_empty_text(self.application_cache),
                    scan_pass(es@, c, exact_pass, 0, 0, Seq::empty()) == scan_pass(es@, c, exact_pass, tier as int, i as int, picks_view(remaps@)),
                    forall|j: int| 0 <= j < remaps@.len() ==> remaps@[j].index < es@.len(),
                decreases es@.len() - i,
            {
                let e = &es[i];
                let t: usize = if e.title.is_some() {
                    0
                } else if e.application.is_some() {
                    1
                } else {
                    2
                };
                if t != tier || !self.entry_applies_exec(e, exact_pass, device, title, class) {
                    i = i + 1;
                } else {
                    let (extra, _) = self.diff_modifiers(&e.modifiers);
                    let r = is_remap(&e.actions);
                    if !r {
                        let mut out: Vec<Pick> = Vec::new();
                        out.push(Pick { index: i, extra });
                        assert(picks_view(out@) =~= seq![(i as int, extra_of(c.held, e.modifiers@))]);
                        return Some(out);
                    } else {
                        let ghost pv = picks_view(remaps@);
                        remaps.push(Pick { index: i, extra });
                        assert(picks_view(remaps@) =~= pv.push((i as int, extra_of(c.held, e.modifiers@))));
                    }
                    i = i + 1;
                }
            }
            tier = tier + 1;
        }
        if remaps.len() > 0 {
            Some(remaps)
        } else {
            None
        }
    }

    /// Resolves a key against a candidate list: exact pass, then the pass
    /// that allows extra held modifiers.
    pub fn select_candidates(&self, es: &Vec<KeymapEntry>, device: &InputDeviceInfo) -> (r: Option<Vec<Pick>>)
        ensures
            match r {
                Some(p) => select_entries(es@, self.match_context(*device)) == Some(picks_view(p@))
                    && forall|j: int| 0 <= j < p@.len() ==> p@[j].index < es@.len(),
                None => select_entries(es@, self.match_context(*device)) is None,
            },
    {
        let title = text_of(&self.title_cache);
        let class = text_of(&self.application_cache);
        match self.scan_candidates(es, true, device, &title, &class) {
            Some(p) => Some(p),
            None => self.scan_candidates(es, false, device, &title, &class),
        }
    }

    /// Resolves a pressed key. A non-empty override stack is consulted
    /// first and torn down either way: its entries for the key resolve it if
    /// one applies, and if none is for the key its timeout keys are tapped.
    /// Otherwise the keymap table's candidates for the key resolve it.
    pub fn find_keymap(&mut self, config: &Config, key: u16, device: &InputDeviceInfo) -> (r: Resolution)
        ensures
            same_state(*final(self), *old(self)),
            final(self).modifiers == old(self).modifiers,
            final(self).title_cache == old(self).title_cache,
            final(self).application_cache == old(self).application_cache,
            old(self).override_remaps@.len() == 0 ==> *final(self) == *old(self),
            old(self).override_remaps@.len() > 0 ==> final(self).override_remaps@.len() == 0
                && final(self).override_timeout_key is None && final(self).override_timer is None,
            old(self).override_remaps@.len() > 0 && override_claims(old(self).override_remaps@, key, old(self).match_context(*device))
                ==> r is Override && final(self).actions == old(self).actions,
            !(old(self).override_remaps@.len() > 0 && override_claims(old(self).override_remaps@, key, old(self).match_context(*device)))
                ==> !(r is Override) && (r is Nothing <==> table_resolution(
                config.keymap_table@,
                key,
                old(self).match_context(*device),
            ) is None),
            old(self).override_remaps@.len() > 0 && !override_claims(old(self).override_remaps@, key, old(self).match_context(*device))
                ==> actions_view(final(self).actions@) == actions_view(old(self).actions@) + timeout_taps(
                old(self).override_timeout_key,
            ),
            match r {
                Resolution::Table(slot, p) => slot < config.keymap_table@.len() && config.keymap_table@[slot as int].0 == key
                    && first_slot(config.keymap_table@, key, 0) == Some(slot as int)
                    && select_entries(config.keymap_table@[slot as int].1@, old(self).match_context(*device)) == Some(picks_view(p@))
                    && forall|j: int| 0 <= j < p@.len() ==> p@[j].index < config.keymap_table@[slot as int].1@.len(),
                Resolution::Override(es, p) => old(self).override_remaps@.len() > 0
                    && es@ == layer_entries(old(self).override_remaps@, key)
                    && select_entries(es@, old(self).match_context(*device)) == Some(picks_view(p@))
                    && forall|j: int| 0 <= j < p@.len() ==> p@[j].index < es@.len(),
                Resolution::Nothing => true,
            },
    {
        let ghost ctx = self.match_context(*device);
        if self.override_remaps.len() > 0 {
            let ghost all = self.override_remaps@;
            let mut layers: Vec<Vec<(u16, KeymapEntry)>> = Vec::new();
            std::mem::swap(&mut layers, &mut self.override_remaps);
            let mut entries: Vec<KeymapEntry> = Vec::new();
            let ghost mut done: int = 0;
            assert(layer_entries(all.subrange(0, 0), key) =~= Seq::<KeymapEntry>::empty());
            while layers.len() > 0
                invariant
                    same_state(*self, *old(self)),
                    self.actions == old(self).actions,
                    self.override_timeout_key == old(self).override_timeout_key,
                    self.override_remaps@.len() == 0,
                    0 <= done,
                    done + layers@.len() == all.len(),
                    layers@ == all.subrange(done, all.len() as int),
                    entries@ == layer_entries(all.subrange(0, done), key),
                decreases layers@.len(),
            {
                let mut layer = layers.remove(0);
                assert(layer == all[done]);
                let ghost lall = layer@;
                let ghost base = entries@;
                let ghost mut d2: int = 0;
                assert(entries_for_key(lall.subrange(0, 0), key) =~= Seq::<KeymapEntry>::empty());
                while layer.len() > 0
                    invariant
                        same_state(*self, *old(self)),
                        self.actions == old(self).actions,
                        self.override_timeout_key == old(self).override_timeout_key,
                        self.override_remaps@.len() == 0,
                        0 <= d2,
                        d2 + layer@.len() == lall.len(),
                        layer@ == lall.subrange(d2, lall.len() as int),
                        entries@ == base + entries_for_key(lall.subrange(0, d2), key),
                    decreases layer@.len(),
                {
                    let (k, e) = layer.remove(0);
                    assert((k, e) == lall[d2]);
                    let ghost pe = entries@;
                    if k == key {
                        entries.push(e);
                    }
                    proof {
                        assert(lall.subrange(0, d2 + 1).drop_last() =~= lall.subrange(0, d2));
                        assert(lall.subrange(0, d2 + 1).last() == lall[d2]);
                        if k == key {
                            assert(entries@ =~= base + entries_for_key(lall.subrange(0, d2 + 1), key));
                        }
                        d2 = d2 + 1;
                    }
                }
                proof {
                    assert(lall.subrange(0, d2) =~= lall);
                    assert(all.subrange(0, done + 1).drop_last() =~= all.subrange(0, done));
                    assert(all.subrange(0, done + 1).last() == all[done]);
                    done = done + 1;
                }
            }
            assert(all.subrange(0, done) =~= all);
            if entries.len() > 0 {
                match self.select_candidates(&entries, device) {
                    Some(p) => {
                        self.remove_override();
                        return Resolution::Override(entries, p);
                    },
                    None => {},
                }
            }
            self.timeout_override();
        }
        let mut slot: usize = 0;
        while slot < config.keymap_table.len()
            invariant
                slot <= config.keymap_table@.len(),
                self.modifiers == old(self).modifiers,
                self.title_cache == old(self).title_cache,
                self.application_cache == old(self).application_cache,
                self.mode == old(self).mode,
                same_state(*self, *old(self)),
                ctx == old(self).match_context(*device),
                old(self).override_remaps@.len() == 0 ==> *self == *old(self),
                old(self).override_remaps@.len() > 0 ==> self.override_remaps@.len() == 0
                    && self.override_timeout_key is None && self.override_timer is None
                    && !override_claims(old(self).override_remaps@, key, ctx)
                    && actions_view(self.actions@) == actions_view(old(self).actions@) + timeout_taps(
                    old(self).override_timeout_key,
                ),
                first_slot(config.keymap_table@, key, 0) == first_slot(config.keymap_table@, key, slot as int),
            decreases config.keymap_table@.len() - slot,
        {
            if config.keymap_table[slot].0 == key {
                return match self.select_candidates(&config.keymap_table[slot].1, device) {
                    Some(p) => Resolution::Table(slot, p),
                    None => Resolution::Nothing,
                };
            }
            slot = slot + 1;
        }
        Resolution::Nothing
    }

    /// Taps a key press: modifiers it asks for and that are not held are
    /// pressed around the tap, held modifier keys it does not ask for (and
    /// that no entry set aside) are released around it.
    pub fn send_key_press_and_release(&mut self, kp: &KeyPress)
        ensures
            actions_view(final(self).actions@) == actions_view(old(self).actions@) + key_press_actions(
                old(self).modifiers@,
                old(self).extra_modifiers@,
                kp.key,
                kp.modifiers@,
                old(self).keypress_delay_ms,
            ),
            same_state(*final(self), *old(self)),
            final(self).modifiers == old(self).modifiers,
            final(self).extra_modifiers == old(self).extra_modifiers,
            final(self).override_remaps == old(self).override_remaps,
            final(self).override_timeout_key == old(self).override_timeout_key,
            final(self).override_timer == old(self).override_timer,
            final(self).keypress_delay_ms == old(self).keypress_delay_ms,
    {
        let ghost o = actions_view(self.actions@);
        let (extra0, missing0) = self.diff_modifiers(&kp.modifiers);
        let extra = keep_extra_exec(&extra0, &self.extra_modifiers);
        let none: Vec<u16> = Vec::new();
        let missing = keep_extra_exec(&missing0, &none);
        self.send_keys(&missing, PRESS);
        self.send_keys(&extra, RELEASE);
        self.send_key(kp.key, PRESS);
        self.send_key(kp.key, RELEASE);
        let d = self.keypress_delay_ms;
        self.send_action(Action::Delay(d));
        self.send_keys(&extra, PRESS);
        self.send_action(Action::Delay(d));
        self.send_keys(&missing, RELEASE);
        assert(actions_view(self.actions@) =~= o + key_press_actions(
            old(self).modifiers@,
            old(self).extra_modifiers@,
            kp.key,
            kp.modifiers@,
            old(self).keypress_delay_ms,
        ));
    }
}

/// `n` taps of one key.
pub open spec fn repeat_taps(k: u16, n: nat) -> Seq<ActionView>
    decreases n,
{
    if n == 0 {
        Seq::empty()
    } else {
        repeat_taps(k, (n - 1) as nat) + seq![ActionView::Key(k, PRESS), ActionView::Key(k, RELEASE)]
    }
}

/// How many characters a completed hotstring erases: its trigger, and the
/// delimiter that completed it unless it is immediate or omits it.
pub open spec fn erase_len_of(h: AhkHotstring) -> nat {
    h.trigger@.len() + if !h.immediate && !h.omit_char {
        1nat
    } else {
        0nat
    }
}

/// What a completed hotstring emits: one Backspace tap per erased
/// character, then its command (a `Run(...)` replacement of an executing
/// hotstring) or its text expansion.
pub open spec fn expansion_actions(h: AhkHotstring) -> Seq<ActionView> {
    repeat_taps(KEY_BACKSPACE, erase_len_of(h)) + if h.execute {
        match action_of(h.replacement@) {
            Ok(Node::Run(parts)) => seq![ActionView::Command(crate::interpreter::run_command_of(parts))],
            _ => Seq::empty(),
        }
    } else {
        seq![
            ActionView::TextExpansion(
                erase_len_of(h) as usize,
                h.replacement@,
                !h.omit_char && !h.immediate,
            ),
        ]
    }
}

/// The matcher's buffer after a key that types no character: Backspace
/// forgets the last character, any other key forgets all.
pub open spec fn buffer_after_other_key(b: Seq<char>, key: u16) -> Seq<char> {
    if key == KEY_BACKSPACE {
        if b.len() > 0 {
            b.drop_last()
        } else {
            b
        }
    } else {
        Seq::empty()
    }
}

impl EventHandler {
    /// Feeds a pressed key to the hotstring matcher. Returns whether a
    /// hotstring completed, in which case its expansion was emitted and the
    /// key must not be passed on.
    pub fn feed_hotstring(&mut self, matcher: &HotstringMatcher, key: u16) -> (consumed: bool)
        ensures
            others_same(*old(self), *final(self)),
            old(self).hotstring_state.buffer@.len() <= crate::hotstring::BUFFER_CAP
                ==> final(self).hotstring_state.buffer@.len() <= crate::hotstring::BUFFER_CAP,
            final(self).multi_purpose_keys == old(self).multi_purpose_keys,
            final(self).pressed_keys == old(self).pressed_keys,
            match char_of_key(key) {
                Some(c) => match match_at(matcher.hotstrings@, old(self).hotstring_state.buffer@, c) {
                    Some(i) => consumed && final(self).hotstring_state.buffer@.len() == 0
                        && actions_view(final(self).actions@) == actions_view(old(self).actions@)
                        + expansion_actions(matcher.hotstrings@[i]),
                    None => !consumed && final(self).hotstring_state.buffer@ == push_capped(
                        old(self).hotstring_state.buffer@,
                        c,
                    ) && final(self).actions == old(self).actions,
                },
                None => !consumed && final(self).hotstring_state.buffer@ == buffer_after_other_key(
                    old(self).hotstring_state.buffer@,
                    key,
                ) && final(self).actions == old(self).actions,
            },
            final(self).modifiers == old(self).modifiers,
            final(self).override_remaps == old(self).override_remaps,
            final(self).title_cache == old(self).title_cache,
            final(self).application_cache == old(self).application_cache,
    {
        match key_to_char(key) {
            Some(c) => {
                let (st, m) = matcher.process(&self.hotstring_state, c);
                match m {
                    Some(i) => {
                        proof {
                            lemma_match_fits(matcher.hotstrings@, self.hotstring_state.buffer@, c);
                        }
                        self.hotstring_state = st;
                        let h = &matcher.hotstrings[i];
                        let ghost o = actions_view(self.actions@);
                        let tl = h.trigger.as_str().unicode_len();
                        let erase: usize = if !h.immediate && !h.omit_char {
                            tl + 1
                        } else {
                            tl
                        };
                        let mut n: usize = 0;
                        while n < erase
                            invariant
                                n <= erase,
                                actions_view(self.actions@) == o + repeat_taps(KEY_BACKSPACE, n as nat),
                                self.modifiers == old(self).modifiers,
                                self.override_remaps == old(self).override_remaps,
                                self.title_cache == old(self).title_cache,
                                self.application_cache == old(self).application_cache,
                                self.hotstring_state.buffer@.len() == 0,
                                others_same(*old(self), *self),
                                self.multi_purpose_keys == old(self).multi_purpose_keys,
                                self.pressed_keys == old(self).pressed_keys,
                            decreases erase - n,
                        {
                            self.send_key(KEY_BACKSPACE, PRESS);
                            self.send_key(KEY_BACKSPACE, RELEASE);
                            n = n + 1;
                            assert(actions_view(self.actions@) =~= o + repeat_taps(KEY_BACKSPACE, n as nat));
                        }
                        let ghost mid = actions_view(self.actions@);
                        if h.execute {
                            let rep = crate::text::to_chars(h.replacement.as_str());
                            match parse_action(&rep) {
                                Ok(AhkAction::Run(parts)) => {
                                    let cmd = crate::interpreter::run_command(&parts);
                                    self.send_action(Action::Command(cmd));
                                },
                                _ => {},
                            }
                        } else {
                            self.send_action(
                                Action::TextExpansion {
                                    trigger_len: erase,
                                    replacement: h.replacement.clone(),
                                    add_space: !h.omit_char && !h.immediate,
                                },
                            );
                        }
                        assert(actions_view(self.actions@) =~= o + expansion_actions(matcher.hotstrings@[i as int]));
                        true
                    },
                    None => {
                        self.hotstring_state = st;
                        false
                    },
                }
            },
            None => {
                if key == KEY_BACKSPACE {
                    if self.hotstring_state.buffer.len() > 0 {
                        self.hotstring_state.buffer.pop();
                    }
                } else {
                    self.hotstring_state = HotstringMatcherState::idle();
                }
                false
            },
        }
    }
}

impl EventHandler {
    /// A key press with Shift added when the mark is set and Shift is not held.
    pub fn with_mark(&self, kp: &KeyPress) -> (r: KeyPress)
        ensures
            r.key == kp.key,
            (self.mark_set && !modifier_held(self.modifiers@, Modifier::Shift)) ==> r.modifiers@
                == kp.modifiers@.push(Modifier::Shift),
            !(self.mark_set && !modifier_held(self.modifiers@, Modifier::Shift)) ==> r.modifiers@
                == kp.modifiers@,
    {
        let mut m: Vec<Modifier> = Vec::new();
        let mut i: usize = 0;
        while i < kp.modifiers.len()
            invariant
                i <= kp.modifiers@.len(),
                m@ == kp.modifiers@.subrange(0, i as int),
            decreases kp.modifiers@.len() - i,
        {
            m.push(kp.modifiers[i]);
            i = i + 1;
            assert(m@ =~= kp.modifiers@.subrange(0, i as int));
        }
        assert(kp.modifiers@.subrange(0, kp.modifiers@.len() as int) =~= kp.modifiers@);
        if self.mark_set && !self.match_modifier(Modifier::Shift) {
            m.push(Modifier::Shift);
        }
        KeyPress { key: kp.key, modifiers: m }
    }

    /// Performs one keymap action for `key`, at `now`.
    pub fn dispatch_action(&mut self, action: &KeymapAction, exact_match: bool, key: u16, now: u64)
        ensures
            final(self).hotstring_state == old(self).hotstring_state,
            final(self).multi_purpose_keys == old(self).multi_purpose_keys,
            final(self).pressed_keys == old(self).pressed_keys,
            action_effect(*old(self), *final(self), *action, exact_match, key, now),
            final(self).modifiers == old(self).modifiers,
            final(self).title_cache == old(self).title_cache,
            final(self).application_cache == old(self).application_cache,
    {
        match action {
            KeymapAction::KeyPressAndRelease(kp) => self.send_key_press_and_release(kp),
            KeymapAction::KeyPress(k) => self.send_key(*k, PRESS),
            KeymapAction::KeyRepeat(k) => self.send_key(*k, REPEAT),
            KeymapAction::KeyRelease(k) => self.send_key(*k, RELEASE),
            KeymapAction::Remap(r) => self.push_override(r, exact_match, key, now),
            KeymapAction::Launch(cmd) => self.send_action(Action::Command(cmd.clone())),
            KeymapAction::SetMode(m) => {
                self.mode = m.clone();
            },
            KeymapAction::SetMark(b) => {
                self.mark_set = *b;
            },
            KeymapAction::WithMark(kp) => {
                let marked = self.with_mark(kp);
                self.send_key_press_and_release(&marked);
            },
            KeymapAction::EscapeNextKey(b) => {
                self.escape_next_key = *b;
            },
            KeymapAction::Sleep(ms) => self.send_action(Action::Delay(*ms)),
            KeymapAction::SetExtraModifiers(keys) => {
                self.extra_modifiers = keys.clone();
            },
            KeymapAction::AhkInterpreted(a) => {
                let ghost o = actions_view(self.actions@);
                let held = self.modifiers.clone();
                self.send_keys(&held, RELEASE);
                let interpreter = AhkInterpreter::new(self.title_cache.clone(), self.application_cache.clone());
                let mut out = interpreter.execute(a);
                let ghost mid = actions_view(self.actions@);
                let ghost produced = actions_view(out@);
                self.actions.append(&mut out);
                assert(actions_view(self.actions@) =~= mid + produced);
                self.send_keys(&held, PRESS);
                assert(actions_view(self.actions@) =~= o + key_events(old(self).modifiers@, RELEASE) + interp(
                    *a,
                    or_empty(old(self).title_cache),
                    or_empty(old(self).application_cache),
                ) + key_events(old(self).modifiers@, PRESS));
            },
        }
    }

    /// Performs the picked entries of a candidate list in order. While an
    /// entry's actions run, the held modifiers it did not ask for are set
    /// aside, so that its key taps release them.
    #[verifier::rlimit(60)]
    pub fn dispatch_picks(&mut self, entries: &Vec<KeymapEntry>, picks: &Vec<Pick>, key: u16, now: u64)
        requires
            forall|j: int| 0 <= j < picks@.len() ==> picks@[j].index < entries@.len(),
        ensures
            final(self).hotstring_state == old(self).hotstring_state,
            final(self).multi_purpose_keys == old(self).multi_purpose_keys,
            final(self).pressed_keys == old(self).pressed_keys,
            final(self).modifiers == old(self).modifiers,
            final(self).title_cache == old(self).title_cache,
            final(self).application_cache == old(self).application_cache,
            (forall|j: int| 0 <= j < picks@.len() ==> plain_actions(entries@[(#[trigger] picks@[j]).index as int].actions@))
                ==> actions_view(final(self).actions@) == actions_view(old(self).actions@) + picks_emissions(
                entries@,
                picks_view(picks@),
            ),
            no_set_aside(picks@) ==> exists|hs: Seq<EventHandler>|
                #![trigger hs.len()]
                hs.len() == pick_steps(entries@, picks@).len() + 1 && hs[0] == *old(self) && hs.last() == *final(self)
                    && forall|j: int|
                    0 <= j < pick_steps(entries@, picks@).len() ==> action_effect(
                        #[trigger] hs[j],
                        hs[j + 1],
                        pick_steps(entries@, picks@)[j].0,
                        pick_steps(entries@, picks@)[j].1,
                        key,
                        now,
                    ),
    {
        let ghost o = actions_view(self.actions@);
        let ghost ns = no_set_aside(picks@);
        let ghost mut hs: Seq<EventHandler> = seq![*self];
        let ghost all_plain = forall|j: int| 0 <= j < picks@.len() ==> plain_actions(entries@[(#[trigger] picks@[j]).index as int].actions@);
        let mut p: usize = 0;
        while p < picks.len()
            invariant
                p <= picks@.len(),
                forall|j: int| 0 <= j < picks@.len() ==> picks@[j].index < entries@.len(),
                self.modifiers == old(self).modifiers,
                self.hotstring_state == old(self).hotstring_state,
                self.title_cache == old(self).title_cache,
                self.application_cache == old(self).application_cache,
                self.multi_purpose_keys == old(self).multi_purpose_keys,
                self.pressed_keys == old(self).pressed_keys,
                all_plain == (forall|j: int| 0 <= j < picks@.len() ==> plain_actions(entries@[(#[trigger] picks@[j]).index as int].actions@)),
                all_plain ==> actions_view(self.actions@) == o + picks_emissions(entries@, picks_view(picks@.subrange(0, p as int))),
                ns == no_set_aside(picks@),
                ns ==> hs.len() == pick_steps(entries@, picks@.subrange(0, p as int)).len() + 1 && hs[0] == *old(self)
                    && hs.last() == *self && steps_chain(hs, pick_steps(entries@, picks@.subrange(0, p as int)), key, now),
            decreases picks@.len() - p,
        {
            let pick = &picks[p];
            let e = &entries[pick.index];
            let ghost mid = actions_view(self.actions@);
            assert(picks@.subrange(0, p + 1).drop_last() =~= picks@.subrange(0, p as int));
            assert(picks@.subrange(0, p + 1).last() == picks@[p as int]);
            assert(picks_view(picks@.subrange(0, p + 1)).drop_last() =~= picks_view(picks@.subrange(0, p as int)));
            assert(all_plain ==> plain_actions(e.actions@));
            let set_aside = pick.extra.len() > 0;
            assert(ns ==> !set_aside);
            if set_aside {
                self.extra_modifiers = pick.extra.clone();
            }
            let ghost before_steps = pick_steps(entries@, picks@.subrange(0, p as int));
            let ghost acts = e.actions@;
            proof {
                assert(pick_steps(entries@, picks@.subrange(0, p + 1)) =~= before_steps + entry_steps(*e));
                assert(before_steps + entry_steps(*e).subrange(0, 0) =~= before_steps);
            }
            let mut a: usize = 0;
            while a < e.actions.len()
                invariant
                    a <= e.actions@.len(),
                    self.modifiers == old(self).modifiers,
                    self.hotstring_state == old(self).hotstring_state,
                    self.title_cache == old(self).title_cache,
                    self.application_cache == old(self).application_cache,
                    self.multi_purpose_keys == old(self).multi_purpose_keys,
                    self.pressed_keys == old(self).pressed_keys,
                    all_plain ==> plain_actions(e.actions@),
                    all_plain ==> actions_view(self.actions@) == mid + emissions(e.actions@.subrange(0, a as int)),
                    ns ==> hs.len() == before_steps.len() + a + 1 && hs[0] == *old(self) && hs.last() == *self
                        && steps_chain(hs, before_steps + entry_steps(*e).subrange(0, a as int), key, now),
                decreases e.actions@.len() - a,
            {
                let ghost pre = *self;
                assert(e.actions@.subrange(0, a + 1).drop_last() =~= e.actions@.subrange(0, a as int));
                assert(e.actions@.subrange(0, a + 1).last() == e.actions@[a as int]);
                self.dispatch_action(&e.actions[a], e.exact_match, key, now);
                proof {
                    if all_plain {
                        assert(plain_emission(e.actions@[a as int]) is Some);
                    }
                    if ns {
                        let old_steps = before_steps + entry_steps(*e).subrange(0, a as int);
                        let new_steps = before_steps + entry_steps(*e).subrange(0, a + 1);
                        assert(new_steps =~= old_steps.push((e.actions@[a as int], e.exact_match)));
                        lemma_chain_push(hs, old_steps, *self, (e.actions@[a as int], e.exact_match), key, now);
                        hs = hs.push(*self);
                    }
                }
                a = a + 1;
            }
            assert(e.actions@.subrange(0, e.actions@.len() as int) =~= e.actions@);
            proof {
                assert(entry_steps(*e).subrange(0, e.actions@.len() as int) =~= entry_steps(*e));
            }
            if set_aside {
                self.extra_modifiers = Vec::new();
            }
            p = p + 1;
        }
        assert(picks@.subrange(0, picks@.len() as int) =~= picks@);
    }

}

/// Whether a static remap table has an entry for the key.
pub open spec fn modmap_has(m: Modmap, key: u16) -> bool {
    exists|j: int| 0 <= j < m.remap@.len() && (#[trigger] m.remap@[j]).0 == key
}

/// Whether a static remap table's scoping matches.
pub open spec fn modmap_applies(m: Modmap, c: MatchContext) -> bool {
    &&& (m.window is Some ==> names_match(m.window->0, c.title))
    &&& (m.application is Some ==> names_match(m.application->0, c.class))
    &&& (m.device is Some ==> names_match(m.device->0, c.device_name) || names_match(
        m.device->0,
        c.device_path,
    ))
    &&& (m.mode is Some ==> exists|i: int| 0 <= i < m.mode->0@.len() && m.mode->0@[i]@ == c.mode)
}

/// A key that no static remap names, with no multi-purpose key pending and
/// any earlier press of it recorded as itself: it reaches the keymap as it
/// came.
pub open spec fn untouched_key(h: EventHandler, config: &Config, key: u16) -> bool {
    &&& forall|i: int| 0 <= i < config.modmap@.len() ==> !modmap_has(config.modmap@[i], key)
    &&& h.multi_purpose_keys@.len() == 0
    &&& forall|j: int| 0 <= j < h.pressed_keys@.len() && h.pressed_keys@[j].0 == key ==> h.pressed_keys@[j].1 == key
}

/// The pseudo key of a relative event: axis and direction.
pub open spec fn disguised_key(e: RelativeEvent) -> u16 {
    if e.value < 0 {
        (e.code * 2 + 1 + DISGUISED_EVENT_OFFSETTER) as u16
    } else {
        (e.code * 2 + DISGUISED_EVENT_OFFSETTER) as u16
    }
}

/// Whether nothing claims a pseudo key: no static remap or virtual
/// modifier names it, no multi-purpose key is pending, and no hotkey (of the
/// override stack or the keymap) claims its press.
pub open spec fn unclaimed_pseudo_key(h: EventHandler, config: &Config, device: InputDeviceInfo, k: u16) -> bool {
    &&& untouched_key(h, config, k)
    &&& !config.virtual_modifiers@.contains(k)
    &&& unclaimed_press(h, config, h.match_context(device), k)
}

/// The motion batch at the end of a batch of events, if any motion was batched.
pub open spec fn batch_tail(b: Seq<RelativeEvent>) -> Seq<ActionView> {
    if b.len() > 0 {
        seq![ActionView::MouseMovement(b)]
    } else {
        Seq::empty()
    }
}

/// What one event of a batch does, from handler `h` and motion batch `b`.
pub open spec fn event_step(
    h: EventHandler,
    h2: EventHandler,
    b: Seq<RelativeEvent>,
    b2: Seq<RelativeEvent>,
    config: &Config,
    ev: Event,
) -> bool {
    match ev {
        Event::KeyEvent(d, e) => b2 == b && (untouched_key(h, config, e.code) ==> exists|passed: bool|
            key_value_effect(h, h2, config, d, e.code, e.value, passed)),
        Event::RelativeEvent(d, e) => {
            &&& e.code > MAX_DISGUISED_AXIS ==> actions_view(h2.actions@) == actions_view(h.actions@).push(
                ActionView::Relative(e.code, e.value),
            ) && b2 == b
            &&& e.code <= MAX_DISGUISED_AXIS && unclaimed_pseudo_key(h, config, d, disguised_key(e)) ==> if e.code <= 2 {
                actions_view(h2.actions@) == actions_view(h.actions@) + stack_taps(h) && b2 == b.push(e)
            } else {
                actions_view(h2.actions@) == (actions_view(h.actions@) + stack_taps(h)).push(
                    ActionView::Relative(e.code, e.value),
                ) && b2 == b
            }
        },
        Event::OtherEvents(e) => b2 == b && actions_view(h2.actions@) == actions_view(h.actions@).push(
            ActionView::Input(e),
        ),
        Event::OverrideTimeout => b2 == b && actions_view(h2.actions@) == actions_view(h.actions@) + timeout_taps(
            h.override_timeout_key,
        ) && h2.override_remaps@.len() == 0 && h2.override_timeout_key is None && h2.override_timer is None,
    }
}

/// Whether no hotkey claims a press of `k`: neither the override stack (torn
/// down by the press unless an escape skips it) nor the keymap, for the key
/// or as match-any.
pub open spec fn unclaimed_press(old: EventHandler, config: &Config, ctx: MatchContext, k: u16) -> bool {
    &&& table_resolution(config.keymap_table@, KEY_MATCH_ANY, ctx) is None
    &&& old.escape_next_key ==> old.override_remaps@.len() == 0
    &&& !old.escape_next_key ==> table_resolution(config.keymap_table@, k, ctx) is None
    &&& !old.escape_next_key && old.override_remaps@.len() > 0 ==> !override_claims(old.override_remaps@, k, ctx)
}

/// What tearing the override stack down taps, if a stack is up.
pub open spec fn stack_taps(old: EventHandler) -> Seq<ActionView> {
    if old.override_remaps@.len() > 0 && !old.escape_next_key {
        timeout_taps(old.override_timeout_key)
    } else {
        Seq::empty()
    }
}

/// The handler's invariant: the hotstring buffer holds at most
/// `BUFFER_CAP` characters.
pub open spec fn wf(h: EventHandler) -> bool {
    &&& h.hotstring_state.buffer@.len() <= crate::hotstring::BUFFER_CAP
    &&& distinct(h.modifiers@)
    &&& distinct_keys(h.multi_purpose_keys@)
    &&& distinct_keys(h.pressed_keys@)
}

/// Whether no key occurs twice.
pub open spec fn distinct(s: Seq<u16>) -> bool {
    forall|a: int, b: int| 0 <= a < b < s.len() ==> s[a] != s[b]
}

/// Whether no key has two entries.
pub open spec fn distinct_keys<T>(s: Seq<(u16, T)>) -> bool {
    forall|a: int, b: int| 0 <= a < b < s.len() ==> s[a].0 != s[b].0
}

proof fn lemma_without(s: Seq<u16>, k: u16)
    ensures
        forall|x: u16| without(s, k).contains(x) ==> s.contains(x) && x != k,
        distinct(s) ==> distinct(without(s, k)),
    decreases s.len(),
{
    if s.len() > 0 {
        let init = s.drop_last();
        let last = s.last();
        lemma_without(init, k);
        let wi = without(init, k);
        assert(forall|j: int| 0 <= j < init.len() ==> s[j] == init[j]);
        assert forall|x: u16| wi.contains(x) implies s.contains(x) && x != k by {
            assert(init.contains(x));
            let j = choose|j: int| 0 <= j < init.len() && init[j] == x;
            assert(s[j] == x);
        }
        if last == k {
            assert(without(s, k) == wi);
        } else {
            let w = without(s, k);
            assert(w == wi.push(last));
            assert forall|x: u16| w.contains(x) implies s.contains(x) && x != k by {
                let i = choose|i: int| 0 <= i < w.len() && w[i] == x;
                if i == w.len() - 1 {
                    assert(s[s.len() - 1] == x);
                } else {
                    assert(wi[i] == x);
                    assert(wi.contains(x));
                }
            }
            if distinct(s) {
                assert(distinct(init)) by {
                    assert forall|a: int, b: int| 0 <= a < b < init.len() implies init[a] != init[b] by {
                        assert(s[a] == init[a] && s[b] == init[b]);
                    }
                }
                assert(!wi.contains(last)) by {
                    if wi.contains(last) {
                        assert(init.contains(last));
                        let j = choose|j: int| 0 <= j < init.len() && init[j] == last;
                        assert(s[j] == s[s.len() - 1]);
                    }
                }
                assert forall|a: int, b: int| 0 <= a < b < w.len() implies w[a] != w[b] by {
                    if b == w.len() - 1 {
                        assert(w[a] == wi[a]);
                        assert(wi.contains(wi[a]));
                    } else {
                        assert(w[a] == wi[a] && w[b] == wi[b]);
                    }
                }
            }
        }
        if distinct(s) && last == k {
            assert(distinct(init)) by {
                assert forall|a: int, b: int| 0 <= a < b < init.len() implies init[a] != init[b] by {
                    assert(s[a] == init[a] && s[b] == init[b]);
                }
            }
        }
    }
}

proof fn lemma_held_update_distinct(old: Seq<u16>, new: Seq<u16>, k: u16, v: i32)
    requires
        held_update(old, new, k, v),
        distinct(old),
    ensures
        distinct(new),
{
    lemma_without(old, k);
    if v == PRESS && !old.contains(k) {
        assert forall|a: int, b: int| 0 <= a < b < new.len() implies new[a] != new[b] by {
            if b == old.len() {
                assert(new[a] == old[a]);
                assert(old.contains(old[a]));
            } else {
                assert(new[a] == old[a] && new[b] == old[b]);
            }
        }
    }
}

proof fn lemma_remove_keys<T>(s: Seq<(u16, T)>, i: int)
    requires
        0 <= i < s.len(),
        distinct_keys(s),
    ensures
        distinct_keys(s.remove(i)),
        forall|j: int| 0 <= j < s.remove(i).len() ==> (#[trigger] s.remove(i)[j]).0 != s[i].0,
{
    let r = s.remove(i);
    assert forall|a: int, b: int| 0 <= a < b < r.len() implies r[a].0 != r[b].0 by {
        let a2 = if a < i { a } else { a + 1 };
        let b2 = if b < i { b } else { b + 1 };
        assert(r[a] == s[a2] && r[b] == s[b2]);
    }
    assert forall|j: int| 0 <= j < r.len() implies (#[trigger] r[j]).0 != s[i].0 by {
        let j2 = if j < i { j } else { j + 1 };
        assert(r[j] == s[j2]);
    }
}

proof fn lemma_push_keys<T>(s: Seq<(u16, T)>, x: (u16, T))
    requires
        distinct_keys(s),
        forall|j: int| 0 <= j < s.len() ==> s[j].0 != x.0,
    ensures
        distinct_keys(s.push(x)),
{
    let r = s.push(x);
    assert forall|a: int, b: int| 0 <= a < b < r.len() implies r[a].0 != r[b].0 by {
        assert(r[a] == s[a]);
    }
}

/// Everything but the emitted actions, the held modifiers, the hotstring
/// buffer and the record of pressed keys is unchanged.
pub open spec fn others_same(a: EventHandler, b: EventHandler) -> bool {
    &&& a.extra_modifiers == b.extra_modifiers
    &&& a.application_cache == b.application_cache
    &&& a.title_cache == b.title_cache
    &&& a.multi_purpose_keys == b.multi_purpose_keys
    &&& a.override_remaps == b.override_remaps
    &&& a.override_timeout_key == b.override_timeout_key
    &&& a.override_timer == b.override_timer
    &&& a.mode == b.mode
    &&& a.mark_set == b.mark_set
    &&& a.escape_next_key == b.escape_next_key
    &&& a.keypress_delay_ms == b.keypress_delay_ms
}

/// The held set after a key event of a modifier.
pub open spec fn held_update(old: Seq<u16>, new: Seq<u16>, k: u16, v: i32) -> bool {
    &&& v == PRESS ==> new == (if old.contains(k) { old } else { old.push(k) })
    &&& v == RELEASE ==> new == without(old, k)
    &&& v != PRESS && v != RELEASE ==> new == old
}

/// What feeding a pressed key to the hotstring matcher does, when no
/// hotkey claims it: a completed hotstring emits its expansion instead of
/// the key; otherwise the key goes on and the matcher's buffer moves on.
pub open spec fn hotstring_fed(old: EventHandler, new: EventHandler, m: HotstringMatcher, k: u16, v: i32, passed: bool) -> bool {
    match char_of_key(k) {
        Some(c) => match match_at(m.hotstrings@, old.hotstring_state.buffer@, c) {
            Some(i) => !passed && new.hotstring_state.buffer@.len() == 0 && actions_view(new.actions@)
                == actions_view(old.actions@) + expansion_actions(m.hotstrings@[i]),
            None => passed && new.hotstring_state.buffer@ == push_capped(old.hotstring_state.buffer@, c)
                && actions_view(new.actions@) == actions_view(old.actions@).push(ActionView::Key(k, v)),
        },
        None => passed && new.hotstring_state.buffer@ == buffer_after_other_key(old.hotstring_state.buffer@, k)
            && actions_view(new.actions@) == actions_view(old.actions@).push(ActionView::Key(k, v)),
    }
}

/// What resolving one key event (after static remapping) does. Virtual
/// modifiers are tracked and never sent; modifier keys are tracked and sent;
/// other releases and repeats-free events pass through (pseudo keys of
/// relative events are never sent). A press, with no override stack and no
/// escape pending, is resolved by the keymap (its entries' emissions when
/// they only emit), else by the match-any entry, else fed to the hotstring
/// matcher, else passed through.
pub open spec fn key_value_effect(
    old: EventHandler,
    new: EventHandler,
    config: &Config,
    device: InputDeviceInfo,
    k: u16,
    v: i32,
    passed: bool,
) -> bool {
    let virt = config.virtual_modifiers@.contains(k);
    let ctx = old.match_context(device);
    let quiet = old.override_remaps@.len() == 0 && !old.escape_next_key;
    let other = !virt && !is_modifier_key(k);
    let own = table_resolution(config.keymap_table@, k, ctx);
    let any = table_resolution(config.keymap_table@, KEY_MATCH_ANY, ctx);
    let reset = if pressed_value(v) {
        new.hotstring_state.buffer@.len() == 0
    } else {
        new.hotstring_state == old.hotstring_state
    };
    &&& new.title_cache == old.title_cache
    &&& new.application_cache == old.application_cache
    &&& wf(old) ==> wf(new)
    &&& virt ==> !passed && new.actions == old.actions && held_update(old.modifiers@, new.modifiers@, k, v)
        && others_same(old, new) && reset
    &&& !virt && is_modifier_key(k) ==> !passed && actions_view(new.actions@) == actions_view(old.actions@).push(
        ActionView::Key(k, v),
    ) && held_update(old.modifiers@, new.modifiers@, k, v) && others_same(old, new) && reset
    &&& other && !pressed_value(v) ==> passed && others_same(old, new) && new.modifiers == old.modifiers
        && new.hotstring_state == old.hotstring_state
    &&& other && !pressed_value(v) && k < DISGUISED_EVENT_OFFSETTER ==> actions_view(new.actions@)
        == actions_view(old.actions@).push(ActionView::Key(k, v))
    &&& other && !pressed_value(v) && k >= DISGUISED_EVENT_OFFSETTER ==> new.actions == old.actions
    &&& other && pressed_value(v) && quiet && (own is Some || any is Some) ==> !passed
        && new.hotstring_state == old.hotstring_state
    &&& other && pressed_value(v) && quiet && own is Some && slot_plain(config.keymap_table@, k) ==>
        actions_view(new.actions@) == actions_view(old.actions@) + picks_emissions(slot_entries(config.keymap_table@, k), own->0)
    &&& other && pressed_value(v) && quiet && own is None && any is Some && slot_plain(config.keymap_table@, KEY_MATCH_ANY)
        ==> actions_view(new.actions@) == actions_view(old.actions@) + picks_emissions(
        slot_entries(config.keymap_table@, KEY_MATCH_ANY),
        any->0,
    )
    &&& other && pressed_value(v) && quiet && own is None && any is None ==> others_same(old, new)
        && new.modifiers == old.modifiers
    &&& other && pressed_value(v) && quiet && own is None && any is None && (config.hotstring_matcher is None
        || k >= DISGUISED_EVENT_OFFSETTER) ==> passed && (k < DISGUISED_EVENT_OFFSETTER ==> actions_view(new.actions@) == actions_view(old.actions@).push(
        ActionView::Key(k, v),
    )) && (k >= DISGUISED_EVENT_OFFSETTER ==> new.actions == old.actions)
    &&& other && pressed_value(v) && quiet && own is None && any is None && config.hotstring_matcher is None
        ==> new.hotstring_state == old.hotstring_state
    &&& other && pressed_value(v) && quiet && own is None && any is None && config.hotstring_matcher is Some
        && k < DISGUISED_EVENT_OFFSETTER ==> hotstring_fed(old, new, config.hotstring_matcher->0, k, v, passed)
    &&& other && pressed_value(v) && unclaimed_press(old, config, ctx, k) && (config.hotstring_matcher is None
        || k >= DISGUISED_EVENT_OFFSETTER) ==> passed && actions_view(new.actions@) == actions_view(old.actions@)
        + stack_taps(old) + (if k < DISGUISED_EVENT_OFFSETTER {
        seq![ActionView::Key(k, v)]
    } else {
        Seq::empty()
    })
}

/// A key press's modifiers with Shift added while the mark is set and
/// Shift is not held.
pub open spec fn marked_modifiers(h: EventHandler, mods: Seq<Modifier>) -> Seq<Modifier> {
    if h.mark_set && !modifier_held(h.modifiers@, Modifier::Shift) {
        mods.push(Modifier::Shift)
    } else {
        mods
    }
}

/// The one action that a keymap action emits by itself, for the actions
/// that only emit (key events, commands, sleeps).
pub open spec fn plain_emission(a: KeymapAction) -> Option<ActionView> {
    match a {
        KeymapAction::KeyPress(k) => Some(ActionView::Key(k, PRESS)),
        KeymapAction::KeyRepeat(k) => Some(ActionView::Key(k, REPEAT)),
        KeymapAction::KeyRelease(k) => Some(ActionView::Key(k, RELEASE)),
        KeymapAction::Launch(cmd) => Some(ActionView::Command(strings_view(cmd@))),
        KeymapAction::Sleep(ms) => Some(ActionView::Delay(ms)),
        _ => None,
    }
}

pub open spec fn plain_actions(acts: Seq<KeymapAction>) -> bool {
    forall|i: int| 0 <= i < acts.len() ==> (#[trigger] plain_emission(acts[i])) is Some
}

pub open spec fn emissions(acts: Seq<KeymapAction>) -> Seq<ActionView>
    decreases acts.len(),
{
    if acts.len() == 0 {
        Seq::empty()
    } else {
        emissions(acts.drop_last()).push(plain_emission(acts.last())->0)
    }
}

/// What the picks emit when every picked entry only emits.
pub open spec fn picks_emissions(es: Seq<KeymapEntry>, picks: Seq<(int, Seq<u16>)>) -> Seq<ActionView>
    decreases picks.len(),
{
    if picks.len() == 0 {
        Seq::empty()
    } else {
        picks_emissions(es, picks.drop_last()) + emissions(es[picks.last().0].actions@)
    }
}

/// Whether every candidate of the key's table slot only emits.
pub open spec fn slot_plain(t: Seq<(u16, Vec<KeymapEntry>)>, key: u16) -> bool {
    match first_slot(t, key, 0) {
        Some(s) => forall|i: int| 0 <= i < t[s].1@.len() ==> plain_actions(#[trigger] t[s].1@[i].actions@),
        None => true,
    }
}

/// The candidates of the key's table slot.
pub open spec fn slot_entries(t: Seq<(u16, Vec<KeymapEntry>)>, key: u16) -> Seq<KeymapEntry> {
    match first_slot(t, key, 0) {
        Some(s) => t[s].1@,
        None => Seq::empty(),
    }
}

/// What performing one keymap action does, as `dispatch_action` states it.
pub open spec fn action_effect(old: EventHandler, new: EventHandler, action: KeymapAction, exact_match: bool, key: u16, now: u64) -> bool {
    match action {
        KeymapAction::KeyPressAndRelease(kp) => actions_view(new.actions@) == actions_view(
            old.actions@,
        ) + key_press_actions(
            old.modifiers@,
            old.extra_modifiers@,
            kp.key,
            kp.modifiers@,
            old.keypress_delay_ms,
        ),
        KeymapAction::KeyPress(k) => actions_view(new.actions@) == actions_view(
            old.actions@,
        ).push(ActionView::Key(k, PRESS)),
        KeymapAction::KeyRepeat(k) => actions_view(new.actions@) == actions_view(
            old.actions@,
        ).push(ActionView::Key(k, REPEAT)),
        KeymapAction::KeyRelease(k) => actions_view(new.actions@) == actions_view(
            old.actions@,
        ).push(ActionView::Key(k, RELEASE)),
        KeymapAction::Remap(r) => pushed_override(old, new, r, exact_match, key, now)
            && new.actions == old.actions,
        KeymapAction::Launch(cmd) => actions_view(new.actions@) == actions_view(
            old.actions@,
        ).push(ActionView::Command(strings_view(cmd@))),
        KeymapAction::SetMode(m) => new.mode@ == m@ && new.actions == old.actions,
        KeymapAction::SetMark(b) => new.mark_set == b && new.actions == old.actions,
        KeymapAction::EscapeNextKey(b) => new.escape_next_key == b && new.actions
            == old.actions,
        KeymapAction::Sleep(ms) => actions_view(new.actions@) == actions_view(
            old.actions@,
        ).push(ActionView::Delay(ms)),
        KeymapAction::SetExtraModifiers(keys) => new.extra_modifiers@ == keys@
            && new.actions == old.actions,
        KeymapAction::AhkInterpreted(a) => actions_view(new.actions@) == actions_view(
            old.actions@,
        ) + key_events(old.modifiers@, RELEASE) + interp(
            a,
            or_empty(old.title_cache),
            or_empty(old.application_cache),
        ) + key_events(old.modifiers@, PRESS),
        KeymapAction::WithMark(kp) => actions_view(new.actions@) == actions_view(
            old.actions@,
        ) + key_press_actions(
            old.modifiers@,
            old.extra_modifiers@,
            kp.key,
            marked_modifiers(old, kp.modifiers@),
            old.keypress_delay_ms,
        ),
    }
}

/// Whether no pick sets held modifiers aside.
pub open spec fn no_set_aside(picks: Seq<Pick>) -> bool {
    forall|j: int| 0 <= j < picks.len() ==> (#[trigger] picks[j]).extra@.len() == 0
}

/// The actions of an entry, each with the entry's exact-match flag.
pub open spec fn entry_steps(e: KeymapEntry) -> Seq<(KeymapAction, bool)> {
    e.actions@.map_values(|a: KeymapAction| (a, e.exact_match))
}

/// The actions the picks perform, in order.
pub open spec fn pick_steps(es: Seq<KeymapEntry>, picks: Seq<Pick>) -> Seq<(KeymapAction, bool)>
    decreases picks.len(),
{
    if picks.len() == 0 {
        Seq::empty()
    } else {
        pick_steps(es, picks.drop_last()) + entry_steps(es[picks.last().index as int])
    }
}

/// Whether consecutive states perform the steps, each as `action_effect` says.
pub open spec fn steps_chain(hs: Seq<EventHandler>, steps: Seq<(KeymapAction, bool)>, key: u16, now: u64) -> bool {
    forall|j: int| 0 <= j < steps.len() ==> action_effect(#[trigger] hs[j], hs[j + 1], steps[j].0, steps[j].1, key, now)
}

proof fn lemma_chain_push(
    hs: Seq<EventHandler>,
    steps: Seq<(KeymapAction, bool)>,
    post: EventHandler,
    step: (KeymapAction, bool),
    key: u16,
    now: u64,
)
    requires
        hs.len() == steps.len() + 1,
        steps_chain(hs, steps, key, now),
        action_effect(hs.last(), post, step.0, step.1, key, now),
    ensures
        steps_chain(hs.push(post), steps.push(step), key, now),
{
    let hs2 = hs.push(post);
    let s2 = steps.push(step);
    assert forall|j: int| 0 <= j < s2.len() implies action_effect(#[trigger] hs2[j], hs2[j + 1], s2[j].0, s2[j].1, key, now) by {
        if j < steps.len() {
            assert(hs2[j] == hs[j] && hs2[j + 1] == hs[j + 1] && s2[j] == steps[j]);
        } else {
            assert(hs2[j] == hs.last() && hs2[j + 1] == post && s2[j] == step);
        }
    }
}

/// Whether one of the key events is a press.
pub open spec fn has_press(kv: Seq<(u16, i32)>) -> bool {
    exists|j: int| 0 <= j < kv.len() && kv[j].1 == PRESS
}

/// What forcing a multi-purpose key into its held role emits.
pub open spec fn force_events(st: MultiPurposeKeyState) -> Seq<(u16, i32)> {
    if st.alone_timeout_at is Some || !st.held_down {
        crate::multipurpose::with_value(crate::multipurpose::modifiers_first(st.held@), PRESS)
    } else {
        Seq::empty()
    }
}

/// What forcing all pending multi-purpose keys emits, in order.
pub open spec fn flush_all(s: Seq<(u16, MultiPurposeKeyState)>) -> Seq<(u16, i32)>
    decreases s.len(),
{
    if s.len() == 0 {
        Seq::empty()
    } else {
        flush_all(s.drop_last()) + force_events(s.last().1)
    }
}

/// Key events without the presses that the flush already made.
pub open spec fn drop_flushed_presses(kv: Seq<(u16, i32)>, flushed: Seq<(u16, i32)>) -> Seq<(u16, i32)>
    decreases kv.len(),
{
    if kv.len() == 0 {
        Seq::empty()
    } else if kv.last().1 == PRESS && flushed.contains((kv.last().0, PRESS)) {
        drop_flushed_presses(kv.drop_last(), flushed)
    } else {
        drop_flushed_presses(kv.drop_last(), flushed).push(kv.last())
    }
}

/// The first stored state of a multi-purpose key.
pub open spec fn state_index(s: Seq<(u16, MultiPurposeKeyState)>, key: u16) -> Option<int> {
    state_index_from(s, key, 0)
}

pub open spec fn state_index_from(s: Seq<(u16, MultiPurposeKeyState)>, key: u16, i: int) -> Option<int>
    decreases s.len() - i,
{
    if i < 0 || i >= s.len() {
        None
    } else if s[i].0 == key {
        Some(i)
    } else {
        state_index_from(s, key, i + 1)
    }
}

/// Whether `st` is the state a press of `mpk` at `now` creates.
pub open spec fn pressed_state(st: MultiPurposeKeyState, mpk: crate::multipurpose::MultiPurposeKey, now: u64) -> bool {
    &&& st.held@ == mpk.held@
    &&& st.alone@ == mpk.alone@
    &&& st.alone_timeout_at == crate::multipurpose::pressed_timeout(mpk, now)
    &&& !st.held_down
}

/// Whether `new` is the state after a repeat of `old` at `now`.
pub open spec fn repeated_state(old: MultiPurposeKeyState, new: MultiPurposeKeyState, now: u64) -> bool {
    &&& new.held@ == old.held@
    &&& new.alone@ == old.alone@
    &&& match old.alone_timeout_at {
        Some(t) => if now < t {
            new.alone_timeout_at == old.alone_timeout_at && new.held_down == old.held_down
        } else {
            new.alone_timeout_at is None && new.held_down
        },
        None => new.alone_timeout_at is None && new.held_down == old.held_down,
    }
}

/// One event of a multi-purpose key: a press stores a fresh state (in place
/// of any earlier one) and emits nothing; a repeat or release with a stored
/// state follows its state machine, a release forgetting the state; any
/// other event goes on as it came.
pub open spec fn mpk_step(
    old: Seq<(u16, MultiPurposeKeyState)>,
    new: Seq<(u16, MultiPurposeKeyState)>,
    mpk: crate::multipurpose::MultiPurposeKey,
    key: u16,
    value: i32,
    now: u64,
    r: Seq<(u16, i32)>,
) -> bool {
    if value == PRESS {
        &&& r.len() == 0
        &&& new.len() > 0
        &&& new.last().0 == key
        &&& pressed_state(new.last().1, mpk, now)
        &&& new.drop_last() == match state_index(old, key) {
            Some(i) => old.remove(i),
            None => old,
        }
    } else {
        match state_index(old, key) {
            Some(i) => if value == REPEAT {
                &&& r == crate::multipurpose::repeat_events(old[i].1, now)
                &&& new.len() == old.len()
                &&& new[i].0 == key
                &&& repeated_state(old[i].1, new[i].1, now)
                &&& forall|j: int| 0 <= j < old.len() && j != i ==> new[j] == old[j]
            } else if value == RELEASE {
                &&& r == crate::multipurpose::release_events(old[i].1, now)
                &&& new == old.remove(i)
            } else {
                r == seq![(key, value)] && new == old
            },
            None => r == seq![(key, value)] && new == old,
        }
    }
}

/// Key events with one value.
pub open spec fn valued(keys: Seq<u16>, v: i32) -> Seq<(u16, i32)> {
    keys.map_values(|k: u16| (k, v))
}

impl EventHandler {
    /// The first static remap table, in declaration order, that has the key
    /// and whose scoping matches; with the position of the key's entry.
    pub fn find_modmap(&self, config: &Config, key: u16, device: &InputDeviceInfo) -> (r: Option<(usize, usize)>)
        ensures
            match r {
                Some((i, j)) => i < config.modmap@.len() && j < config.modmap@[i as int].remap@.len()
                    && config.modmap@[i as int].remap@[j as int].0 == key && modmap_applies(
                    config.modmap@[i as int],
                    self.match_context(*device),
                ) && forall|i2: int| 0 <= i2 < i ==> !(modmap_has(config.modmap@[i2], key) && modmap_applies(config.modmap@[i2], self.match_context(*device))),
                None => forall|i2: int| 0 <= i2 < config.modmap@.len() ==> !(modmap_has(config.modmap@[i2], key) && modmap_applies(config.modmap@[i2], self.match_context(*device))),
            },
    {
        let title = text_of(&self.title_cache);
        let class = text_of(&self.application_cache);
        let mut i: usize = 0;
        while i < config.modmap.len()
            invariant
                i <= config.modmap@.len(),
                title@ == or_empty_text(self.title_cache),
                class@ == or_empty_text(self.application_cache),
                forall|i2: int| 0 <= i2 < i ==> !(modmap_has(config.modmap@[i2], key) && modmap_applies(config.modmap@[i2], self.match_context(*device))),
            decreases config.modmap@.len() - i,
        {
            let m = &config.modmap[i];
            let mut j: usize = 0;
            while j < m.remap.len() && m.remap[j].0 != key
                invariant
                    j <= m.remap@.len(),
                    forall|j2: int| 0 <= j2 < j ==> m.remap@[j2].0 != key,
                decreases m.remap@.len() - j,
            {
                j = j + 1;
            }
            let found = j < m.remap.len();
            if found {
                assert(modmap_has(*m, key));
                let mut ok = true;
                match &m.window {
                    Some(w) => {
                        ok = ok && match_names(w, &title);
                    },
                    None => {},
                }
                match &m.application {
                    Some(a) => {
                        ok = ok && match_names(a, &class);
                    },
                    None => {},
                }
                match &m.device {
                    Some(d) => {
                        ok = ok && (match_names(d, &device.name) || match_names(d, &device.path));
                    },
                    None => {},
                }
                match &m.mode {
                    Some(modes) => {
                        ok = ok && mode_in(modes, &self.mode);
                    },
                    None => {},
                }
                if ok {
                    return Some((i, j));
                }
            } else {
                assert(!modmap_has(*m, key));
            }
            i = i + 1;
        }
        None
    }

    fn find_state(&self, key: u16) -> (r: Option<usize>)
        ensures
            match r {
                Some(i) => state_index(self.multi_purpose_keys@, key) == Some(i as int) && i
                    < self.multi_purpose_keys@.len() && self.multi_purpose_keys@[i as int].0 == key,
                None => state_index(self.multi_purpose_keys@, key) is None && forall|j: int|
                    0 <= j < self.multi_purpose_keys@.len() ==> self.multi_purpose_keys@[j].0 != key,
            },
    {
        let mut i: usize = 0;
        while i < self.multi_purpose_keys.len()
            invariant
                i <= self.multi_purpose_keys@.len(),
                state_index(self.multi_purpose_keys@, key) == state_index_from(self.multi_purpose_keys@, key, i as int),
                forall|j: int| 0 <= j < i ==> self.multi_purpose_keys@[j].0 != key,
            decreases self.multi_purpose_keys@.len() - i,
        {
            if self.multi_purpose_keys[i].0 == key {
                return Some(i);
            }
            i = i + 1;
        }
        None
    }

    /// Applies a static remap to a key event; returns the key events that go
    /// on. A multi-purpose key's press is held back and starts its state
    /// machine; its repeats and release follow the stored state.
    pub fn dispatch_keys(&mut self, config: &Config, mi: usize, ej: usize, key: u16, value: i32, now: u64) -> (r: Vec<(u16, i32)>)
        requires
            mi < config.modmap@.len(),
            ej < config.modmap@[mi as int].remap@.len(),
        ensures
            final(self).pressed_keys == old(self).pressed_keys,
            distinct_keys(old(self).multi_purpose_keys@) ==> distinct_keys(final(self).multi_purpose_keys@),
            final(self).hotstring_state == old(self).hotstring_state,
            final(self).modifiers == old(self).modifiers,
            final(self).title_cache == old(self).title_cache,
            final(self).application_cache == old(self).application_cache,
            match config.modmap@[mi as int].remap@[ej as int].1 {
                ModmapAction::Keys(ks) => r@ == valued(ks@, value) && *final(self) == *old(self),
                ModmapAction::MultiPurposeKey(mpk) => final(self).actions == old(self).actions
                    && mpk_step(old(self).multi_purpose_keys@, final(self).multi_purpose_keys@, mpk, key, value, now, r@),
                ModmapAction::PressReleaseKey { skip_key_event, press, repeat, release } => {
                    let acts = if value == PRESS {
                        press
                    } else if value == RELEASE {
                        release
                    } else {
                        repeat
                    };
                    &&& r@ == (if skip_key_event { Seq::empty() } else { seq![(key, value)] })
                    &&& plain_actions(acts@) ==> actions_view(final(self).actions@) == actions_view(
                        old(self).actions@,
                    ) + emissions(acts@)
                },
            },
    {
        let action = &config.modmap[mi].remap[ej].1;
        match action {
            ModmapAction::Keys(ks) => {
                let mut out: Vec<(u16, i32)> = Vec::new();
                let mut i: usize = 0;
                while i < ks.len()
                    invariant
                        i <= ks@.len(),
                        out@ == valued(ks@.subrange(0, i as int), value),
                    decreases ks@.len() - i,
                {
                    out.push((ks[i], value));
                    i = i + 1;
                    assert(out@ =~= valued(ks@.subrange(0, i as int), value));
                }
                assert(ks@.subrange(0, ks@.len() as int) =~= ks@);
                out
            },
            ModmapAction::MultiPurposeKey(mpk) => {
                let found = self.find_state(key);
                let ghost d0 = distinct_keys(self.multi_purpose_keys@);
                if value == PRESS {
                    let st = MultiPurposeKeyState::press(mpk, now);
                    match found {
                        Some(i) => {
                            proof {
                                if d0 {
                                    lemma_remove_keys(self.multi_purpose_keys@, i as int);
                                }
                            }
                            self.multi_purpose_keys.remove(i);
                        },
                        None => {},
                    }
                    let ghost mid = self.multi_purpose_keys@;
                    proof {
                        if d0 {
                            lemma_push_keys(self.multi_purpose_keys@, (key, st));
                        }
                    }
                    self.multi_purpose_keys.push((key, st));
                    assert(self.multi_purpose_keys@.drop_last() =~= mid);
                    return Vec::new();
                }
                match found {
                    Some(i) => {
                        if value == REPEAT {
                            let ghost before = self.multi_purpose_keys@;
                            let (k, mut st) = self.multi_purpose_keys.remove(i);
                            let out = st.repeat(now);
                            self.multi_purpose_keys.insert(i, (k, st));
                            assert(forall|j: int| 0 <= j < before.len() && j != i ==> self.multi_purpose_keys@[j] == before[j]);
                            assert(self.multi_purpose_keys@[i as int].0 == before[i as int].0);
                            assert(self.multi_purpose_keys@.len() == before.len());
                            assert(d0 ==> distinct_keys(self.multi_purpose_keys@)) by {
                                if d0 {
                                    assert forall|a: int, b: int| 0 <= a < b < self.multi_purpose_keys@.len() implies
                                        self.multi_purpose_keys@[a].0 != self.multi_purpose_keys@[b].0 by {
                                        assert(self.multi_purpose_keys@[a].0 == before[a].0);
                                        assert(self.multi_purpose_keys@[b].0 == before[b].0);
                                    }
                                }
                            }
                            return out;
                        } else if value == RELEASE {
                            proof {
                                if d0 {
                                    lemma_remove_keys(self.multi_purpose_keys@, i as int);
                                }
                            }
                            let (_, st) = self.multi_purpose_keys.remove(i);
                            return st.release(now);
                        }
                    },
                    None => {},
                }
                let mut out: Vec<(u16, i32)> = Vec::new();
                out.push((key, value));
                assert(out@ =~= seq![(key, value)]);
                out
            },
            ModmapAction::PressReleaseKey { skip_key_event, press, repeat, release } => {
                let acts = if value == PRESS {
                    press
                } else if value == RELEASE {
                    release
                } else {
                    repeat
                };
                let ghost o = actions_view(self.actions@);
                let mut a: usize = 0;
                while a < acts.len()
                    invariant
                        a <= acts@.len(),
                        self.modifiers == old(self).modifiers,
                        self.hotstring_state == old(self).hotstring_state,
                        self.pressed_keys == old(self).pressed_keys,
                        self.multi_purpose_keys == old(self).multi_purpose_keys,
                        self.title_cache == old(self).title_cache,
                        self.application_cache == old(self).application_cache,
                        plain_actions(acts@) ==> actions_view(self.actions@) == o + emissions(acts@.subrange(0, a as int)),
                    decreases acts@.len() - a,
                {
                    assert(acts@.subrange(0, a + 1).drop_last() =~= acts@.subrange(0, a as int));
                    assert(acts@.subrange(0, a + 1).last() == acts@[a as int]);
                    self.dispatch_action(&acts[a], false, key, now);
                    proof {
                        if plain_actions(acts@) {
                            assert(plain_emission(acts@[a as int]) is Some);
                        }
                    }
                    a = a + 1;
                }
                assert(acts@.subrange(0, acts@.len() as int) =~= acts@);
                let mut out: Vec<(u16, i32)> = Vec::new();
                if !*skip_key_event {
                    out.push((key, value));
                }
                assert(out@ =~= (if *skip_key_event { Seq::empty() } else { seq![(key, value)] }));
                out
            },
        }
    }

    fn pressed_slot(&self, key: u16) -> (r: Option<usize>)
        ensures
            match r {
                Some(i) => i < self.pressed_keys@.len() && self.pressed_keys@[i as int].0 == key,
                None => forall|i: int| 0 <= i < self.pressed_keys@.len() ==> self.pressed_keys@[i].0 != key,
            },
    {
        let mut i: usize = 0;
        while i < self.pressed_keys.len()
            invariant
                i <= self.pressed_keys@.len(),
                forall|j: int| 0 <= j < i ==> self.pressed_keys@[j].0 != key,
            decreases self.pressed_keys@.len() - i,
        {
            if self.pressed_keys[i].0 == key {
                return Some(i);
            }
            i = i + 1;
        }
        None
    }

    /// Repeats and releases go to the key that the press was sent as, even
    /// if the remapping changed while the key was held. Only a one-to-one
    /// event of the same value is tracked.
    pub fn maintain_pressed_keys(&mut self, key: u16, value: i32, events: &mut Vec<(u16, i32)>)
        ensures
            final(events)@.len() == old(events)@.len(),
            (old(events)@.len() != 1 || old(events)@[0].1 != value) ==> final(events)@ == old(events)@,
            old(events)@ == seq![(key, value)] && (forall|j: int|
                0 <= j < old(self).pressed_keys@.len() && old(self).pressed_keys@[j].0 == key
                    ==> old(self).pressed_keys@[j].1 == key) ==> final(events)@ == old(events)@,
            final(self).hotstring_state == old(self).hotstring_state,
            old(events)@ == seq![(key, value)] && (forall|j: int|
                0 <= j < old(self).pressed_keys@.len() && old(self).pressed_keys@[j].0 == key
                    ==> old(self).pressed_keys@[j].1 == key) ==> forall|j: int|
                0 <= j < final(self).pressed_keys@.len() && final(self).pressed_keys@[j].0 == key
                    ==> final(self).pressed_keys@[j].1 == key,
            final(self).modifiers == old(self).modifiers,
            final(self).actions == old(self).actions,
            final(self).title_cache == old(self).title_cache,
            final(self).application_cache == old(self).application_cache,
            final(self).multi_purpose_keys == old(self).multi_purpose_keys,
            final(self).override_remaps == old(self).override_remaps,
            final(self).escape_next_key == old(self).escape_next_key,
            final(self).mode == old(self).mode,
            others_same(*old(self), *final(self)),
            distinct_keys(old(self).pressed_keys@) ==> distinct_keys(final(self).pressed_keys@),
    {
        if events.len() != 1 || value != events[0].1 {
            return;
        }
        let ev = events[0];
        let found = self.pressed_slot(key);
        let ghost d0 = distinct_keys(self.pressed_keys@);
        if value == PRESS {
            match found {
                Some(i) => {
                    proof {
                        if d0 {
                            lemma_remove_keys(self.pressed_keys@, i as int);
                        }
                    }
                    self.pressed_keys.remove(i);
                },
                None => {},
            }
            proof {
                if d0 {
                    lemma_push_keys(self.pressed_keys@, (key, ev.0));
                }
            }
            self.pressed_keys.push((key, ev.0));
        } else {
            match found {
                Some(i) => {
                    let sent_as = self.pressed_keys[i].1;
                    events.set(0, (sent_as, ev.1));
                    if value == RELEASE {
                        proof {
                            if d0 {
                                lemma_remove_keys(self.pressed_keys@, i as int);
                            }
                        }
                        self.pressed_keys.remove(i);
                    }
                },
                None => {},
            }
        }
    }

    /// Another key is pressed while multi-purpose keys are pending: each is
    /// forced into its held role first, so that a chord key is never lost.
    /// The press of a key that the flush already pressed is not repeated.
    pub fn flush_timeout_keys(&mut self, key_values: Vec<(u16, i32)>) -> (r: Vec<(u16, i32)>)
        ensures
            final(self).pressed_keys == old(self).pressed_keys,
            distinct_keys(old(self).multi_purpose_keys@) ==> distinct_keys(final(self).multi_purpose_keys@),
            final(self).hotstring_state == old(self).hotstring_state,
            !has_press(key_values@) ==> r@ == key_values@ && final(self).multi_purpose_keys == old(self).multi_purpose_keys,
            has_press(key_values@) ==> r@ == flush_all(old(self).multi_purpose_keys@) + drop_flushed_presses(
                key_values@,
                flush_all(old(self).multi_purpose_keys@),
            ),
            has_press(key_values@) ==> forall|i: int|
                0 <= i < final(self).multi_purpose_keys@.len() ==> (#[trigger] final(self).multi_purpose_keys@[i]).0
                    == old(self).multi_purpose_keys@[i].0 && final(self).multi_purpose_keys@[i].1.held@
                    == old(self).multi_purpose_keys@[i].1.held@
                    && final(self).multi_purpose_keys@[i].1.alone_timeout_at is None
                    && final(self).multi_purpose_keys@[i].1.held_down,
            final(self).multi_purpose_keys@.len() == old(self).multi_purpose_keys@.len(),
            final(self).modifiers == old(self).modifiers,
            final(self).actions == old(self).actions,
            final(self).title_cache == old(self).title_cache,
            final(self).application_cache == old(self).application_cache,
    {
        let mut flush = false;
        let mut i: usize = 0;
        while i < key_values.len()
            invariant
                i <= key_values@.len(),
                flush == exists|j: int| 0 <= j < i && key_values@[j].1 == PRESS,
            decreases key_values@.len() - i,
        {
            if key_values[i].1 == PRESS {
                flush = true;
            }
            i = i + 1;
        }
        if !flush {
            return key_values;
        }
        let ghost olds = self.multi_purpose_keys@;
        let n = self.multi_purpose_keys.len();
        let mut flushed: Vec<(u16, i32)> = Vec::new();
        let mut k: usize = 0;
        while k < n
            invariant
                k <= n,
                n == self.multi_purpose_keys@.len(),
                n == olds.len(),
                olds == old(self).multi_purpose_keys@,
                self.modifiers == old(self).modifiers,
                self.hotstring_state == old(self).hotstring_state,
                self.pressed_keys == old(self).pressed_keys,
                self.actions == old(self).actions,
                self.title_cache == old(self).title_cache,
                self.application_cache == old(self).application_cache,
                forall|j: int| 0 <= j < n - k ==> self.multi_purpose_keys@[j] == olds[j + k],
                forall|j: int|
                    n - k <= j < n ==> (#[trigger] self.multi_purpose_keys@[j]).0 == olds[j - (n - k)].0
                        && self.multi_purpose_keys@[j].1.held@ == olds[j - (n - k)].1.held@
                        && self.multi_purpose_keys@[j].1.alone_timeout_at is None
                        && self.multi_purpose_keys@[j].1.held_down,
                flushed@ == flush_all(olds.subrange(0, k as int)),
            decreases n - k,
        {
            let ghost before = self.multi_purpose_keys@;
            let (key, mut st) = self.multi_purpose_keys.remove(0);
            assert((key, st) == olds[k as int]);
            let ghost st0 = st;
            let mut pressed = st.force_held();
            let ghost fe = pressed@;
            assert(fe == force_events(st0));
            flushed.append(&mut pressed);
            self.multi_purpose_keys.push((key, st));
            proof {
                assert(olds.subrange(0, k + 1).drop_last() =~= olds.subrange(0, k as int));
                assert(olds.subrange(0, k + 1).last() == olds[k as int]);
                assert forall|j: int| 0 <= j < n - (k + 1) implies self.multi_purpose_keys@[j] == olds[j + k + 1] by {
                    assert(self.multi_purpose_keys@[j] == before[j + 1]);
                }
                assert forall|j: int| n - (k + 1) <= j < n implies (#[trigger] self.multi_purpose_keys@[j]).0 == olds[j - (n - (k + 1))].0
                    && self.multi_purpose_keys@[j].1.held@ == olds[j - (n - (k + 1))].1.held@
                    && self.multi_purpose_keys@[j].1.alone_timeout_at is None
                    && self.multi_purpose_keys@[j].1.held_down by {
                    if j < n - 1 {
                        assert(self.multi_purpose_keys@[j] == before[j + 1]);
                    }
                }
            }
            k = k + 1;
        }
        assert(olds.subrange(0, n as int) =~= olds);
        let mut out: Vec<(u16, i32)> = Vec::new();
        let mut c: usize = 0;
        while c < flushed.len()
            invariant
                c <= flushed@.len(),
                out@ == flushed@.subrange(0, c as int),
            decreases flushed@.len() - c,
        {
            out.push(flushed[c]);
            c = c + 1;
            assert(out@ =~= flushed@.subrange(0, c as int));
        }
        assert(flushed@.subrange(0, flushed@.len() as int) =~= flushed@);
        let mut j: usize = 0;
        while j < key_values.len()
            invariant
                j <= key_values@.len(),
                out@ == flushed@ + drop_flushed_presses(key_values@.subrange(0, j as int), flushed@),
            decreases key_values@.len() - j,
        {
            assert(key_values@.subrange(0, j + 1).drop_last() =~= key_values@.subrange(0, j as int));
            let (kk, vv) = key_values[j];
            let mut dup = false;
            if vv == PRESS {
                let mut f: usize = 0;
                while f < flushed.len()
                    invariant
                        f <= flushed@.len(),
                        dup == exists|x: int| 0 <= x < f && flushed@[x] == (kk, PRESS),
                    decreases flushed@.len() - f,
                {
                    if flushed[f].0 == kk && flushed[f].1 == PRESS {
                        dup = true;
                    }
                    f = f + 1;
                }
            }
            let ghost o = out@;
            if !dup {
                out.push((kk, vv));
            }
            assert(out@ =~= flushed@ + drop_flushed_presses(key_values@.subrange(0, j + 1), flushed@));
            j = j + 1;
        }
        assert(key_values@.subrange(0, key_values@.len() as int) =~= key_values@);
        out
    }

    /// Resolves one key event. Returns whether the event was passed through
    /// unchanged as a disguised relative event, so that the relative event
    /// itself should be forwarded.
    pub fn on_key_event(&mut self, event: &KeyEvent, config: &Config, device: &InputDeviceInfo, now: u64) -> (r: bool)
        ensures
            final(self).title_cache == old(self).title_cache,
            final(self).application_cache == old(self).application_cache,
            untouched_key(*old(self), config, event.code) ==> exists|passed: bool|
                key_value_effect(*old(self), *final(self), config, *device, event.code, event.value, passed)
                && r == (passed && event.code >= DISGUISED_EVENT_OFFSETTER),
            untouched_key(*old(self), config, event.code) ==> untouched_key(*final(self), config, event.code),
            wf(*old(self)) ==> wf(*final(self)),
            exists|kv: Seq<(u16, i32)>, hs: Seq<EventHandler>, ps: Seq<bool>|
                #![trigger kv.len(), hs.len(), ps.len()]
                hs.len() == kv.len() + 1 && ps.len() == kv.len() && hs.last() == *final(self)
                    && hs[0].hotstring_state == old(self).hotstring_state
                    && (untouched_key(*old(self), config, event.code) ==> kv == seq![(event.code, event.value)])
                    && forall|j: int| 0 <= j < kv.len() ==> key_value_effect(
                    #[trigger] hs[j],
                    hs[j + 1],
                    config,
                    *device,
                    kv[j].0,
                    kv[j].1,
                    ps[j],
                ),
    {
        let key = event.code;
        let value = event.value;
        let ghost untouched = untouched_key(*old(self), config, key);
        let found = self.find_modmap(config, key, device);
        let mut key_values = match found {
            Some((mi, ej)) => {
                proof {
                    if untouched {
                        assert(config.modmap@[mi as int].remap@[ej as int].0 == key);
                        assert(modmap_has(config.modmap@[mi as int], key));
                    }
                }
                self.dispatch_keys(config, mi, ej, key, value, now)
            },
            None => {
                let mut v: Vec<(u16, i32)> = Vec::new();
                v.push((key, value));
                assert(v@ =~= seq![(key, value)]);
                v
            },
        };
        self.maintain_pressed_keys(key, value, &mut key_values);
        if self.multi_purpose_keys.len() > 0 {
            key_values = self.flush_timeout_keys(key_values);
        }
        assert(self.hotstring_state == old(self).hotstring_state);
        if key_values.len() == 1 {
            let (k, v) = key_values[0];
            let ghost pre = *self;
            let passed = self.process_key_value(k, v, config, device, now);
            proof {
                if untouched {
                    assert(k == key && v == value);
                    assert(pre.match_context(*device) == old(self).match_context(*device));
                    assert(key_value_effect(*old(self), *self, config, *device, key, value, passed));
                }
                let hs = seq![pre, *self];
                let ps = seq![passed];
                assert(key_values@ =~= seq![(k, v)]);
                assert(key_value_effect(hs[0], hs[1], config, *device, key_values@[0].0, key_values@[0].1, ps[0]));
                assert(hs.len() == key_values@.len() + 1 && ps.len() == key_values@.len() && hs.last() == *self);
            }
            return passed && k >= DISGUISED_EVENT_OFFSETTER && k == key && v == value;
        }
        assert(!untouched);
        let mut forward_relative = false;
        let mut idx: usize = 0;
        let ghost mut hs: Seq<EventHandler> = seq![*self];
        let ghost mut ps: Seq<bool> = Seq::empty();
        while idx < key_values.len()
            invariant
                idx <= key_values@.len(),
                self.title_cache == old(self).title_cache,
                self.application_cache == old(self).application_cache,
                hs.len() == idx + 1,
                ps.len() == idx,
                hs.last() == *self,
                hs[0].hotstring_state == old(self).hotstring_state,
                wf(*old(self)) ==> wf(*self),
                forall|j: int| 0 <= j < idx ==> key_value_effect(
                    #[trigger] hs[j],
                    hs[j + 1],
                    config,
                    *device,
                    key_values@[j].0,
                    key_values@[j].1,
                    ps[j],
                ),
            decreases key_values@.len() - idx,
        {
            let (k, v) = key_values[idx];
            let ghost pre = *self;
            let passed = self.process_key_value(k, v, config, device, now);
            proof {
                hs = hs.push(*self);
                ps = ps.push(passed);
                assert(hs[idx as int] == pre);
            }
            idx = idx + 1;
            if passed && k >= DISGUISED_EVENT_OFFSETTER && k == key && v == value {
                forward_relative = true;
            }
        }
        forward_relative
    }

    /// Resolves one key event after static remapping. Virtual modifiers are
    /// tracked and never forwarded; physical modifiers are tracked and
    /// forwarded; releases are forwarded; a pressed key goes to the override
    /// stack and the keymap (unless escaped), then to the hotstring matcher,
    /// and is forwarded if nothing claims it. Returns whether it was
    /// forwarded unchanged.
    pub fn process_key_value(&mut self, k: u16, v: i32, config: &Config, device: &InputDeviceInfo, now: u64) -> (passed: bool)
        ensures
            final(self).multi_purpose_keys == old(self).multi_purpose_keys,
            final(self).pressed_keys == old(self).pressed_keys,
            key_value_effect(*old(self), *final(self), config, *device, k, v, passed),
    {
        let mut virtual_mod = false;
        let mut m: usize = 0;
        while m < config.virtual_modifiers.len()
            invariant
                m <= config.virtual_modifiers@.len(),
                virtual_mod == (exists|j: int| 0 <= j < m && config.virtual_modifiers@[j] == k),
            decreases config.virtual_modifiers@.len() - m,
        {
            if config.virtual_modifiers[m] == k {
                virtual_mod = true;
            }
            m = m + 1;
        }
        if virtual_mod {
            let ghost before = self.modifiers@;
            self.update_modifier(k, v);
            proof {
                if distinct(before) {
                    lemma_held_update_distinct(before, self.modifiers@, k, v);
                }
            }
            if is_pressed(v) {
                self.hotstring_state = HotstringMatcherState::idle();
            }
            return false;
        }
        if modifier_key(k) {
            let ghost before = self.modifiers@;
            self.update_modifier(k, v);
            proof {
                if distinct(before) {
                    lemma_held_update_distinct(before, self.modifiers@, k, v);
                }
            }
            self.send_key(k, v);
            if is_pressed(v) {
                self.hotstring_state = HotstringMatcherState::idle();
            }
            return false;
        }
        if is_pressed(v) {
            let mut handled = false;
            if self.escape_next_key {
                self.escape_next_key = false;
            } else {
                handled = self.resolve_and_dispatch(config, k, device, now);
            }
            if !handled {
                handled = self.resolve_and_dispatch(config, KEY_MATCH_ANY, device, now);
            }
            if !handled {
                match &config.hotstring_matcher {
                    Some(matcher) => {
                        handled = self.feed_hotstring(matcher, k);
                    },
                    None => {},
                }
            }
            if handled {
                return false;
            }
        }
        proof {
            let o = actions_view(old(self).actions@);
            let st = stack_taps(*old(self));
            assert(o + st + Seq::<ActionView>::empty() =~= o + st);
            assert(o + st + seq![ActionView::Key(k, v)] =~= (o + st).push(ActionView::Key(k, v)));
        }
        if k >= DISGUISED_EVENT_OFFSETTER {
            return true;
        }
        self.send_key(k, v);
        true
    }

    /// Looks `lookup` up and dispatches what it resolves to. Returns whether
    /// anything was resolved.
    fn resolve_and_dispatch(&mut self, config: &Config, lookup: u16, device: &InputDeviceInfo, now: u64) -> (r: bool)
        ensures
            final(self).modifiers == old(self).modifiers,
            old(self).override_remaps@.len() > 0 && !override_claims(
                old(self).override_remaps@,
                lookup,
                old(self).match_context(*device),
            ) && table_resolution(config.keymap_table@, lookup, old(self).match_context(*device)) is None
                ==> !r && same_state(*final(self), *old(self)) && final(self).override_remaps@.len() == 0
                && final(self).override_timeout_key is None && final(self).override_timer is None
                && actions_view(final(self).actions@) == actions_view(old(self).actions@) + timeout_taps(
                old(self).override_timeout_key,
            ),
            old(self).override_remaps@.len() == 0 && table_resolution(
                config.keymap_table@,
                lookup,
                old(self).match_context(*device),
            ) is Some ==> r,
            final(self).hotstring_state == old(self).hotstring_state,
            final(self).multi_purpose_keys == old(self).multi_purpose_keys,
            final(self).pressed_keys == old(self).pressed_keys,
            final(self).title_cache == old(self).title_cache,
            final(self).application_cache == old(self).application_cache,
            old(self).override_remaps@.len() == 0 && table_resolution(
                config.keymap_table@,
                lookup,
                old(self).match_context(*device),
            ) is None ==> !r && *final(self) == *old(self),
            old(self).override_remaps@.len() == 0 && table_resolution(
                config.keymap_table@,
                lookup,
                old(self).match_context(*device),
            ) is Some && slot_plain(config.keymap_table@, lookup) ==> r && actions_view(final(self).actions@)
                == actions_view(old(self).actions@) + picks_emissions(
                slot_entries(config.keymap_table@, lookup),
                table_resolution(config.keymap_table@, lookup, old(self).match_context(*device))->0,
            ),
    {
        match self.find_keymap(config, lookup, device) {
            Resolution::Table(slot, picks) => {
                self.dispatch_picks(&config.keymap_table[slot].1, &picks, lookup, now);
                true
            },
            Resolution::Override(entries, picks) => {
                self.dispatch_picks(&entries, &picks, lookup, now);
                true
            },
            Resolution::Nothing => false,
        }
    }

    /// Resolves a relative event through its disguised key: the direction of
    /// an axis is a pseudo key that keymaps can match. If that key passes
    /// through, the relative event is forwarded (motion on the first three
    /// axes batched); the pseudo key itself never is. An axis code too large
    /// to disguise is forwarded as it came.
    pub fn on_relative_event(&mut self, event: &RelativeEvent, mouse_movement_collection: &mut Vec<RelativeEvent>, config: &Config, device: &InputDeviceInfo, now: u64)
        ensures
            final(self).title_cache == old(self).title_cache,
            final(self).application_cache == old(self).application_cache,
            event.code > MAX_DISGUISED_AXIS ==> actions_view(final(self).actions@) == actions_view(old(self).actions@).push(
                ActionView::Relative(event.code, event.value),
            ) && final(mouse_movement_collection)@ == old(mouse_movement_collection)@,
            event.code <= MAX_DISGUISED_AXIS && unclaimed_pseudo_key(*old(self), config, *device, disguised_key(*event))
                ==> if event.code <= 2 {
                actions_view(final(self).actions@) == actions_view(old(self).actions@) + stack_taps(*old(self))
                    && final(mouse_movement_collection)@ == old(mouse_movement_collection)@.push(*event)
            } else {
                actions_view(final(self).actions@) == (actions_view(old(self).actions@) + stack_taps(*old(self))).push(
                    ActionView::Relative(event.code, event.value),
                ) && final(mouse_movement_collection)@ == old(mouse_movement_collection)@
            },
            wf(*old(self)) ==> wf(*final(self)),
    {
        if event.code > MAX_DISGUISED_AXIS {
            self.send_action(Action::RelativeEvent(*event));
            return;
        }
        let key: u16 = if event.value < 0 {
            event.code * 2 + 1 + DISGUISED_EVENT_OFFSETTER
        } else {
            event.code * 2 + DISGUISED_EVENT_OFFSETTER
        };
        if self.on_key_event(&KeyEvent { code: key, value: PRESS }, config, device, now) {
            if event.code <= 2 {
                mouse_movement_collection.push(*event);
            } else {
                self.send_action(Action::RelativeEvent(*event));
            }
        }
        self.on_key_event(&KeyEvent { code: key, value: RELEASE }, config, device, now);
    }

    /// Resolves a batch of events and hands back the actions, in order. An
    /// override timeout taps the override's timeout keys; other events pass
    /// through.
    pub fn on_events(&mut self, events: &Vec<Event>, config: &Config, now: u64) -> (r: Vec<Action>)
        ensures
            final(self).actions@.len() == 0,
            wf(*old(self)) ==> wf(*final(self)),
            exists|hs: Seq<EventHandler>, bs: Seq<Seq<RelativeEvent>>|
                #![trigger hs.len(), bs.len()]
                hs.len() == events@.len() + 1 && bs.len() == events@.len() + 1 && hs[0] == *old(self)
                    && bs[0].len() == 0 && (forall|j: int|
                    0 <= j < events@.len() ==> event_step(
                        #[trigger] hs[j],
                        hs[j + 1],
                        bs[j],
                        bs[j + 1],
                        config,
                        events@[j],
                    )) && actions_view(r@) == actions_view(hs.last().actions@) + batch_tail(bs.last()),
            events@.len() == 1 && events@[0] is OverrideTimeout && old(self).actions@.len() == 0 ==> actions_view(r@)
                == timeout_taps(old(self).override_timeout_key),
            events@.len() == 1 && events@[0] is OtherEvents && old(self).actions@.len() == 0 ==> actions_view(r@)
                == seq![ActionView::Input(events@[0]->OtherEvents_0)],
    {
        let mut mouse_movement_collection: Vec<RelativeEvent> = Vec::new();
        let mut i: usize = 0;
        let ghost mut hs: Seq<EventHandler> = seq![*self];
        let ghost mut bs: Seq<Seq<RelativeEvent>> = seq![mouse_movement_collection@];
        while i < events.len()
            invariant
                i <= events@.len(),
                hs.len() == i + 1,
                bs.len() == i + 1,
                hs[0] == *old(self),
                bs[0].len() == 0,
                hs.last() == *self,
                bs.last() == mouse_movement_collection@,
                wf(*old(self)) ==> wf(*self),
                forall|j: int| 0 <= j < i ==> event_step(#[trigger] hs[j], hs[j + 1], bs[j], bs[j + 1], config, events@[j]),
            decreases events@.len() - i,
        {
            let ghost h = *self;
            let ghost b = mouse_movement_collection@;
            match &events[i] {
                Event::KeyEvent(device, e) => {
                    self.on_key_event(e, config, device, now);
                },
                Event::RelativeEvent(device, e) => {
                    self.on_relative_event(e, &mut mouse_movement_collection, config, device, now);
                },
                Event::OtherEvents(e) => {
                    self.send_action(Action::InputEvent(*e));
                },
                Event::OverrideTimeout => {
                    self.timeout_override();
                },
            }
            proof {
                assert(event_step(h, *self, b, mouse_movement_collection@, config, events@[i as int]));
                hs = hs.push(*self);
                bs = bs.push(mouse_movement_collection@);
            }
            i = i + 1;
        }
        let ghost last = actions_view(self.actions@);
        if mouse_movement_collection.len() > 0 {
            self.send_action(Action::MouseMovementEventCollection(mouse_movement_collection));
        }
        let mut out: Vec<Action> = Vec::new();
        std::mem::swap(&mut out, &mut self.actions);
        proof {
            assert(actions_view(out@) =~= last + batch_tail(bs.last()));
            if events@.len() == 1 && old(self).actions@.len() == 0 {
                assert(actions_view(old(self).actions@) =~= Seq::<ActionView>::empty());
                assert(Seq::<ActionView>::empty() + timeout_taps(old(self).override_timeout_key) =~= timeout_taps(old(self).override_timeout_key));
                assert(event_step(hs[0], hs[1], bs[0], bs[1], config, events@[0]));
                if events@[0] is OverrideTimeout || events@[0] is OtherEvents {
                    assert(bs[1] == bs[0]);
                    assert(batch_tail(bs.last()) =~= Seq::<ActionView>::empty());
                }
            }
        }
        out
    }
}

} // verus!
