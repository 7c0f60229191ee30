//! Keys with one role when tapped alone and another when held.
//!
//! Time is given by the caller as milliseconds on a monotonic clock.
use vstd::prelude::*;
use crate::keys::{is_modifier_key, modifier_key};

verus! {

/// Key event values.
pub const RELEASE: i32 = 0;
pub const PRESS: i32 = 1;
pub const REPEAT: i32 = 2;

/// A declared multi-purpose key.
pub struct MultiPurposeKey {
    pub held: Vec<u16>,
    pub alone: Vec<u16>,
    pub alone_timeout_ms: u64,
    pub free_hold: bool,
}

/// A multi-purpose key that is physically down. While `alone_timeout_at` is
/// set the key is pending: a release before that instant means "alone".
pub struct MultiPurposeKeyState {
    pub held: Vec<u16>,
    pub alone: Vec<u16>,
    pub alone_timeout_at: Option<u64>,
    pub held_down: bool,
}

/// The keys of `s` that are (`want` true) or are not modifier keys, in order.
pub open spec fn keys_where(s: Seq<u16>, want: bool) -> Seq<u16>
    decreases s.len(),
{
    if s.len() == 0 {
        Seq::empty()
    } else if is_modifier_key(s.last()) == want {
        keys_where(s.drop_last(), want).push(s.last())
    } else {
        keys_where(s.drop_last(), want)
    }
}

/// Stable reordering with modifier keys first.
pub open spec fn modifiers_first(s: Seq<u16>) -> Seq<u16> {
    keys_where(s, true) + keys_where(s, false)
}

/// Stable reordering with modifier keys last.
pub open spec fn modifiers_last(s: Seq<u16>) -> Seq<u16> {
    keys_where(s, false) + keys_where(s, true)
}

/// Each key with the same event value.
pub open spec fn with_value(s: Seq<u16>, v: i32) -> Seq<(u16, i32)> {
    s.map_values(|k: u16| (k, v))
}

/// Press all keys (modifiers first), then release them (modifiers last).
pub open spec fn tap_events(s: Seq<u16>) -> Seq<(u16, i32)> {
    with_value(modifiers_first(s), PRESS) + with_value(modifiers_last(s), RELEASE)
}

/// The instant `d` after `now`, held at the clock's end.
pub open spec fn deadline(now: u64, d: u64) -> u64 {
    if now + d > u64::MAX {
        u64::MAX
    } else {
        (now + d) as u64
    }
}

fn keys_where_exec(s: &Vec<u16>, want: bool) -> (r: Vec<u16>)
    ensures
        r@ == keys_where(s@, want),
{
    let mut r: Vec<u16> = Vec::new();
    let mut i: usize = 0;
    while i < s.len()
        invariant
            i <= s@.len(),
            r@ == keys_where(s@.subrange(0, i as int), want),
        decreases s@.len() - i,
    {
        assert(s@.subrange(0, i + 1).drop_last() =~= s@.subrange(0, i as int));
        if modifier_key(s[i]) == want {
            r.push(s[i]);
        }
        i = i + 1;
    }
    assert(s@.subrange(0, s@.len() as int) =~= s@);
    r
}

fn push_events(out: &mut Vec<(u16, i32)>, keys: &Vec<u16>, v: i32)
    ensures
        final(out)@ == old(out)@ + with_value(keys@, v),
{
    let mut i: usize = 0;
    while i < keys.len()
        invariant
            i <= keys@.len(),
            out@ == old(out)@ + with_value(keys@.subrange(0, i as int), v),
        decreases keys@.len() - i,
    {
        out.push((keys[i], v));
        i = i + 1;
        assert(out@ =~= old(out)@ + with_value(keys@.subrange(0, i as int), v));
    }
    assert(keys@.subrange(0, keys@.len() as int) =~= keys@);
}

/// Events that press `keys` with modifiers first.
fn ordered_events(keys: &Vec<u16>, v: i32, mods_first: bool) -> (r: Vec<(u16, i32)>)
    ensures
        mods_first ==> r@ == with_value(modifiers_first(keys@), v),
        !mods_first ==> r@ == with_value(modifiers_last(keys@), v),
{
    let m = keys_where_exec(keys, true);
    let n = keys_where_exec(keys, false);
    let mut r: Vec<(u16, i32)> = Vec::new();
    if mods_first {
        push_events(&mut r, &m, v);
        push_events(&mut r, &n, v);
        assert(r@ =~= with_value(modifiers_first(keys@), v));
    } else {
        push_events(&mut r, &n, v);
        push_events(&mut r, &m, v);
        assert(r@ =~= with_value(modifiers_last(keys@), v));
    }
    r
}

/// Press-then-release events of a key set.
pub fn press_and_release(keys: &Vec<u16>) -> (r: Vec<(u16, i32)>)
    ensures
        r@ == tap_events(keys@),
{
    let mut r = ordered_events(keys, PRESS, true);
    let mut rel = ordered_events(keys, RELEASE, false);
    r.append(&mut rel);
    r
}

/// The pending state a press creates.
pub open spec fn pressed_timeout(k: MultiPurposeKey, now: u64) -> Option<u64> {
    if k.free_hold {
        None
    } else {
        Some(deadline(now, k.alone_timeout_ms))
    }
}

/// Events of a repeat at `now`, and whether it turns the key into "held".
pub open spec fn repeat_events(st: MultiPurposeKeyState, now: u64) -> Seq<(u16, i32)> {
    match st.alone_timeout_at {
        Some(t) => if now < t {
            Seq::empty()
        } else {
            with_value(modifiers_first(st.held@), PRESS)
        },
        None => with_value(modifiers_first(st.held@), REPEAT),
    }
}

/// Events of the release at `now`.
pub open spec fn release_events(st: MultiPurposeKeyState, now: u64) -> Seq<(u16, i32)> {
    match st.alone_timeout_at {
        Some(t) => if now < t {
            tap_events(st.alone@)
        } else {
            tap_events(st.held@)
        },
        None => if st.held_down {
            with_value(modifiers_last(st.held@), RELEASE)
        } else {
            tap_events(st.alone@)
        },
    }
}

impl MultiPurposeKeyState {
    /// The state of a multi-purpose key pressed at `now`; the press itself
    /// emits nothing yet.
    pub fn press(key: &MultiPurposeKey, now: u64) -> (r: MultiPurposeKeyState)
        ensures
            r.held@ == key.held@,
            r.alone@ == key.alone@,
            r.alone_timeout_at == pressed_timeout(*key, now),
            !r.held_down,
    {
        let at = if key.free_hold {
            None
        } else if key.alone_timeout_ms > u64::MAX - now {
            Some(u64::MAX)
        } else {
            Some(now + key.alone_timeout_ms)
        };
        MultiPurposeKeyState {
            held: key.held.clone(),
            alone: key.alone.clone(),
            alone_timeout_at: at,
            held_down: false,
        }
    }

    /// A repeat of the physical key at `now`. Within the timeout it is
    /// swallowed; the first one after it presses the held keys.
    pub fn repeat(&mut self, now: u64) -> (r: Vec<(u16, i32)>)
        ensures
            r@ == repeat_events(*old(self), now),
            final(self).held@ == old(self).held@,
            final(self).alone@ == old(self).alone@,
            match old(self).alone_timeout_at {
                Some(t) => if now < t {
                    final(self).alone_timeout_at == old(self).alone_timeout_at
                        && final(self).held_down == old(self).held_down
                } else {
                    final(self).alone_timeout_at is None && final(self).held_down
                },
                None => final(self).alone_timeout_at is None && final(self).held_down
                    == old(self).held_down,
            },
    {
        match self.alone_timeout_at {
            Some(t) => {
                if now < t {
                    Vec::new()
                } else {
                    self.alone_timeout_at = None;
                    self.held_down = true;
                    ordered_events(&self.held, PRESS, true)
                }
            },
            None => ordered_events(&self.held, REPEAT, true),
        }
    }

    /// The release of the physical key at `now`.
    pub fn release(&self, now: u64) -> (r: Vec<(u16, i32)>)
        ensures
            r@ == release_events(*self, now),
    {
        match self.alone_timeout_at {
            Some(t) => {
                if now < t {
                    press_and_release(&self.alone)
                } else {
                    press_and_release(&self.held)
                }
            },
            None => {
                if self.held_down {
                    ordered_events(&self.held, RELEASE, false)
                } else {
                    press_and_release(&self.alone)
                }
            },
        }
    }

    /// Another key was pressed while this one is down: it is held from now
    /// on, and its held keys are pressed unless they already are.
    pub fn force_held(&mut self) -> (r: Vec<(u16, i32)>)
        ensures
            final(self).held@ == old(self).held@,
            final(self).alone@ == old(self).alone@,
            final(self).alone_timeout_at is None,
            final(self).held_down,
            (old(self).alone_timeout_at is Some || !old(self).held_down) ==> r@ == with_value(
                modifiers_first(old(self).held@),
                PRESS,
            ),
            (old(self).alone_timeout_at is None && old(self).held_down) ==> r@.len() == 0,
    {
        let press = match self.alone_timeout_at {
            Some(_) => true,
            None => !self.held_down,
        };
        self.alone_timeout_at = None;
        self.held_down = true;
        if press {
            ordered_events(&self.held, PRESS, true)
        } else {
            Vec::new()
        }
    }
}

/// A multi-purpose key released before its alone timeout emits exactly its
/// alone keys, pressed then released, and none of its held keys; a repeat
/// before the timeout emits nothing.
pub proof fn lemma_tap_before_timeout_is_alone(
    k: MultiPurposeKey,
    st: MultiPurposeKeyState,
    pressed_at: u64,
    now: u64,
)
    requires
        !k.free_hold,
        st.held@ == k.held@,
        st.alone@ == k.alone@,
        st.alone_timeout_at == pressed_timeout(k, pressed_at),
        !st.held_down,
        pressed_at <= now,
        now < pressed_at + k.alone_timeout_ms,
        pressed_at + k.alone_timeout_ms <= u64::MAX,
    ensures
        release_events(st, now) == tap_events(k.alone@),
        repeat_events(st, now) == Seq::<(u16, i32)>::empty(),
{
}

/// A multi-purpose key held past its timeout: the first repeat after the
/// timeout presses the held keys (modifiers first), later repeats repeat
/// them, and the release releases them once (modifiers last). The held keys
/// are pressed only by that first repeat.
pub proof fn lemma_hold_past_timeout(
    k: MultiPurposeKey,
    st: MultiPurposeKeyState,
    held: MultiPurposeKeyState,
    pressed_at: u64,
    first_repeat: u64,
    later: u64,
)
    requires
        !k.free_hold,
        st.held@ == k.held@,
        st.alone@ == k.alone@,
        st.alone_timeout_at == pressed_timeout(k, pressed_at),
        !st.held_down,
        first_repeat >= pressed_at + k.alone_timeout_ms,
        held.held@ == k.held@,
        held.alone_timeout_at is None,
        held.held_down,
    ensures
        repeat_events(st, first_repeat) == with_value(modifiers_first(k.held@), PRESS),
        repeat_events(held, later) == with_value(modifiers_first(k.held@), REPEAT),
        release_events(held, later) == with_value(modifiers_last(k.held@), RELEASE),
{
}

} // verus!
