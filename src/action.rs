//! Primitive actions: what the resolution engine hands to the dispatcher.
use vstd::prelude::*;
use crate::types::{criteria_view, nodes_of, AhkAction, CriteriaView, Node, WindowCriteria};

verus! {

/// A key event: a key code and a value (release 0, press 1, repeat 2).
#[derive(PartialEq, Eq, Structural, Clone, Copy)]
pub struct KeyEvent {
    pub code: u16,
    pub value: i32,
}

/// A relative-axis event (mouse motion, wheel).
#[derive(PartialEq, Eq, Structural, Clone, Copy)]
pub struct RelativeEvent {
    pub code: u16,
    pub value: i32,
}

/// Any other input event, passed through as it came.
#[derive(PartialEq, Eq, Structural, Clone, Copy)]
pub struct RawInputEvent {
    pub event_type: u16,
    pub code: u16,
    pub value: i32,
}

/// A primitive action.
pub enum Action {
    KeyEvent(KeyEvent),
    RelativeEvent(RelativeEvent),
    MouseMovementEventCollection(Vec<RelativeEvent>),
    InputEvent(RawInputEvent),
    Command(Vec<String>),
    Delay(u64),
    TextExpansion { trigger_len: usize, replacement: String, add_space: bool },
    /// Wait until the window criteria hold, or the timeout has passed; then
    /// interpret `rest` against the window as it is by then.
    WaitActive { criteria: WindowCriteria, timeout_ms: Option<u64>, rest: Vec<AhkAction> },
}

/// What an action stands for.
pub enum ActionView {
    Key(u16, i32),
    Relative(u16, i32),
    MouseMovement(Seq<RelativeEvent>),
    Input(RawInputEvent),
    Command(Seq<Seq<char>>),
    Delay(u64),
    TextExpansion(usize, Seq<char>, bool),
    WaitActive(CriteriaView, Option<u64>, Seq<Node>),
}

pub open spec fn strings_view(v: Seq<String>) -> Seq<Seq<char>> {
    v.map_values(|s: String| s@)
}

impl View for Action {
    type V = ActionView;

    open spec fn view(&self) -> ActionView {
        match self {
            Action::KeyEvent(e) => ActionView::Key(e.code, e.value),
            Action::RelativeEvent(e) => ActionView::Relative(e.code, e.value),
            Action::MouseMovementEventCollection(v) => ActionView::MouseMovement(v@),
            Action::InputEvent(e) => ActionView::Input(*e),
            Action::Command(v) => ActionView::Command(strings_view(v@)),
            Action::Delay(ms) => ActionView::Delay(*ms),
            Action::TextExpansion { trigger_len, replacement, add_space } => ActionView::TextExpansion(
                *trigger_len,
                replacement@,
                *add_space,
            ),
            Action::WaitActive { criteria, timeout_ms, rest } => ActionView::WaitActive(
                criteria_view(*criteria),
                *timeout_ms,
                nodes_of(rest@),
            ),
        }
    }
}

pub open spec fn actions_view(v: Seq<Action>) -> Seq<ActionView> {
    v.map_values(|a: Action| a@)
}

/// A key action.
pub fn key_action(code: u16, value: i32) -> (r: Action)
    ensures
        r@ == ActionView::Key(code, value),
{
    Action::KeyEvent(KeyEvent { code, value })
}

/// Appends one action to a list.
pub fn push_action(out: &mut Vec<Action>, a: Action)
    ensures
        actions_view(final(out)@) == actions_view(old(out)@).push(a@),
{
    let ghost v = a@;
    out.push(a);
    assert(actions_view(final(out)@) =~= actions_view(old(out)@).push(v));
}

/// The key events that paste the selection: Shift+Insert.
pub fn paste_keys() -> (r: Vec<KeyEvent>)
    ensures
        r@ == seq![
            KeyEvent { code: crate::keys::KEY_LEFTSHIFT, value: 1 },
            KeyEvent { code: crate::keys::KEY_INSERT, value: 1 },
            KeyEvent { code: crate::keys::KEY_INSERT, value: 0 },
            KeyEvent { code: crate::keys::KEY_LEFTSHIFT, value: 0 },
        ],
{
    let mut r: Vec<KeyEvent> = Vec::new();
    r.push(KeyEvent { code: crate::keys::KEY_LEFTSHIFT, value: 1 });
    r.push(KeyEvent { code: crate::keys::KEY_INSERT, value: 1 });
    r.push(KeyEvent { code: crate::keys::KEY_INSERT, value: 0 });
    r.push(KeyEvent { code: crate::keys::KEY_LEFTSHIFT, value: 0 });
    assert(r@ =~= seq![
        KeyEvent { code: crate::keys::KEY_LEFTSHIFT, value: 1 },
        KeyEvent { code: crate::keys::KEY_INSERT, value: 1 },
        KeyEvent { code: crate::keys::KEY_INSERT, value: 0 },
        KeyEvent { code: crate::keys::KEY_LEFTSHIFT, value: 0 },
    ]);
    r
}

/// The text a text expansion inserts: the replacement, followed by a space
/// when the delimiter that completed it was erased.
pub fn expansion_text(replacement: &String, add_space: bool) -> (r: String)
    ensures
        add_space ==> r@ == replacement@.push(' '),
        !add_space ==> r@ == replacement@,
{
    let mut r = replacement.clone();
    if add_space {
        crate::text::push_char(&mut r, ' ');
    }
    r
}

} // verus!
