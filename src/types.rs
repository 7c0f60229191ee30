//! The script's syntax tree and compiled hotkeys and hotstrings.
use vstd::prelude::*;

verus! {

broadcast use vstd::std_specs::vec::axiom_vec_decreases_to_view, vstd::seq::axiom_seq_index_decreases;

/// Which window a window command or condition looks at.
#[derive(Clone)]
pub enum WindowCriteria {
    /// The active window's title equals the text.
    Title(String),
    /// The active window's class equals the text (`ahk_class`).
    Class(String),
    /// The active window's class equals the executable name (`ahk_exe`).
    Exe(String),
}

/// The window commands of the script language.
#[derive(PartialEq, Eq, Structural)]
pub enum WindowCommand {
    Activate,
    WaitActive,
    Close,
}

/// A node of the script's action tree.
pub enum AhkAction {
    Run(Vec<String>),
    Send(String),
    Remap(Vec<u16>),
    Sleep(u64),
    Shell(String),
    Block(Vec<AhkAction>),
    WinActivate(WindowCriteria),
    WinClose(WindowCriteria),
    IfWinActive {
        criteria: WindowCriteria,
        then_actions: Vec<AhkAction>,
        else_actions: Option<Vec<AhkAction>>,
    },
    WinWaitActive { criteria: WindowCriteria, timeout_ms: Option<u64> },
}

/// A combination bound to an action, with the context it was declared under.
pub struct AhkHotkey {
    pub modifiers: Vec<u16>,
    pub key: u16,
    pub action: AhkAction,
    pub context: Option<String>,
    pub is_wildcard: bool,
}

/// Typed text that is replaced by other text, or runs a command.
pub struct AhkHotstring {
    pub trigger: String,
    pub replacement: String,
    pub immediate: bool,
    pub case_sensitive: bool,
    pub omit_char: bool,
    pub execute: bool,
    pub context: Option<String>,
}

/// Everything a script declares.
pub struct AhkConfig {
    pub hotkeys: Vec<AhkHotkey>,
    pub hotstrings: Vec<AhkHotstring>,
}

/// What window criteria stand for.
pub enum CriteriaView {
    Title(Seq<char>),
    Class(Seq<char>),
    Exe(Seq<char>),
}

/// What an action tree stands for.
pub enum Node {
    Run(Seq<Seq<char>>),
    Send(Seq<char>),
    Remap(Seq<u16>),
    Sleep(u64),
    Shell(Seq<char>),
    Block(Seq<Node>),
    WinActivate(CriteriaView),
    WinClose(CriteriaView),
    IfWinActive(CriteriaView, Seq<Node>, Option<Seq<Node>>),
    WinWaitActive(CriteriaView, Option<u64>),
}

pub open spec fn criteria_view(c: WindowCriteria) -> CriteriaView {
    match c {
        WindowCriteria::Title(s) => CriteriaView::Title(s@),
        WindowCriteria::Class(s) => CriteriaView::Class(s@),
        WindowCriteria::Exe(s) => CriteriaView::Exe(s@),
    }
}

pub open spec fn node_of(a: AhkAction) -> Node
    decreases a,
{
    match a {
        AhkAction::Run(parts) => Node::Run(parts@.map_values(|s: String| s@)),
        AhkAction::Send(s) => Node::Send(s@),
        AhkAction::Remap(k) => Node::Remap(k@),
        AhkAction::Sleep(ms) => Node::Sleep(ms),
        AhkAction::Shell(s) => Node::Shell(s@),
        AhkAction::Block(v) => Node::Block(nodes_of(v@)),
        AhkAction::WinActivate(c) => Node::WinActivate(criteria_view(c)),
        AhkAction::WinClose(c) => Node::WinClose(criteria_view(c)),
        AhkAction::IfWinActive { criteria, then_actions, else_actions } => Node::IfWinActive(
            criteria_view(criteria),
            nodes_of(then_actions@),
            match else_actions {
                Some(e) => Some(nodes_of(e@)),
                None => None,
            },
        ),
        AhkAction::WinWaitActive { criteria, timeout_ms } => Node::WinWaitActive(
            criteria_view(criteria),
            timeout_ms,
        ),
    }
}

pub open spec fn nodes_of(v: Seq<AhkAction>) -> Seq<Node>
    decreases v,
{
    if v.len() == 0 {
        Seq::empty()
    } else {
        nodes_of(v.drop_last()).push(node_of(v.last()))
    }
}

/// A copy of window criteria.
pub fn copy_criteria(c: &WindowCriteria) -> (r: WindowCriteria)
    ensures
        criteria_view(r) == criteria_view(*c),
{
    match c {
        WindowCriteria::Title(s) => WindowCriteria::Title(s.clone()),
        WindowCriteria::Class(s) => WindowCriteria::Class(s.clone()),
        WindowCriteria::Exe(s) => WindowCriteria::Exe(s.clone()),
    }
}

fn copy_actions(v: &Vec<AhkAction>) -> (r: Vec<AhkAction>)
    ensures
        nodes_of(r@) == nodes_of(v@),
    decreases v, 1nat,
{
    let mut out: Vec<AhkAction> = Vec::new();
    let mut i: usize = 0;
    while i < v.len()
        invariant
            i <= v@.len(),
            nodes_of(out@) == nodes_of(v@.subrange(0, i as int)),
        decreases v@.len() - i,
    {
        let a = copy_action(&v[i]);
        let ghost prev = out@;
        out.push(a);
        assert(out@.drop_last() =~= prev);
        assert(v@.subrange(0, i + 1).drop_last() =~= v@.subrange(0, i as int));
        i = i + 1;
    }
    assert(v@.subrange(0, v@.len() as int) =~= v@);
    out
}

/// A copy of an action tree.
pub fn copy_action(a: &AhkAction) -> (r: AhkAction)
    ensures
        node_of(r) == node_of(*a),
    decreases a, 0nat,
{
    match a {
        AhkAction::Run(parts) => {
            let mut out: Vec<String> = Vec::new();
            let mut i: usize = 0;
            while i < parts.len()
                invariant
                    i <= parts@.len(),
                    out@.map_values(|s: String| s@) == parts@.subrange(0, i as int).map_values(|s: String| s@),
                decreases parts@.len() - i,
            {
                let c = parts[i].clone();
                let ghost prev = out@;
                out.push(c);
                assert(out@ == prev.push(c));
                assert(c == parts@[i as int]);
                assert(out@.map_values(|s: String| s@) =~= prev.map_values(|s: String| s@).push(c@));
                assert(parts@.subrange(0, i + 1).map_values(|s: String| s@) =~= parts@.subrange(
                    0,
                    i as int,
                ).map_values(|s: String| s@).push(parts@[i as int]@));
                i = i + 1;
            }
            assert(parts@.subrange(0, parts@.len() as int) =~= parts@);
            AhkAction::Run(out)
        },
        AhkAction::Send(s) => AhkAction::Send(s.clone()),
        AhkAction::Remap(k) => AhkAction::Remap(k.clone()),
        AhkAction::Sleep(ms) => AhkAction::Sleep(*ms),
        AhkAction::Shell(s) => AhkAction::Shell(s.clone()),
        AhkAction::Block(v) => AhkAction::Block(copy_actions(v)),
        AhkAction::WinActivate(c) => AhkAction::WinActivate(copy_criteria(c)),
        AhkAction::WinClose(c) => AhkAction::WinClose(copy_criteria(c)),
        AhkAction::IfWinActive { criteria, then_actions, else_actions } => {
            let e = match else_actions {
                Some(e) => Some(copy_actions(e)),
                None => None,
            };
            AhkAction::IfWinActive {
                criteria: copy_criteria(criteria),
                then_actions: copy_actions(then_actions),
                else_actions: e,
            }
        },
        AhkAction::WinWaitActive { criteria, timeout_ms } => AhkAction::WinWaitActive {
            criteria: copy_criteria(criteria),
            timeout_ms: *timeout_ms,
        },
    }
}

} // verus!
