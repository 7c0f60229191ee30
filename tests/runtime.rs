use ahk_remap::action::Action;
use ahk_remap::hotstring::{HotstringMatcher, HotstringMatcherState, BUFFER_CAP};
use ahk_remap::interpreter::{convert_send_to_actions, win_wait_step, AhkInterpreter, WaitStep};
use ahk_remap::keys::{KEY_A, KEY_B, KEY_LEFTCTRL, KEY_LEFTSHIFT};
use ahk_remap::multipurpose::{MultiPurposeKey, MultiPurposeKeyState, PRESS, RELEASE, REPEAT};
use ahk_remap::types::{AhkAction, AhkHotstring, WindowCriteria};

fn hs(trigger: &str, replacement: &str, immediate: bool) -> AhkHotstring {
    AhkHotstring {
        trigger: trigger.to_string(),
        replacement: replacement.to_string(),
        immediate,
        case_sensitive: false,
        omit_char: false,
        execute: false,
        context: None,
    }
}

fn keys_of(actions: &[Action]) -> Vec<(u16, i32)> {
    actions
        .iter()
        .map(|a| match a {
            Action::KeyEvent(e) => (e.code, e.value),
            _ => panic!("not a key event"),
        })
        .collect()
}

#[test]
fn send_hello_wraps_shift_around_capital_only() {
    let acts = convert_send_to_actions("Hello");
    let k = keys_of(&acts);
    assert_eq!(
        k,
        vec![
            (KEY_LEFTSHIFT, PRESS), (35, PRESS), (35, RELEASE), (KEY_LEFTSHIFT, RELEASE),
            (18, PRESS), (18, RELEASE),
            (38, PRESS), (38, RELEASE),
            (38, PRESS), (38, RELEASE),
            (24, PRESS), (24, RELEASE),
        ]
    );
}

#[test]
fn send_modified_key_releases_in_reverse() {
    let k = keys_of(&convert_send_to_actions("^+a"));
    assert_eq!(
        k,
        vec![
            (KEY_LEFTCTRL, PRESS), (KEY_LEFTSHIFT, PRESS), (KEY_A, PRESS), (KEY_A, RELEASE),
            (KEY_LEFTSHIFT, RELEASE), (KEY_LEFTCTRL, RELEASE),
        ]
    );
}

#[test]
fn interpreter_commands() {
    let it = AhkInterpreter::new(Some("Editor".to_string()), Some("kate".to_string()));
    let run = it.execute(&AhkAction::Run(vec!["ls".to_string(), "-l".to_string()]));
    match &run[0] {
        Action::Command(c) => assert_eq!(c, &vec!["/bin/sh".to_string(), "-c".to_string(), "ls -l".to_string()]),
        _ => panic!(),
    }
    let url = it.execute(&AhkAction::Run(vec!["https://x.org".to_string()]));
    match &url[0] {
        Action::Command(c) => assert_eq!(c, &vec!["xdg-open".to_string(), "https://x.org".to_string()]),
        _ => panic!(),
    }
    let act = it.execute(&AhkAction::WinActivate(WindowCriteria::Exe("firefox".to_string())));
    match &act[0] {
        Action::Command(c) => assert_eq!(c.join(" "), "kdotool search --classname firefox windowactivate"),
        _ => panic!(),
    }
    let sh = it.build_kdotool_shell(&WindowCriteria::Title("it's".to_string()), "windowclose");
    assert_eq!(sh, "kdotool search --name 'it'\\''s' windowclose");
    let sl = it.execute(&AhkAction::Sleep(30));
    assert!(matches!(sl[0], Action::Delay(30)));
}

#[test]
fn interpreter_condition_reads_context() {
    let it = AhkInterpreter::new(None, Some("kate".to_string()));
    let a = AhkAction::IfWinActive {
        criteria: WindowCriteria::Class("kate".to_string()),
        then_actions: vec![AhkAction::Sleep(1)],
        else_actions: Some(vec![AhkAction::Sleep(2)]),
    };
    assert!(matches!(it.execute(&a)[0], Action::Delay(1)));
    let other = AhkInterpreter::new(None, None);
    assert!(matches!(other.execute(&a)[0], Action::Delay(2)));
    let blk = AhkAction::Block(vec![AhkAction::Remap(vec![KEY_A, KEY_B]), AhkAction::Shell("true".to_string())]);
    let out = other.execute(&blk);
    assert_eq!(out.len(), 5);
}

#[test]
fn win_wait_active_becomes_a_wait_action() {
    let it = AhkInterpreter::new(None, None);
    let out = it.execute(&AhkAction::WinWaitActive {
        criteria: WindowCriteria::Title("Editor".to_string()),
        timeout_ms: Some(500),
    });
    assert_eq!(out.len(), 1);
    match &out[0] {
        Action::WaitActive { criteria: WindowCriteria::Title(t), timeout_ms, rest } => {
            assert_eq!(t, "Editor");
            assert_eq!(*timeout_ms, Some(500));
            assert!(rest.is_empty());
        },
        _ => panic!("expected a wait"),
    }
}

#[test]
fn interpretation_resumes_after_the_wait() {
    let program = AhkAction::Block(vec![
        AhkAction::Sleep(5),
        AhkAction::WinWaitActive { criteria: WindowCriteria::Class("kate".to_string()), timeout_ms: None },
        AhkAction::IfWinActive {
            criteria: WindowCriteria::Class("kate".to_string()),
            then_actions: vec![AhkAction::Sleep(1)],
            else_actions: Some(vec![AhkAction::Sleep(2)]),
        },
    ]);
    let before = AhkInterpreter::new(None, Some("dolphin".to_string())).execute(&program);
    assert_eq!(before.len(), 2);
    assert!(matches!(before[0], Action::Delay(5)));
    let rest = match &before[1] {
        Action::WaitActive { rest, .. } => rest,
        _ => panic!("expected a wait"),
    };
    assert_eq!(rest.len(), 1);
    let mut copied = vec![];
    for a in rest {
        if let AhkAction::IfWinActive { .. } = a {
            copied.push(AhkAction::IfWinActive {
                criteria: WindowCriteria::Class("kate".to_string()),
                then_actions: vec![AhkAction::Sleep(1)],
                else_actions: Some(vec![AhkAction::Sleep(2)]),
            });
        }
    }
    let after = AhkInterpreter::new(None, Some("kate".to_string())).execute(&AhkAction::Block(copied));
    assert!(matches!(after[0], Action::Delay(1)));
}

#[test]
fn win_wait_decisions() {
    assert!(win_wait_step(true, 0, Some(100)) == WaitStep::Done);
    assert!(win_wait_step(false, 0, Some(100)) == WaitStep::Poll);
    assert!(win_wait_step(false, 50, Some(100)) == WaitStep::TimedOut);
    assert!(win_wait_step(false, 1_000_000, None) == WaitStep::Poll);
}

#[test]
fn matcher_same_input_gives_same_state() {
    let m = HotstringMatcher::new(vec![hs("btw", "by the way", true)]);
    let mut s1 = HotstringMatcherState::idle();
    let mut s2 = HotstringMatcherState::idle();
    for c in "hello".chars() {
        let (n, r) = m.process(&s1, c);
        assert!(r.is_none());
        s1 = n;
    }
    for c in "hello".chars() {
        let (n, _) = m.process(&s2, c);
        s2 = n;
    }
    assert_eq!(s1.buffer, s2.buffer);
    assert_eq!(s1.buffer, vec!['h', 'e', 'l', 'l', 'o']);
}

#[test]
fn matcher_immediate_versus_word_trigger() {
    let imm = HotstringMatcher::new(vec![hs("btw", "x", true)]);
    let mut s = HotstringMatcherState::idle();
    let mut hits = vec![];
    for c in "btw".chars() {
        let (n, r) = imm.process(&s, c);
        hits.push(r);
        s = n;
    }
    assert_eq!(hits, vec![None, None, Some(0)]);
    assert!(s.buffer.is_empty());

    let word = HotstringMatcher::new(vec![hs("btw", "x", false)]);
    let mut s = HotstringMatcherState::idle();
    for c in "btw".chars() {
        let (n, r) = word.process(&s, c);
        assert!(r.is_none());
        s = n;
    }
    let (_, r) = word.process(&s, ' ');
    assert_eq!(r, Some(0));
}

#[test]
fn matcher_tie_break_is_declaration_order() {
    let m = HotstringMatcher::new(vec![hs("tw", "first", true), hs("btw", "second", true)]);
    let mut s = HotstringMatcherState::idle();
    let mut last = None;
    for c in "btw".chars() {
        let (n, r) = m.process(&s, c);
        last = r;
        s = n;
    }
    assert_eq!(last, Some(0));
}

#[test]
fn matcher_folds_case_unless_sensitive() {
    let m = HotstringMatcher::new(vec![hs("btw", "x", true)]);
    let mut s = HotstringMatcherState::idle();
    let mut last = None;
    for c in "BtW".chars() {
        let (n, r) = m.process(&s, c);
        last = r;
        s = n;
    }
    assert_eq!(last, Some(0));
    let mut h = hs("btw", "x", true);
    h.case_sensitive = true;
    let m = HotstringMatcher::new(vec![h]);
    let mut s = HotstringMatcherState::idle();
    for c in "BtW".chars() {
        let (n, r) = m.process(&s, c);
        assert!(r.is_none());
        s = n;
    }
}

#[test]
fn matcher_buffer_is_capped() {
    let m = HotstringMatcher::new(vec![]);
    let mut s = HotstringMatcherState::idle();
    for _ in 0..(BUFFER_CAP + 20) {
        let (n, _) = m.process(&s, 'a');
        s = n;
    }
    assert_eq!(s.buffer.len(), BUFFER_CAP);
}

fn mpk() -> MultiPurposeKey {
    MultiPurposeKey { held: vec![KEY_LEFTCTRL], alone: vec![KEY_A], alone_timeout_ms: 200, free_hold: false }
}

#[test]
fn multi_purpose_tap_is_alone() {
    let mut st = MultiPurposeKeyState::press(&mpk(), 1000);
    assert!(st.repeat(1020).is_empty());
    let out = st.release(1050);
    assert_eq!(out, vec![(KEY_A, PRESS), (KEY_A, RELEASE)]);
}

#[test]
fn multi_purpose_hold_presses_once() {
    let mut st = MultiPurposeKeyState::press(&mpk(), 1000);
    assert_eq!(st.repeat(1250), vec![(KEY_LEFTCTRL, PRESS)]);
    assert_eq!(st.repeat(1280), vec![(KEY_LEFTCTRL, REPEAT)]);
    assert_eq!(st.repeat(1300), vec![(KEY_LEFTCTRL, REPEAT)]);
    assert_eq!(st.release(1400), vec![(KEY_LEFTCTRL, RELEASE)]);
}

#[test]
fn multi_purpose_force_held() {
    let mut st = MultiPurposeKeyState::press(&mpk(), 1000);
    assert_eq!(st.force_held(), vec![(KEY_LEFTCTRL, PRESS)]);
    assert!(st.force_held().is_empty());
    assert_eq!(st.release(1010), vec![(KEY_LEFTCTRL, RELEASE)]);
}
