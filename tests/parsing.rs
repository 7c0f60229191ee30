use ahk_remap::combo::parse_key_combo;
use ahk_remap::keys::{
    char_to_key_with_shift, key_to_char, parse_special_key, string_to_key, KEY_A, KEY_C, KEY_ENTER,
    KEY_F1, KEY_F2, KEY_J, KEY_LEFTALT, KEY_LEFTCTRL, KEY_LEFTMETA, KEY_LEFTSHIFT, KEY_SPACE,
    KEY_CAPSLOCK, KEY_1, KEY_VOLUMEUP,
};
use ahk_remap::parser::parse_ahk_content;
use ahk_remap::send_parser::{parse_send_string, SendToken};
use ahk_remap::types::{AhkAction, WindowCriteria};

#[test]
fn combo_sigil_order_does_not_matter() {
    let a = parse_key_combo("^!a").unwrap();
    let b = parse_key_combo("!^a").unwrap();
    assert_eq!(a.modifiers, b.modifiers);
    assert_eq!(a.key, b.key);
    assert_eq!(a.modifiers, vec![KEY_LEFTCTRL, KEY_LEFTALT]);
    assert_eq!(a.key, KEY_A);
    let c = parse_key_combo("#+^!a").unwrap();
    let d = parse_key_combo("!^+#a").unwrap();
    assert_eq!(c.modifiers, d.modifiers);
    assert_eq!(c.modifiers, vec![KEY_LEFTCTRL, KEY_LEFTALT, KEY_LEFTSHIFT, KEY_LEFTMETA]);
}

#[test]
fn combo_leading_sigils_and_two_key_form() {
    let w = parse_key_combo("~*$^F1").unwrap();
    assert!(w.wildcard);
    assert_eq!(w.key, KEY_F1);
    assert_eq!(w.modifiers, vec![KEY_LEFTCTRL]);
    let f = parse_key_combo("$a").unwrap();
    assert!(!f.wildcard);
    let amp = parse_key_combo("CapsLock & j").unwrap();
    assert_eq!(amp.modifiers, vec![KEY_CAPSLOCK]);
    assert_eq!(amp.key, KEY_J);
}

#[test]
fn combo_unknown_key_is_an_error() {
    let e = parse_key_combo("^nosuchkey").err().unwrap();
    assert_eq!(e, "Unknown key: nosuchkey");
}

#[test]
fn catalog_is_case_insensitive() {
    assert_eq!(string_to_key("enter").unwrap(), KEY_ENTER);
    assert_eq!(string_to_key("ENTER").unwrap(), KEY_ENTER);
    assert_eq!(string_to_key("Space").unwrap(), KEY_SPACE);
    assert_eq!(string_to_key("Volume_Up").unwrap(), KEY_VOLUMEUP);
    assert_eq!(string_to_key("1").unwrap(), KEY_1);
    assert_eq!(string_to_key("bogus").err().unwrap(), "Unknown key: bogus");
}

#[test]
fn character_table() {
    assert_eq!(char_to_key_with_shift('H'), Some((35, true)));
    assert_eq!(char_to_key_with_shift('e'), Some((18, false)));
    assert_eq!(char_to_key_with_shift('!'), Some((KEY_1, true)));
    assert_eq!(char_to_key_with_shift('é'), None);
    assert_eq!(key_to_char(KEY_A), Some('a'));
    assert_eq!(key_to_char(KEY_F1), None);
    assert_eq!(parse_special_key("Enter"), Some(KEY_ENTER));
    assert_eq!(parse_special_key("nope"), None);
}

#[test]
fn send_brackets_only_give_plain_keys() {
    let t = parse_send_string("{Enter}{Tab}{a}");
    assert_eq!(t.len(), 3);
    for tok in &t {
        match tok {
            SendToken::Key { modifiers, .. } => assert!(modifiers.is_empty()),
            SendToken::Text(_) => panic!("text token"),
        }
    }
    match &t[0] {
        SendToken::Key { key, .. } => assert_eq!(*key, KEY_ENTER),
        _ => unreachable!(),
    }
}

#[test]
fn send_sigil_promotes_character_to_key() {
    let t = parse_send_string("ab^c{Enter}x");
    assert_eq!(t.len(), 4);
    match &t[0] {
        SendToken::Text(s) => assert_eq!(s, "ab"),
        _ => panic!(),
    }
    match &t[1] {
        SendToken::Key { key, modifiers } => {
            assert_eq!(*key, KEY_C);
            assert_eq!(modifiers, &vec![KEY_LEFTCTRL]);
        },
        _ => panic!(),
    }
    match &t[3] {
        SendToken::Text(s) => assert_eq!(s, "x"),
        _ => panic!(),
    }
}

#[test]
fn hotif_context_applies_until_reset() {
    let cfg = parse_ahk_content(
        "#HotIf WinActive(\"ahk_exe foo\")\nF1::Run notepad\n#HotIf\nF2::Run calc\n",
    )
    .unwrap();
    assert_eq!(cfg.hotkeys.len(), 2);
    assert_eq!(cfg.hotkeys[0].key, KEY_F1);
    assert_eq!(cfg.hotkeys[0].context.as_deref(), Some("ahk_exe foo"));
    assert_eq!(cfg.hotkeys[1].key, KEY_F2);
    assert_eq!(cfg.hotkeys[1].context, None);
    match &cfg.hotkeys[0].action {
        AhkAction::Run(p) => assert_eq!(p, &vec!["notepad".to_string()]),
        _ => panic!(),
    }
}

#[test]
fn hotstring_lines() {
    let cfg = parse_ahk_content(":*:btw::by the way\n::omg::oh my god \n:CX:gg::Run(\"firefox\")").unwrap();
    assert_eq!(cfg.hotstrings.len(), 3);
    assert_eq!(cfg.hotstrings[0].trigger, "btw");
    assert_eq!(cfg.hotstrings[0].replacement, "by the way");
    assert!(cfg.hotstrings[0].immediate);
    assert!(!cfg.hotstrings[1].immediate);
    assert_eq!(cfg.hotstrings[1].replacement, "oh my god");
    assert!(cfg.hotstrings[2].case_sensitive && cfg.hotstrings[2].execute);
}

#[test]
fn send_line_with_escapes() {
    let cfg = parse_ahk_content("^j::Send(\"Hello`n`q\")").unwrap();
    assert_eq!(cfg.hotkeys[0].modifiers, vec![KEY_LEFTCTRL]);
    assert_eq!(cfg.hotkeys[0].key, KEY_J);
    match &cfg.hotkeys[0].action {
        AhkAction::Send(s) => assert_eq!(s, "Hello\n`q"),
        _ => panic!(),
    }
}

#[test]
fn block_with_if_else_and_following_statement() {
    let src = "; comment\n^t::{\n  If WinActive(\"ahk_class dolphin\") {\n    Send \"x\"\n  } else {\n    Sleep 20\n  }\n  Run \"https://example.com\"\n  Shell {\n    echo hi\n    echo { }\n  }\n}\n";
    let cfg = parse_ahk_content(src).unwrap();
    assert_eq!(cfg.hotkeys.len(), 1);
    match &cfg.hotkeys[0].action {
        AhkAction::Block(v) => {
            assert_eq!(v.len(), 3);
            match &v[0] {
                AhkAction::IfWinActive { criteria, then_actions, else_actions } => {
                    match criteria {
                        WindowCriteria::Class(c) => assert_eq!(c, "dolphin"),
                        _ => panic!(),
                    }
                    assert_eq!(then_actions.len(), 1);
                    assert_eq!(else_actions.as_ref().unwrap().len(), 1);
                },
                _ => panic!(),
            }
            match &v[1] {
                AhkAction::Run(p) => assert_eq!(p, &vec!["https://example.com".to_string()]),
                _ => panic!(),
            }
            match &v[2] {
                AhkAction::Shell(s) => assert_eq!(s, "echo hi\necho { }"),
                _ => panic!(),
            }
        },
        _ => panic!(),
    }
}

#[test]
fn unknown_action_aborts_everywhere() {
    assert_eq!(
        parse_ahk_content("a::Frobnicate").err().unwrap(),
        "Unknown action: Frobnicate in line: a::Frobnicate"
    );
    assert_eq!(
        parse_ahk_content("a::{\n  Frobnicate\n}").err().unwrap(),
        "Unknown action: Frobnicate in line: a::{"
    );
    assert_eq!(parse_ahk_content("a::{\n  Send \"x\"\n").err().unwrap(), "Unclosed block in line: a::{");
    assert_eq!(parse_ahk_content("a::Sleep x").err().unwrap(), "Invalid sleep duration: Sleep x in line: a::Sleep x");
}

#[test]
fn bare_key_name_is_a_remap() {
    let cfg = parse_ahk_content("CapsLock::Escape").unwrap();
    match &cfg.hotkeys[0].action {
        AhkAction::Remap(k) => assert_eq!(k, &vec![1u16]),
        _ => panic!(),
    }
}

#[test]
fn every_parse_error_names_its_text() {
    assert_eq!(parse_ahk_content(":x").err().unwrap(), "Invalid hotstring: :x");
    assert_eq!(parse_ahk_content(":*:btw").err().unwrap(), "Invalid hotstring: :*:btw");
    assert_eq!(
        parse_ahk_content("#HotIf Foo()").err().unwrap(),
        "Invalid #HotIf directive: #HotIf Foo()"
    );
    assert_eq!(
        parse_ahk_content("a::{\n  If Foo {\n  }\n}").err().unwrap(),
        "Unknown condition: If Foo { in line: a::{"
    );
    assert_eq!(parse_ahk_content("a::{\n} else {\n}").err().unwrap(), "Unexpected else: a::{");
    assert_eq!(parse_ahk_content("nokey::Send x").err().unwrap(), "Unknown key: nokey in line: nokey::Send x");
    assert_eq!(parse_ahk_content("a::{\n  Shell {\n    echo\n").err().unwrap(), "Unclosed block in line: a::{");
}

#[test]
fn negated_context_is_kept() {
    let cfg = parse_ahk_content("#HotIf !WinActive(\"ahk_class Konsole\")\nF1::Send \"x\"").unwrap();
    assert_eq!(cfg.hotkeys[0].context.as_deref(), Some("!ahk_class Konsole"));
}

#[test]
fn ignored_lines_and_comments() {
    let cfg = parse_ahk_content("#SingleInstance Force\n; note\n\n  a::b\n").unwrap();
    assert_eq!(cfg.hotkeys.len(), 1);
    match &cfg.hotkeys[0].action {
        AhkAction::Remap(k) => assert_eq!(k, &vec![48u16]),
        _ => panic!(),
    }
}

#[test]
fn statement_after_if_without_else_is_kept() {
    let cfg = parse_ahk_content("a::{\n  If WinActive(\"T\") {\n    Sleep 1\n  }\n  Sleep 2\n}").unwrap();
    match &cfg.hotkeys[0].action {
        AhkAction::Block(v) => {
            assert_eq!(v.len(), 2);
            assert!(matches!(&v[0], AhkAction::IfWinActive { else_actions: None, .. }));
            assert!(matches!(&v[1], AhkAction::Sleep(2)));
        },
        _ => panic!(),
    }
}

#[test]
fn else_on_its_own_line() {
    let cfg = parse_ahk_content("a::{\n  If WinActive(\"T\") {\n    Sleep 1\n  }\n  else {\n    Sleep 3\n  }\n}").unwrap();
    match &cfg.hotkeys[0].action {
        AhkAction::Block(v) => {
            assert_eq!(v.len(), 1);
            match &v[0] {
                AhkAction::IfWinActive { else_actions: Some(e), .. } => assert!(matches!(&e[0], AhkAction::Sleep(3))),
                _ => panic!(),
            }
        },
        _ => panic!(),
    }
}
