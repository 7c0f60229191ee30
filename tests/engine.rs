use ahk_remap::action::{Action, KeyEvent, RawInputEvent, RelativeEvent};
use ahk_remap::config::{
    compile_ahk_config, get_file_ext, Config, ConfigFiletype, KeyPress, KeymapAction, KeymapEntry,
    Modifier, ModmapAction, Modmap, Remap,
};
use ahk_remap::event_handler::{Event, EventHandler, InputDeviceInfo};
use ahk_remap::keys::{
    KEY_A, KEY_B, KEY_BACKSPACE, KEY_CAPSLOCK, KEY_E, KEY_ESC, KEY_G, KEY_H, KEY_J, KEY_L,
    KEY_LEFTCTRL, KEY_LEFTSHIFT, KEY_M, KEY_O, KEY_SPACE, KEY_T, KEY_W, KEY_X,
};
use ahk_remap::multipurpose::{MultiPurposeKey, PRESS, RELEASE, REPEAT};
use ahk_remap::parser::parse_ahk_content;

fn dev() -> InputDeviceInfo {
    InputDeviceInfo { name: "kbd".to_string(), path: "/dev/input/event0".to_string() }
}

fn key(code: u16, value: i32) -> Event {
    Event::KeyEvent(dev(), KeyEvent { code, value })
}

fn compiled(src: &str) -> Config {
    compile_ahk_config(parse_ahk_content(src).unwrap())
}

fn type_keys(h: &mut EventHandler, cfg: &Config, keys: &[u16]) -> Vec<Action> {
    let mut out = vec![];
    for k in keys {
        out.extend(h.on_events(&vec![key(*k, PRESS)], cfg, 0));
        out.extend(h.on_events(&vec![key(*k, RELEASE)], cfg, 0));
    }
    out
}

fn key_pairs(actions: &[Action]) -> Vec<(u16, i32)> {
    actions
        .iter()
        .filter_map(|a| match a {
            Action::KeyEvent(e) => Some((e.code, e.value)),
            _ => None,
        })
        .collect()
}

#[test]
fn immediate_hotstring_expands_without_delimiter() {
    let cfg = compiled(":*:btw::by the way");
    let mut h = EventHandler::new("default", 0);
    let _ = type_keys(&mut h, &cfg, &[KEY_B, KEY_T]);
    let out = h.on_events(&vec![key(KEY_W, PRESS)], &cfg, 0);
    assert_eq!(out.len(), 7);
    for i in 0..3 {
        assert!(matches!(out[2 * i], Action::KeyEvent(KeyEvent { code: KEY_BACKSPACE, value: PRESS })));
        assert!(matches!(out[2 * i + 1], Action::KeyEvent(KeyEvent { code: KEY_BACKSPACE, value: RELEASE })));
    }
    match &out[6] {
        Action::TextExpansion { trigger_len, replacement, add_space } => {
            assert_eq!(*trigger_len, 3);
            assert_eq!(replacement, "by the way");
            assert!(!*add_space);
        },
        _ => panic!("expected a text expansion"),
    }
}

#[test]
fn word_hotstring_expands_on_delimiter() {
    let cfg = compiled("::omg::oh my god ");
    let mut h = EventHandler::new("default", 0);
    let typed = type_keys(&mut h, &cfg, &[KEY_O, KEY_M, KEY_G]);
    assert!(typed.iter().all(|a| !matches!(a, Action::TextExpansion { .. })));
    let out = h.on_events(&vec![key(KEY_SPACE, PRESS)], &cfg, 0);
    assert_eq!(key_pairs(&out).len(), 8);
    match out.last().unwrap() {
        Action::TextExpansion { trigger_len, replacement, add_space } => {
            assert_eq!(*trigger_len, 4);
            assert_eq!(replacement, "oh my god");
            assert!(*add_space);
        },
        _ => panic!("expected a text expansion"),
    }
}

#[test]
fn backspace_forgets_one_character() {
    let cfg = compiled(":*:btw::x");
    let mut h = EventHandler::new("default", 0);
    let _ = type_keys(&mut h, &cfg, &[KEY_B, KEY_T, KEY_X, KEY_BACKSPACE]);
    let out = h.on_events(&vec![key(KEY_W, PRESS)], &cfg, 0);
    assert!(matches!(out.last().unwrap(), Action::TextExpansion { .. }));
}

#[test]
fn hotkey_send_hello() {
    let cfg = compiled("^j::Send(\"Hello\")");
    let mut h = EventHandler::new("default", 0);
    let down = h.on_events(&vec![key(KEY_LEFTCTRL, PRESS)], &cfg, 0);
    assert_eq!(key_pairs(&down), vec![(KEY_LEFTCTRL, PRESS)]);
    let out = key_pairs(&h.on_events(&vec![key(KEY_J, PRESS)], &cfg, 0));
    assert_eq!(out.first(), Some(&(KEY_LEFTCTRL, RELEASE)));
    assert_eq!(out.last(), Some(&(KEY_LEFTCTRL, PRESS)));
    let body = &out[1..out.len() - 1];
    assert_eq!(
        body.to_vec(),
        vec![
            (KEY_LEFTSHIFT, PRESS), (KEY_H, PRESS), (KEY_H, RELEASE), (KEY_LEFTSHIFT, RELEASE),
            (KEY_E, PRESS), (KEY_E, RELEASE),
            (KEY_L, PRESS), (KEY_L, RELEASE),
            (KEY_L, PRESS), (KEY_L, RELEASE),
            (KEY_O, PRESS), (KEY_O, RELEASE),
        ]
    );
}

#[test]
fn hotkey_without_modifier_does_not_fire() {
    let cfg = compiled("^j::Send(\"Hello\")");
    let mut h = EventHandler::new("default", 0);
    let out = key_pairs(&h.on_events(&vec![key(KEY_J, PRESS)], &cfg, 0));
    assert_eq!(out, vec![(KEY_J, PRESS)]);
}

#[test]
fn capslock_is_a_virtual_modifier() {
    let cfg = compiled("CapsLock & j::Send(\"x\")");
    let mut h = EventHandler::new("default", 0);
    let down = h.on_events(&vec![key(KEY_CAPSLOCK, PRESS)], &cfg, 0);
    assert!(down.is_empty());
    let out = key_pairs(&h.on_events(&vec![key(KEY_J, PRESS)], &cfg, 0));
    assert!(out.contains(&(KEY_X, PRESS)));
}

fn override_config(timeout_key: Option<Vec<u16>>) -> Config {
    let mut cfg = Config::new();
    let layer = Remap {
        remap: vec![(KeyPress { key: KEY_B, modifiers: vec![] }, vec![KeymapAction::KeyPress(KEY_X)])],
        timeout_ms: Some(300),
        timeout_key,
    };
    cfg.keymap_table.push((
        KEY_A,
        vec![KeymapEntry {
            actions: vec![KeymapAction::Remap(layer)],
            modifiers: vec![],
            application: None,
            title: None,
            device: None,
            mode: None,
            exact_match: false,
        }],
    ));
    cfg
}

#[test]
fn override_timeout_taps_default_key_once() {
    let cfg = override_config(None);
    let mut h = EventHandler::new("default", 0);
    let out = h.on_events(&vec![key(KEY_A, PRESS)], &cfg, 1000);
    assert!(out.is_empty());
    assert_eq!(h.override_timer, Some(1300));
    let fired = key_pairs(&h.on_events(&vec![Event::OverrideTimeout], &cfg, 1300));
    assert_eq!(fired, vec![(KEY_A, PRESS), (KEY_A, RELEASE)]);
    assert_eq!(h.override_timer, None);
    let again = h.on_events(&vec![Event::OverrideTimeout], &cfg, 1400);
    assert!(again.is_empty());
}

#[test]
fn override_timeout_taps_configured_key() {
    let cfg = override_config(Some(vec![KEY_ESC]));
    let mut h = EventHandler::new("default", 0);
    let _ = h.on_events(&vec![key(KEY_A, PRESS)], &cfg, 0);
    let fired = key_pairs(&h.on_events(&vec![Event::OverrideTimeout], &cfg, 300));
    assert_eq!(fired, vec![(KEY_ESC, PRESS), (KEY_ESC, RELEASE)]);
}

#[test]
fn override_matching_key_resolves_layer() {
    let cfg = override_config(None);
    let mut h = EventHandler::new("default", 0);
    let _ = h.on_events(&vec![key(KEY_A, PRESS)], &cfg, 0);
    let out = key_pairs(&h.on_events(&vec![key(KEY_B, PRESS)], &cfg, 10));
    assert_eq!(out, vec![(KEY_X, PRESS)]);
    assert_eq!(h.override_timer, None);
}

fn mpk_config() -> Config {
    let mut cfg = Config::new();
    cfg.modmap.push(Modmap {
        name: String::new(),
        remap: vec![(
            KEY_CAPSLOCK,
            ModmapAction::MultiPurposeKey(MultiPurposeKey {
                held: vec![KEY_LEFTCTRL],
                alone: vec![KEY_ESC],
                alone_timeout_ms: 200,
                free_hold: false,
            }),
        )],
        application: None,
        window: None,
        device: None,
        mode: None,
    });
    cfg
}

#[test]
fn multi_purpose_tap_emits_alone_only() {
    let cfg = mpk_config();
    let mut h = EventHandler::new("default", 0);
    assert!(h.on_events(&vec![key(KEY_CAPSLOCK, PRESS)], &cfg, 0).is_empty());
    let out = key_pairs(&h.on_events(&vec![key(KEY_CAPSLOCK, RELEASE)], &cfg, 50));
    assert_eq!(out, vec![(KEY_ESC, PRESS), (KEY_ESC, RELEASE)]);
}

#[test]
fn multi_purpose_hold_emits_held_press_once() {
    let cfg = mpk_config();
    let mut h = EventHandler::new("default", 0);
    let mut all = vec![];
    all.extend(h.on_events(&vec![key(KEY_CAPSLOCK, PRESS)], &cfg, 0));
    all.extend(h.on_events(&vec![key(KEY_CAPSLOCK, REPEAT)], &cfg, 100));
    all.extend(h.on_events(&vec![key(KEY_CAPSLOCK, REPEAT)], &cfg, 250));
    all.extend(h.on_events(&vec![key(KEY_CAPSLOCK, REPEAT)], &cfg, 280));
    all.extend(h.on_events(&vec![key(KEY_CAPSLOCK, RELEASE)], &cfg, 400));
    assert_eq!(
        key_pairs(&all),
        vec![(KEY_LEFTCTRL, PRESS), (KEY_LEFTCTRL, REPEAT), (KEY_LEFTCTRL, RELEASE)]
    );
}

#[test]
fn multi_purpose_flushes_on_other_key() {
    let cfg = mpk_config();
    let mut h = EventHandler::new("default", 0);
    let _ = h.on_events(&vec![key(KEY_CAPSLOCK, PRESS)], &cfg, 0);
    let out = key_pairs(&h.on_events(&vec![key(KEY_A, PRESS)], &cfg, 20));
    assert_eq!(out, vec![(KEY_LEFTCTRL, PRESS), (KEY_A, PRESS)]);
}

#[test]
fn context_scoped_hotkey_needs_window() {
    let cfg = compiled("#HotIf WinActive(\"ahk_exe kate\")\nF1::Send(\"a\")\n#HotIf\n");
    let mut h = EventHandler::new("default", 0);
    h.set_window(None, Some("dolphin".to_string()));
    let miss = key_pairs(&h.on_events(&vec![key(59, PRESS)], &cfg, 0));
    assert_eq!(miss, vec![(59, PRESS)]);
    h.set_window(None, Some("kate".to_string()));
    let hit = key_pairs(&h.on_events(&vec![key(59, PRESS)], &cfg, 0));
    assert_eq!(hit, vec![(KEY_A, PRESS), (KEY_A, RELEASE)]);
}

#[test]
fn other_events_pass_through() {
    let cfg = Config::new();
    let mut h = EventHandler::new("default", 0);
    let raw = RawInputEvent { event_type: 4, code: 4, value: 7 };
    let out = h.on_events(&vec![Event::OtherEvents(raw)], &cfg, 0);
    assert!(matches!(out[0], Action::InputEvent(RawInputEvent { event_type: 4, code: 4, value: 7 })));
}

#[test]
fn file_types_by_extension() {
    assert!(get_file_ext("a.toml") == ConfigFiletype::Toml);
    assert!(get_file_ext("dir/a.AHK") == ConfigFiletype::Ahk);
    assert!(get_file_ext("a.yml") == ConfigFiletype::Yaml);
    assert!(get_file_ext("noext") == ConfigFiletype::Yaml);
    assert!(get_file_ext(".ahk") == ConfigFiletype::Yaml);
}

#[test]
fn modifier_keys_are_tracked() {
    let _ = Modifier::Control;
    let cfg = Config::new();
    let mut h = EventHandler::new("default", 0);
    let _ = h.on_events(&vec![key(KEY_LEFTCTRL, PRESS)], &cfg, 0);
    assert_eq!(h.modifiers, vec![KEY_LEFTCTRL]);
    let _ = h.on_events(&vec![key(KEY_LEFTCTRL, RELEASE)], &cfg, 0);
    assert!(h.modifiers.is_empty());
}

#[test]
fn relative_events_are_forwarded_without_pseudo_keys() {
    let cfg = Config::new();
    let mut h = EventHandler::new("default", 0);
    let out = h.on_events(
        &vec![
            Event::RelativeEvent(dev(), RelativeEvent { code: 0, value: 5 }),
            Event::RelativeEvent(dev(), RelativeEvent { code: 8, value: -1 }),
        ],
        &cfg,
        0,
    );
    assert_eq!(out.len(), 2);
    assert!(matches!(out[0], Action::RelativeEvent(RelativeEvent { code: 8, value: -1 })));
    match &out[1] {
        Action::MouseMovementEventCollection(v) => {
            assert_eq!(v.len(), 1);
            assert_eq!(v[0].code, 0);
            assert_eq!(v[0].value, 5);
        },
        _ => panic!("expected a motion batch"),
    }
}

#[test]
fn escape_next_key_skips_one_lookup() {
    let mut cfg = Config::new();
    cfg.keymap_table.push((
        KEY_A,
        vec![KeymapEntry {
            actions: vec![KeymapAction::EscapeNextKey(true)],
            modifiers: vec![],
            application: None,
            title: None,
            device: None,
            mode: None,
            exact_match: false,
        }],
    ));
    cfg.keymap_table.push((
        KEY_B,
        vec![KeymapEntry {
            actions: vec![KeymapAction::KeyPress(KEY_X)],
            modifiers: vec![],
            application: None,
            title: None,
            device: None,
            mode: None,
            exact_match: false,
        }],
    ));
    let mut h = EventHandler::new("default", 0);
    assert!(h.on_events(&vec![key(KEY_A, PRESS)], &cfg, 0).is_empty());
    let out = key_pairs(&h.on_events(&vec![key(KEY_B, PRESS)], &cfg, 0));
    assert_eq!(out, vec![(KEY_B, PRESS)]);
    let out = key_pairs(&h.on_events(&vec![key(KEY_B, PRESS)], &cfg, 0));
    assert_eq!(out, vec![(KEY_X, PRESS)]);
}

#[test]
fn table_keeps_declaration_order_per_key() {
    let cfg = compiled("#HotIf WinActive(\"Title A\")\nF1::Sleep 1\n#HotIf\nF1::Sleep 2\nF2::Sleep 3\n");
    assert_eq!(cfg.keymap_table.len(), 2);
    let (k, entries) = &cfg.keymap_table[0];
    assert_eq!(*k, 59);
    assert_eq!(entries.len(), 2);
    assert!(entries[0].title.is_some());
    assert!(entries[0].exact_match);
    assert!(entries[1].title.is_none());
    assert!(matches!(entries[1].actions[0], KeymapAction::Sleep(2)));
}

#[test]
fn title_scoped_entry_wins_in_its_window() {
    let cfg = compiled("F1::Send \"b\"\n#HotIf WinActive(\"Editor\")\nF1::Send \"a\"\n");
    let mut h = EventHandler::new("default", 0);
    h.set_window(Some("Editor".to_string()), None);
    let hit = key_pairs(&h.on_events(&vec![key(59, PRESS)], &cfg, 0));
    assert_eq!(hit, vec![(KEY_A, PRESS), (KEY_A, RELEASE)]);
    h.set_window(Some("Other".to_string()), None);
    let other = key_pairs(&h.on_events(&vec![key(59, PRESS)], &cfg, 0));
    assert_eq!(other, vec![(KEY_B, PRESS), (KEY_B, RELEASE)]);
}

#[test]
fn outright_action_beats_earlier_remap() {
    let mut cfg = Config::new();
    let layer = Remap {
        remap: vec![(KeyPress { key: KEY_B, modifiers: vec![] }, vec![KeymapAction::KeyPress(KEY_X)])],
        timeout_ms: None,
        timeout_key: None,
    };
    let entry = |actions: Vec<KeymapAction>| KeymapEntry {
        actions,
        modifiers: vec![],
        application: None,
        title: None,
        device: None,
        mode: None,
        exact_match: false,
    };
    cfg.keymap_table.push((
        KEY_A,
        vec![entry(vec![KeymapAction::Remap(layer)]), entry(vec![KeymapAction::KeyPress(KEY_ESC)])],
    ));
    let mut h = EventHandler::new("default", 0);
    let out = key_pairs(&h.on_events(&vec![key(KEY_A, PRESS)], &cfg, 0));
    assert_eq!(out, vec![(KEY_ESC, PRESS)]);
    assert!(h.override_remaps.is_empty());
}

#[test]
fn unclaiming_stack_taps_timeout_key() {
    let mut cfg = Config::new();
    let layer = Remap {
        remap: vec![(KeyPress { key: KEY_B, modifiers: vec![Modifier::Control] }, vec![KeymapAction::KeyPress(KEY_X)])],
        timeout_ms: Some(300),
        timeout_key: None,
    };
    cfg.keymap_table.push((
        KEY_A,
        vec![KeymapEntry {
            actions: vec![KeymapAction::Remap(layer)],
            modifiers: vec![],
            application: None,
            title: None,
            device: None,
            mode: None,
            exact_match: false,
        }],
    ));
    let mut h = EventHandler::new("default", 0);
    let _ = h.on_events(&vec![key(KEY_A, PRESS)], &cfg, 0);
    let out = key_pairs(&h.on_events(&vec![key(KEY_B, PRESS)], &cfg, 10));
    assert_eq!(out, vec![(KEY_A, PRESS), (KEY_A, RELEASE), (KEY_B, PRESS)]);
    assert_eq!(h.override_timer, None);
}

#[test]
fn modifier_press_resets_matcher() {
    let cfg = compiled(":*:btw::x");
    let mut h = EventHandler::new("default", 0);
    let _ = type_keys(&mut h, &cfg, &[KEY_B, KEY_T]);
    assert_eq!(h.hotstring_state.buffer.len(), 2);
    let _ = h.on_events(&vec![key(KEY_LEFTSHIFT, PRESS)], &cfg, 0);
    assert!(h.hotstring_state.buffer.is_empty());
    let _ = h.on_events(&vec![key(KEY_LEFTSHIFT, RELEASE)], &cfg, 0);
    let out = h.on_events(&vec![key(KEY_W, PRESS)], &cfg, 0);
    assert!(out.iter().all(|a| !matches!(a, Action::TextExpansion { .. })));
}

#[test]
fn executing_hotstring_with_single_quoted_url() {
    let cfg = compiled(":*X:gg::Run('https://example.com')");
    let mut h = EventHandler::new("default", 0);
    let _ = type_keys(&mut h, &cfg, &[KEY_G]);
    let out = h.on_events(&vec![key(KEY_G, PRESS)], &cfg, 0);
    match out.last().unwrap() {
        Action::Command(c) => assert_eq!(c, &vec!["xdg-open".to_string(), "https://example.com".to_string()]),
        _ => panic!("expected a command"),
    }
    assert_eq!(key_pairs(&out).len(), 4);
}
