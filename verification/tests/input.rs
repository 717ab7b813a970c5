use daw_reaper::input::{
    action_command, decide_accel, is_text_field_class, matches_filter, numeric_action_id,
    should_eat, underscore_prefixed, vk_to_keycode, AccelDecision, AccelMessage, InputContext,
    InputState, KeyCode, KeyFilter, KeyModifiers, KeyMsgKind, KeyPattern,
};

fn mods(ctrl: bool, alt: bool, shift: bool) -> KeyModifiers {
    KeyModifiers { ctrl, alt, shift }
}

fn char_key(k: &Option<KeyCode>) -> Option<String> {
    match k {
        Some(KeyCode::Character(s)) => Some(s.clone()),
        _ => None,
    }
}

#[test]
fn virtual_keys_map_to_keys() {
    assert_eq!(char_key(&vk_to_keycode(0x41)), Some("a".to_string()));
    assert_eq!(char_key(&vk_to_keycode(0x5A)), Some("z".to_string()));
    assert_eq!(char_key(&vk_to_keycode(0x37)), Some("7".to_string()));
    assert_eq!(char_key(&vk_to_keycode(0x20)), Some(" ".to_string()));
    assert_eq!(char_key(&vk_to_keycode(0xDC)), Some("\\".to_string()));
    assert_eq!(char_key(&vk_to_keycode(0xDE)), Some("'".to_string()));
    assert!(matches!(vk_to_keycode(0x70), Some(KeyCode::F(1))));
    assert!(matches!(vk_to_keycode(0x87), Some(KeyCode::F(24))));
    assert!(matches!(vk_to_keycode(0x25), Some(KeyCode::ArrowLeft)));
    assert!(matches!(vk_to_keycode(0x2E), Some(KeyCode::Delete)));
    assert!(vk_to_keycode(0x10).is_none());
    assert!(vk_to_keycode(0x88).is_none());
}

fn pattern(key: KeyCode, m: KeyModifiers, exact: bool) -> KeyPattern {
    KeyPattern { key, modifiers: m, exact_modifiers: exact }
}

#[test]
fn pattern_matching_of_modifiers() {
    let a = KeyCode::Character("a".to_string());
    let exact = pattern(KeyCode::Character("a".to_string()), mods(true, false, false), true);
    let loose = pattern(KeyCode::Character("a".to_string()), mods(true, false, false), false);
    assert!(matches_filter(&exact, &a, &mods(true, false, false)));
    assert!(!matches_filter(&exact, &a, &mods(true, false, true)));
    assert!(matches_filter(&loose, &a, &mods(true, false, true)));
    assert!(!matches_filter(&loose, &a, &mods(false, false, true)));
    assert!(!matches_filter(&loose, &KeyCode::Character("b".to_string()), &mods(true, false, false)));
}

#[test]
fn filters() {
    let a = KeyCode::Character("a".to_string());
    assert!(!should_eat(&KeyFilter::PassAll, &a, &mods(false, false, false)));
    assert!(should_eat(&KeyFilter::EatAll, &a, &mods(false, false, false)));
    let f = KeyFilter::EatMatching {
        patterns: vec![pattern(KeyCode::Enter, mods(false, false, false), false), pattern(KeyCode::Character("a".to_string()), mods(false, true, false), true)],
    };
    assert!(should_eat(&f, &a, &mods(false, true, false)));
    assert!(!should_eat(&f, &a, &mods(false, false, false)));
    assert!(should_eat(&f, &KeyCode::Enter, &mods(true, true, true)));
}

#[test]
fn keyboard_hook_decisions() {
    let none = mods(false, false, false);
    let eat_all = KeyFilter::EatAll;
    assert!(matches!(decide_accel(false, AccelMessage::KeyDown, none, 0x41, false, &eat_all), AccelDecision::NotOurWindow));
    assert!(matches!(decide_accel(true, AccelMessage::Other, none, 0x41, false, &eat_all), AccelDecision::NotOurWindow));
    assert!(matches!(decide_accel(true, AccelMessage::KeyDown, none, 0x10, false, &eat_all), AccelDecision::NotOurWindow));
    assert!(matches!(decide_accel(true, AccelMessage::KeyDown, none, 0x41, true, &eat_all), AccelDecision::NotOurWindow));
    assert!(matches!(decide_accel(true, AccelMessage::KeyDown, none, 0x41, false, &KeyFilter::PassAll), AccelDecision::NotOurWindow));
    match decide_accel(true, AccelMessage::SysKeyUp, mods(false, true, false), 0x42, false, &eat_all) {
        AccelDecision::Eat(e) => {
            assert!(matches!(e.key, KeyCode::Character(ref s) if s == "b"));
            assert_eq!(e.modifiers, mods(false, true, false));
            assert_eq!(e.msg_kind, KeyMsgKind::SysKeyUp);
            assert_eq!(e.context, InputContext::Main);
            assert!(!e.is_text_focused);
        }
        AccelDecision::NotOurWindow => panic!("expected the key to be eaten"),
    }
}

#[test]
fn input_state_switches() {
    let mut st = InputState::new();
    assert!(!st.is_enabled());
    assert!(matches!(st.get_key_filter(), KeyFilter::PassAll));
    assert!(matches!(st.handle_accel(AccelMessage::KeyDown, mods(false, false, false), 0x41, false), AccelDecision::NotOurWindow));
    st.set_enabled(true);
    st.set_key_filter(KeyFilter::EatAll);
    assert!(st.is_enabled());
    assert!(matches!(st.get_key_filter(), KeyFilter::EatAll));
    assert!(matches!(st.handle_accel(AccelMessage::Char, mods(false, false, false), 0x41, false), AccelDecision::Eat(_)));
}

#[test]
fn text_field_classes() {
    assert!(is_text_field_class("Edit"));
    assert!(is_text_field_class("EDIT"));
    assert!(is_text_field_class("RichEdit20W"));
    assert!(is_text_field_class("richedit50w"));
    assert!(!is_text_field_class("richedit20w"));
    assert!(!is_text_field_class("Button"));
}

#[test]
fn action_ids() {
    assert_eq!(numeric_action_id("40001"), Some(40001));
    assert_eq!(numeric_action_id("+7"), Some(7));
    assert_eq!(numeric_action_id("_FTS_X"), None);
    assert_eq!(underscore_prefixed("FTS_X"), "_FTS_X");
    assert_eq!(action_command("40001", Some(5), Some(6)), Some(40001));
    assert_eq!(action_command("0", Some(5), None), None);
    assert_eq!(action_command("FTS_X", Some(5), Some(6)), Some(5));
    assert_eq!(action_command("FTS_X", None, Some(6)), Some(6));
    assert_eq!(action_command("FTS_X", None, None), None);
}
