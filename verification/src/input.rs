//! Keyboard input interception: which virtual-key codes name which keys,
//! which key events the current filter eats, what the keyboard hook
//! answers the host, which focused window classes are text fields, and
//! which command an action id names.
use vstd::prelude::*;

use crate::text::{
    ascii_lower_seq, chars_of, eq_ignore_ascii_case, has_prefix, parse_u32, parse_u32_spec,
    starts_with_chars, string_of,
};

verus! {

/// A platform-independent key.
pub enum KeyCode {
    /// A key that types this text (lower case for letters).
    Character(String),
    /// Function key F1..F24.
    F(u8),
    ArrowLeft,
    ArrowUp,
    ArrowRight,
    ArrowDown,
    Home,
    End,
    PageUp,
    PageDown,
    Insert,
    Enter,
    Escape,
    Tab,
    Backspace,
    Delete,
}

/// A key as a value: its text for a character key.
pub enum KeyName {
    Character(Seq<char>),
    F(u8),
    ArrowLeft,
    ArrowUp,
    ArrowRight,
    ArrowDown,
    Home,
    End,
    PageUp,
    PageDown,
    Insert,
    Enter,
    Escape,
    Tab,
    Backspace,
    Delete,
}

impl View for KeyCode {
    type V = KeyName;

    open spec fn view(&self) -> KeyName {
        match self {
            KeyCode::Character(s) => KeyName::Character(s@),
            KeyCode::F(n) => KeyName::F(*n),
            KeyCode::ArrowLeft => KeyName::ArrowLeft,
            KeyCode::ArrowUp => KeyName::ArrowUp,
            KeyCode::ArrowRight => KeyName::ArrowRight,
            KeyCode::ArrowDown => KeyName::ArrowDown,
            KeyCode::Home => KeyName::Home,
            KeyCode::End => KeyName::End,
            KeyCode::PageUp => KeyName::PageUp,
            KeyCode::PageDown => KeyName::PageDown,
            KeyCode::Insert => KeyName::Insert,
            KeyCode::Enter => KeyName::Enter,
            KeyCode::Escape => KeyName::Escape,
            KeyCode::Tab => KeyName::Tab,
            KeyCode::Backspace => KeyName::Backspace,
            KeyCode::Delete => KeyName::Delete,
        }
    }
}

/// The text a punctuation or space key types, by virtual-key code.
pub open spec fn punctuation_char(vk: u32) -> Option<char> {
    if vk == 0x20 { Some(' ') }
    else if vk == 0xBA { Some(';') }
    else if vk == 0xBB { Some('=') }
    else if vk == 0xBC { Some(',') }
    else if vk == 0xBD { Some('-') }
    else if vk == 0xBE { Some('.') }
    else if vk == 0xBF { Some('/') }
    else if vk == 0xC0 { Some('`') }
    else if vk == 0xDB { Some('[') }
    else if vk == 0xDC { Some('\\') }
    else if vk == 0xDD { Some(']') }
    else if vk == 0xDE { Some('\'') }
    else { None }
}

/// The key that a Windows/SWELL virtual-key code names, if it is one this
/// service handles: letters (as lower-case text), digits, F1..F24,
/// navigation and editing keys, space and the common punctuation keys.
pub open spec fn vk_key(vk: u32) -> Option<KeyName> {
    if 0x41 <= vk <= 0x5A {
        Some(KeyName::Character(seq![((vk + 32) as u32) as char]))
    } else if 0x30 <= vk <= 0x39 {
        Some(KeyName::Character(seq![vk as char]))
    } else if 0x70 <= vk <= 0x87 {
        Some(KeyName::F((vk - 0x70 + 1) as u8))
    } else if vk == 0x25 { Some(KeyName::ArrowLeft) }
    else if vk == 0x26 { Some(KeyName::ArrowUp) }
    else if vk == 0x27 { Some(KeyName::ArrowRight) }
    else if vk == 0x28 { Some(KeyName::ArrowDown) }
    else if vk == 0x24 { Some(KeyName::Home) }
    else if vk == 0x23 { Some(KeyName::End) }
    else if vk == 0x21 { Some(KeyName::PageUp) }
    else if vk == 0x22 { Some(KeyName::PageDown) }
    else if vk == 0x2D { Some(KeyName::Insert) }
    else if vk == 0x0D { Some(KeyName::Enter) }
    else if vk == 0x1B { Some(KeyName::Escape) }
    else if vk == 0x09 { Some(KeyName::Tab) }
    else if vk == 0x08 { Some(KeyName::Backspace) }
    else if vk == 0x2E { Some(KeyName::Delete) }
    else {
        match punctuation_char(vk) {
            Some(c) => Some(KeyName::Character(seq![c])),
            None => None,
        }
    }
}

fn one_char_string(c: char) -> (r: String)
    ensures
        r@ == seq![c],
{
    let v: Vec<char> = vec![c];
    string_of(&v)
}

fn punctuation(vk: u32) -> (r: Option<char>)
    ensures
        r == punctuation_char(vk),
{
    match vk {
        0x20 => Some(' '),
        0xBA => Some(';'),
        0xBB => Some('='),
        0xBC => Some(','),
        0xBD => Some('-'),
        0xBE => Some('.'),
        0xBF => Some('/'),
        0xC0 => Some('`'),
        0xDB => Some('['),
        0xDC => Some('\\'),
        0xDD => Some(']'),
        0xDE => Some('\''),
        _ => None,
    }
}

/// Convert a Windows/SWELL virtual-key code to a platform-independent key.
pub fn vk_to_keycode(vk: u32) -> (r: Option<KeyCode>)
    ensures
        match r {
            Some(k) => vk_key(vk) == Some(k@),
            None => vk_key(vk) is None,
        },
{
    if 0x41 <= vk && vk <= 0x5A {
        let c = crate::text::char_from_ascii(vk + 32);
        return Some(KeyCode::Character(one_char_string(c)));
    }
    if 0x30 <= vk && vk <= 0x39 {
        let c = crate::text::char_from_ascii(vk);
        return Some(KeyCode::Character(one_char_string(c)));
    }
    if 0x70 <= vk && vk <= 0x87 {
        return Some(KeyCode::F((vk - 0x70 + 1) as u8));
    }
    match vk {
        0x25 => Some(KeyCode::ArrowLeft),
        0x26 => Some(KeyCode::ArrowUp),
        0x27 => Some(KeyCode::ArrowRight),
        0x28 => Some(KeyCode::ArrowDown),
        0x24 => Some(KeyCode::Home),
        0x23 => Some(KeyCode::End),
        0x21 => Some(KeyCode::PageUp),
        0x22 => Some(KeyCode::PageDown),
        0x2D => Some(KeyCode::Insert),
        0x0D => Some(KeyCode::Enter),
        0x1B => Some(KeyCode::Escape),
        0x09 => Some(KeyCode::Tab),
        0x08 => Some(KeyCode::Backspace),
        0x2E => Some(KeyCode::Delete),
        _ => match punctuation(vk) {
            Some(c) => Some(KeyCode::Character(one_char_string(c))),
            None => None,
        },
    }
}

/// The Windows virtual-key table: each navigation and editing key has
/// exactly one code (the arrows 0x25 to 0x28 are Left, Up, Right, Down;
/// Home 0x24, End 0x23, Page Up 0x21, Page Down 0x22, Insert 0x2D, Enter
/// 0x0D, Escape 0x1B, Tab 0x09, Backspace 0x08, Delete 0x2E); F1 to F24
/// are 0x70 to 0x87; a letter key is named by its lower-case letter, whose
/// upper-case ASCII code is the key's code; a digit key by its digit, whose
/// ASCII code is the key's code.
pub proof fn lemma_vk_table(vk: u32, c: char, k: u8)
    ensures
        vk_key(vk) == Some(KeyName::ArrowLeft) <==> vk == 0x25,
        vk_key(vk) == Some(KeyName::ArrowUp) <==> vk == 0x26,
        vk_key(vk) == Some(KeyName::ArrowRight) <==> vk == 0x27,
        vk_key(vk) == Some(KeyName::ArrowDown) <==> vk == 0x28,
        vk_key(vk) == Some(KeyName::Home) <==> vk == 0x24,
        vk_key(vk) == Some(KeyName::End) <==> vk == 0x23,
        vk_key(vk) == Some(KeyName::PageUp) <==> vk == 0x21,
        vk_key(vk) == Some(KeyName::PageDown) <==> vk == 0x22,
        vk_key(vk) == Some(KeyName::Insert) <==> vk == 0x2D,
        vk_key(vk) == Some(KeyName::Enter) <==> vk == 0x0D,
        vk_key(vk) == Some(KeyName::Escape) <==> vk == 0x1B,
        vk_key(vk) == Some(KeyName::Tab) <==> vk == 0x09,
        vk_key(vk) == Some(KeyName::Backspace) <==> vk == 0x08,
        vk_key(vk) == Some(KeyName::Delete) <==> vk == 0x2E,
        1 <= k <= 24 ==> (vk_key(vk) == Some(KeyName::F(k)) <==> vk == 0x6F + k),
        'a' <= c <= 'z' ==> (vk_key(vk) == Some(KeyName::Character(seq![c])) <==> vk == (c as u32) - 32),
        '0' <= c <= '9' ==> (vk_key(vk) == Some(KeyName::Character(seq![c])) <==> vk == c as u32),
{
    if 0x41 <= vk <= 0x5A {
        let x = ((vk + 32) as u32) as char;
        assert(seq![x][0] == x);
        assert(seq![c][0] == c);
        if vk_key(vk) == Some(KeyName::Character(seq![c])) {
            assert(seq![x] == seq![c]);
            assert(x == c);
        }
    } else if 0x30 <= vk <= 0x39 {
        let x = vk as char;
        assert(seq![x][0] == x);
        assert(seq![c][0] == c);
        if vk_key(vk) == Some(KeyName::Character(seq![c])) {
            assert(seq![x] == seq![c]);
        }
    } else if !(0x70 <= vk <= 0x87) {
        if let Some(p) = punctuation_char(vk) {
            assert(seq![p][0] == p);
            assert(seq![c][0] == c);
            if vk_key(vk) == Some(KeyName::Character(seq![c])) {
                assert(seq![p] == seq![c]);
            }
        }
    }
}

/// Whether two keys are the same key.
pub fn key_eq(a: &KeyCode, b: &KeyCode) -> (r: bool)
    ensures
        r == (a@ == b@),
{
    match (a, b) {
        (KeyCode::Character(x), KeyCode::Character(y)) => crate::strmap::str_eq(x.as_str(), y.as_str()),
        (KeyCode::F(x), KeyCode::F(y)) => *x == *y,
        (KeyCode::ArrowLeft, KeyCode::ArrowLeft) => true,
        (KeyCode::ArrowUp, KeyCode::ArrowUp) => true,
        (KeyCode::ArrowRight, KeyCode::ArrowRight) => true,
        (KeyCode::ArrowDown, KeyCode::ArrowDown) => true,
        (KeyCode::Home, KeyCode::Home) => true,
        (KeyCode::End, KeyCode::End) => true,
        (KeyCode::PageUp, KeyCode::PageUp) => true,
        (KeyCode::PageDown, KeyCode::PageDown) => true,
        (KeyCode::Insert, KeyCode::Insert) => true,
        (KeyCode::Enter, KeyCode::Enter) => true,
        (KeyCode::Escape, KeyCode::Escape) => true,
        (KeyCode::Tab, KeyCode::Tab) => true,
        (KeyCode::Backspace, KeyCode::Backspace) => true,
        (KeyCode::Delete, KeyCode::Delete) => true,
        _ => false,
    }
}

/// The modifier keys held with a key.
#[derive(PartialEq, Eq, Structural, Clone, Copy, Debug)]
pub struct KeyModifiers {
    pub ctrl: bool,
    pub alt: bool,
    pub shift: bool,
}

/// A key combination that the filter eats: the key, the modifiers, and
/// whether the modifiers must be exactly these (else at least these).
pub struct KeyPattern {
    pub key: KeyCode,
    pub modifiers: KeyModifiers,
    pub exact_modifiers: bool,
}

/// Whether a key event matches a pattern: the same key, and the pattern's
/// modifiers exactly (exact pattern) or at least them (extra modifiers allowed).
pub open spec fn matches_spec(pattern: KeyPattern, key: KeyName, m: KeyModifiers) -> bool {
    &&& pattern.key@ == key
    &&& if pattern.exact_modifiers {
        pattern.modifiers == m
    } else {
        (pattern.modifiers.ctrl ==> m.ctrl) && (pattern.modifiers.alt ==> m.alt) && (pattern.modifiers.shift ==> m.shift)
    }
}

/// Whether a key event matches a pattern.
pub fn matches_filter(pattern: &KeyPattern, key: &KeyCode, modifiers: &KeyModifiers) -> (r: bool)
    ensures
        r == matches_spec(*pattern, key@, *modifiers),
{
    if !key_eq(&pattern.key, key) {
        return false;
    }
    if pattern.exact_modifiers {
        pattern.modifiers.ctrl == modifiers.ctrl && pattern.modifiers.alt == modifiers.alt
            && pattern.modifiers.shift == modifiers.shift
    } else {
        (!pattern.modifiers.ctrl || modifiers.ctrl) && (!pattern.modifiers.alt || modifiers.alt)
            && (!pattern.modifiers.shift || modifiers.shift)
    }
}

/// A key event matches a pattern exactly when it is the pattern's key and
/// its modifiers fit: for an exact pattern each of Ctrl, Alt and Shift is
/// held if and only if the pattern has it (so a Ctrl pattern never matches
/// a key pressed without Ctrl, nor a plain pattern one pressed with Ctrl);
/// otherwise every modifier the pattern has is held, and others may be.
pub proof fn lemma_pattern_match_modifiers(pattern: KeyPattern, key: KeyName, m: KeyModifiers)
    ensures
        matches_spec(pattern, key, m) ==> pattern.key@ == key,
        pattern.exact_modifiers ==> (matches_spec(pattern, key, m) <==> (pattern.key@ == key
            && m.ctrl == pattern.modifiers.ctrl && m.alt == pattern.modifiers.alt
            && m.shift == pattern.modifiers.shift)),
        !pattern.exact_modifiers ==> (matches_spec(pattern, key, m) <==> (pattern.key@ == key
            && (pattern.modifiers.ctrl ==> m.ctrl) && (pattern.modifiers.alt ==> m.alt)
            && (pattern.modifiers.shift ==> m.shift))),
{
}

/// Which key events the hook eats.
pub enum KeyFilter {
    /// None: every key goes to the host.
    PassAll,
    /// All of them.
    EatAll,
    /// Those that match one of the patterns.
    EatMatching { patterns: Vec<KeyPattern> },
}

/// Whether the filter eats a key event.
pub open spec fn eats_spec(filter: KeyFilter, key: KeyName, m: KeyModifiers) -> bool {
    match filter {
        KeyFilter::PassAll => false,
        KeyFilter::EatAll => true,
        KeyFilter::EatMatching { patterns } => exists|i: int|
            0 <= i < patterns@.len() && matches_spec(#[trigger] patterns@[i], key, m),
    }
}

/// Whether the filter eats a key event.
pub fn should_eat(filter: &KeyFilter, key: &KeyCode, modifiers: &KeyModifiers) -> (r: bool)
    ensures
        r == eats_spec(*filter, key@, *modifiers),
{
    match filter {
        KeyFilter::PassAll => false,
        KeyFilter::EatAll => true,
        KeyFilter::EatMatching { patterns } => {
            let mut i: usize = 0;
            while i < patterns.len()
                invariant
                    i <= patterns@.len(),
                    filter is EatMatching,
                    filter->patterns == *patterns,
                    forall|j: int| 0 <= j < i ==> !matches_spec(#[trigger] patterns@[j], key@, *modifiers),
                decreases patterns@.len() - i,
            {
                if matches_filter(&patterns[i], key, modifiers) {
                    assert(matches_spec(patterns@[i as int], key@, *modifiers));
                    assert(exists|k: int| 0 <= k < patterns@.len() && matches_spec(#[trigger] patterns@[k], key@, *modifiers));
                    return true;
                }
                i = i + 1;
            }
            false
        },
    }
}

/// The kind of a keyboard message the host hands the hook.
#[derive(PartialEq, Eq, Structural, Clone, Copy, Debug)]
pub enum AccelMessage {
    KeyDown,
    KeyUp,
    SysKeyDown,
    SysKeyUp,
    Char,
    /// Any other message.
    Other,
}

/// The kind of a key message reported to subscribers.
#[derive(PartialEq, Eq, Structural, Clone, Copy, Debug)]
pub enum KeyMsgKind {
    KeyDown,
    KeyUp,
    SysKeyDown,
    SysKeyUp,
    Char,
}

/// Where the key was typed.
#[derive(PartialEq, Eq, Structural, Clone, Copy, Debug)]
pub enum InputContext {
    Main,
}

/// A key event reported to subscribers.
pub struct KeyEvent {
    pub key: KeyCode,
    pub modifiers: KeyModifiers,
    pub msg_kind: KeyMsgKind,
    pub context: InputContext,
    pub is_text_focused: bool,
}

/// What the keyboard hook answers the host.
pub enum AccelDecision {
    /// Leave the key to the host.
    NotOurWindow,
    /// Eat the key, and report this event to subscribers.
    Eat(KeyEvent),
}

/// The reported kind of a keyboard message, for the kinds the hook handles.
pub open spec fn msg_kind_spec(m: AccelMessage) -> Option<KeyMsgKind> {
    match m {
        AccelMessage::KeyDown => Some(KeyMsgKind::KeyDown),
        AccelMessage::KeyUp => Some(KeyMsgKind::KeyUp),
        AccelMessage::SysKeyDown => Some(KeyMsgKind::SysKeyDown),
        AccelMessage::SysKeyUp => Some(KeyMsgKind::SysKeyUp),
        AccelMessage::Char => Some(KeyMsgKind::Char),
        AccelMessage::Other => None,
    }
}

/// Whether the hook eats a keyboard message: interception is enabled, the
/// message is a key message, the key is one this service handles, no text
/// field has focus, and the filter eats the key with these modifiers.
pub open spec fn eaten_spec(
    enabled: bool,
    msg: AccelMessage,
    modifiers: KeyModifiers,
    vk: u32,
    text_focused: bool,
    filter: &KeyFilter,
) -> bool {
    &&& enabled
    &&& msg_kind_spec(msg) is Some
    &&& vk_key(vk) is Some
    &&& !text_focused
    &&& eats_spec(*filter, vk_key(vk)->0, modifiers)
}

/// The keyboard hook: decide whether to eat a keyboard message. When it is
/// eaten, the event reports the key, its modifiers, the message kind and
/// the main context.
pub fn decide_accel(
    enabled: bool,
    msg: AccelMessage,
    modifiers: KeyModifiers,
    vk: u32,
    text_focused: bool,
    filter: &KeyFilter,
) -> (r: AccelDecision)
    ensures
        match r {
            AccelDecision::NotOurWindow => !eaten_spec(enabled, msg, modifiers, vk, text_focused, filter),
            AccelDecision::Eat(e) => {
                &&& eaten_spec(enabled, msg, modifiers, vk, text_focused, filter)
                &&& Some(e.key@) == vk_key(vk)
                &&& e.modifiers == modifiers
                &&& Some(e.msg_kind) == msg_kind_spec(msg)
                &&& e.context == InputContext::Main
                &&& !e.is_text_focused
            },
        },
{
    if !enabled {
        return AccelDecision::NotOurWindow;
    }
    let msg_kind = match msg {
        AccelMessage::KeyDown => KeyMsgKind::KeyDown,
        AccelMessage::KeyUp => KeyMsgKind::KeyUp,
        AccelMessage::SysKeyDown => KeyMsgKind::SysKeyDown,
        AccelMessage::SysKeyUp => KeyMsgKind::SysKeyUp,
        AccelMessage::Char => KeyMsgKind::Char,
        AccelMessage::Other => {
            return AccelDecision::NotOurWindow;
        },
    };
    let key = match vk_to_keycode(vk) {
        Some(k) => k,
        None => {
            return AccelDecision::NotOurWindow;
        },
    };
    if text_focused {
        return AccelDecision::NotOurWindow;
    }
    if !should_eat(filter, &key, &modifiers) {
        return AccelDecision::NotOurWindow;
    }
    AccelDecision::Eat(
        KeyEvent { key, modifiers, msg_kind, context: InputContext::Main, is_text_focused: text_focused },
    )
}

/// The interception state shared by the service and the keyboard hook:
/// the master switch (off at first) and the key filter (pass all at first).
pub struct InputState {
    enabled: bool,
    filter: KeyFilter,
}

impl InputState {
    /// Whether interception is on.
    pub closed spec fn enabled(&self) -> bool {
        self.enabled
    }

    /// The key filter.
    pub closed spec fn filter(&self) -> &KeyFilter {
        &self.filter
    }

    /// Interception off, passing every key.
    pub fn new() -> (r: Self)
        ensures
            !r.enabled(),
            r.filter() matches KeyFilter::PassAll,
    {
        InputState { enabled: false, filter: KeyFilter::PassAll }
    }

    /// Turn interception on or off.
    pub fn set_enabled(&mut self, enabled: bool)
        ensures
            final(self).enabled() == enabled,
            final(self).filter() == old(self).filter(),
    {
        self.enabled = enabled;
    }

    /// Whether interception is on.
    pub fn is_enabled(&self) -> (r: bool)
        ensures
            r == self.enabled(),
    {
        self.enabled
    }

    /// Replace the key filter.
    pub fn set_key_filter(&mut self, filter: KeyFilter)
        ensures
            final(self).filter() == &filter,
            final(self).enabled() == old(self).enabled(),
    {
        self.filter = filter;
    }

    /// The key filter.
    pub fn get_key_filter(&self) -> (r: &KeyFilter)
        ensures
            r == self.filter(),
    {
        &self.filter
    }

    /// The keyboard hook against this state.
    pub fn handle_accel(&self, msg: AccelMessage, modifiers: KeyModifiers, vk: u32, text_focused: bool) -> (r: AccelDecision)
        ensures
            (r is Eat) == eaten_spec(self.enabled(), msg, modifiers, vk, text_focused, self.filter()),
            r matches AccelDecision::Eat(e) ==> Some(e.key@) == vk_key(vk) && e.modifiers == modifiers
                && Some(e.msg_kind) == msg_kind_spec(msg),
    {
        decide_accel(self.enabled, msg, modifiers, vk, text_focused, &self.filter)
    }
}

/// With interception off, or a text field focused, or a pass-all filter,
/// the hook eats nothing; with an eat-all filter it eats every key message
/// of a handled key while on and no text field is focused.
pub proof fn lemma_accel_passes(
    enabled: bool,
    msg: AccelMessage,
    modifiers: KeyModifiers,
    vk: u32,
    text_focused: bool,
    filter: &KeyFilter,
)
    ensures
        !enabled ==> !eaten_spec(enabled, msg, modifiers, vk, text_focused, filter),
        text_focused ==> !eaten_spec(enabled, msg, modifiers, vk, text_focused, filter),
        filter is PassAll ==> !eaten_spec(enabled, msg, modifiers, vk, text_focused, filter),
        filter is EatAll && enabled && !text_focused && msg_kind_spec(msg) is Some && vk_key(vk) is Some
            ==> eaten_spec(enabled, msg, modifiers, vk, text_focused, filter),
{
}

// ---------------------------------------------------------------------------
// Focused text fields
// ---------------------------------------------------------------------------

/// Whether a window class is a text field: `Edit` or `RICHEDIT50W` in any
/// ASCII case, or a class starting with `RichEdit`.
pub open spec fn is_text_class_spec(name: Seq<char>) -> bool {
    ||| ascii_lower_seq(name) == ascii_lower_seq(seq!['E', 'd', 'i', 't'])
    ||| has_prefix(name, seq!['R', 'i', 'c', 'h', 'E', 'd', 'i', 't'])
    ||| ascii_lower_seq(name) == ascii_lower_seq(
        seq!['R', 'I', 'C', 'H', 'E', 'D', 'I', 'T', '5', '0', 'W'],
    )
}

/// Whether the focused window, of this class, is a text field.
pub fn is_text_field_class(class_name: &str) -> (r: bool)
    ensures
        r == is_text_class_spec(class_name@),
{
    let name = chars_of(class_name);
    let edit: Vec<char> = vec!['E', 'd', 'i', 't'];
    let rich: Vec<char> = vec!['R', 'i', 'c', 'h', 'E', 'd', 'i', 't'];
    let rich50: Vec<char> = vec!['R', 'I', 'C', 'H', 'E', 'D', 'I', 'T', '5', '0', 'W'];
    assert(edit@ =~= seq!['E', 'd', 'i', 't']);
    assert(rich@ =~= seq!['R', 'i', 'c', 'h', 'E', 'd', 'i', 't']);
    assert(rich50@ =~= seq!['R', 'I', 'C', 'H', 'E', 'D', 'I', 'T', '5', '0', 'W']);
    eq_ignore_ascii_case(&name, &edit) || starts_with_chars(&name, &rich) || eq_ignore_ascii_case(
        &name,
        &rich50,
    )
}

// ---------------------------------------------------------------------------
// Actions by id
// ---------------------------------------------------------------------------

/// `_` followed by an action id: the form of a named command as the host
/// looks it up by convention.
pub fn underscore_prefixed(action_id: &str) -> (r: String)
    ensures
        r@ == seq!['_'] + action_id@,
{
    let mut v: Vec<char> = vec!['_'];
    crate::text::append_chars(&mut v, &chars_of(action_id));
    assert(v@ =~= seq!['_'] + action_id@);
    string_of(&v)
}

/// The command an action id names: a number is the command id itself;
/// otherwise the command the host finds under the name (`by_name`), else
/// under `_` and the name (`by_prefixed_name`). A command id of 0 names none.
pub open spec fn action_command_spec(action_id: Seq<char>, by_name: Option<u32>, by_prefixed_name: Option<u32>) -> Option<u32> {
    let found = match parse_u32_spec(action_id) {
        Some(n) => Some(n),
        None => match by_name {
            Some(id) => Some(id),
            None => by_prefixed_name,
        },
    };
    match found {
        Some(id) => if id > 0 { Some(id) } else { None },
        None => None,
    }
}

/// Whether the action id is a command number, so that no name lookup is needed.
pub fn numeric_action_id(action_id: &str) -> (r: Option<u32>)
    ensures
        r == parse_u32_spec(action_id@),
{
    parse_u32(&chars_of(action_id))
}

/// The command to run for an action id, given what the host's lookups by
/// name and by `_`-prefixed name found.
pub fn action_command(action_id: &str, by_name: Option<u32>, by_prefixed_name: Option<u32>) -> (r: Option<u32>)
    ensures
        r == action_command_spec(action_id@, by_name, by_prefixed_name),
{
    let found = match numeric_action_id(action_id) {
        Some(n) => Some(n),
        None => match by_name {
            Some(id) => Some(id),
            None => by_prefixed_name,
        },
    };
    match found {
        Some(id) => if id > 0 { Some(id) } else { None },
        None => None,
    }
}

} // verus!
