use vstd::prelude::*;

use crate::events::KeyEvent;

verus! {

/// A physical key, on a standard qwerty layout.
#[derive(Clone, Copy, Debug, PartialEq, Eq)]
pub enum Key {
    Alt,
    AltGr,
    Backspace,
    CapsLock,
    ControlLeft,
    ControlRight,
    Delete,
    DownArrow,
    End,
    Escape,
    F1,
    F10,
    F11,
    F12,
    F2,
    F3,
    F4,
    F5,
    F6,
    F7,
    F8,
    F9,
    Home,
    LeftArrow,
    MetaLeft,
    MetaRight,
    PageDown,
    PageUp,
    Return,
    RightArrow,
    ShiftLeft,
    ShiftRight,
    Space,
    Tab,
    UpArrow,
    PrintScreen,
    ScrollLock,
    Pause,
    NumLock,
    BackQuote,
    Num1,
    Num2,
    Num3,
    Num4,
    Num5,
    Num6,
    Num7,
    Num8,
    Num9,
    Num0,
    Minus,
    Equal,
    KeyQ,
    KeyW,
    KeyE,
    KeyR,
    KeyT,
    KeyY,
    KeyU,
    KeyI,
    KeyO,
    KeyP,
    LeftBracket,
    RightBracket,
    KeyA,
    KeyS,
    KeyD,
    KeyF,
    KeyG,
    KeyH,
    KeyJ,
    KeyK,
    KeyL,
    SemiColon,
    Quote,
    BackSlash,
    IntlBackslash,
    KeyZ,
    KeyX,
    KeyC,
    KeyV,
    KeyB,
    KeyN,
    KeyM,
    Comma,
    Dot,
    Slash,
    Insert,
    KpReturn,
    KpMinus,
    KpPlus,
    KpMultiply,
    KpDivide,
    Kp0,
    Kp1,
    Kp2,
    Kp3,
    Kp4,
    Kp5,
    Kp6,
    Kp7,
    Kp8,
    Kp9,
    KpDelete,
    Function,
    Unknown(u32),
}

/// What kind of input a raw event reports: only key presses are recorded.
#[derive(Clone, Copy, Debug, PartialEq, Eq)]
pub enum InputKind {
    KeyPress(Key),
    KeyRelease(Key),
    Other,
}

/// A raw input event: its kind, and the text that the platform produced for
/// it, if any.
#[derive(Debug)]
pub struct InputEvent {
    pub event_type: InputKind,
    pub name: Option<String>,
}

/// The name recorded for a press of `k`; `name` is the platform's text for the
/// event, used only for keys without a name of their own.
pub open spec fn key_label(k: Key, name: Option<Seq<char>>) -> Seq<char> {
    match k {
            Key::MetaLeft => meta_key_label(true),
            Key::MetaRight => meta_key_label(false),
            Key::Alt => alt_key_label(true),
            Key::AltGr => alt_key_label(false),
            Key::ControlLeft => "ctrl_left"@,
            Key::ControlRight => "ctrl_right"@,
            Key::Backspace => "backspace"@,
            Key::Return => "return"@,
            Key::Delete => "delete"@,
            Key::Escape => "escape"@,
            Key::ShiftLeft => "shift_left"@,
            Key::ShiftRight => "shift_right"@,
            Key::Tab => "tab"@,
            Key::DownArrow => "down"@,
            Key::UpArrow => "up"@,
            Key::LeftArrow => "left"@,
            Key::RightArrow => "right"@,
            Key::End => "end"@,
            Key::Home => "home"@,
            Key::Insert => "insert"@,
            Key::CapsLock => "caps_lock"@,
            Key::F1 => "f1"@,
            Key::F2 => "f2"@,
            Key::F3 => "f3"@,
            Key::F4 => "f4"@,
            Key::F5 => "f5"@,
            Key::F6 => "f6"@,
            Key::F7 => "f7"@,
            Key::F8 => "f8"@,
            Key::F9 => "f9"@,
            Key::F10 => "f10"@,
            Key::F11 => "f11"@,
            Key::F12 => "f12"@,
            Key::PageDown => "page_down"@,
            Key::PageUp => "page_up"@,
            Key::Space => "space"@,
            Key::PrintScreen => "print_screen"@,
            Key::ScrollLock => "scroll_lock"@,
            Key::Pause => "pause"@,
            Key::NumLock => "num_lock"@,
            Key::BackQuote => "`"@,
            Key::Num1 => "1"@,
            Key::Num2 => "2"@,
            Key::Num3 => "3"@,
            Key::Num4 => "4"@,
            Key::Num5 => "5"@,
            Key::Num6 => "6"@,
            Key::Num7 => "7"@,
            Key::Num8 => "8"@,
            Key::Num9 => "9"@,
            Key::Num0 => "0"@,
            Key::Minus => "-"@,
            Key::Equal => "="@,
            Key::KeyQ => "q"@,
            Key::KeyW => "w"@,
            Key::KeyE => "e"@,
            Key::KeyR => "r"@,
            Key::KeyT => "t"@,
            Key::KeyY => "y"@,
            Key::KeyU => "u"@,
            Key::KeyI => "i"@,
            Key::KeyO => "o"@,
            Key::KeyP => "p"@,
            Key::KeyA => "a"@,
            Key::KeyS => "s"@,
            Key::KeyD => "d"@,
            Key::KeyF => "f"@,
            Key::KeyG => "g"@,
            Key::KeyH => "h"@,
            Key::KeyJ => "j"@,
            Key::KeyK => "k"@,
            Key::KeyL => "l"@,
            Key::KeyZ => "z"@,
            Key::KeyX => "x"@,
            Key::KeyC => "c"@,
            Key::KeyV => "v"@,
            Key::KeyB => "b"@,
            Key::KeyN => "n"@,
            Key::KeyM => "m"@,
            Key::LeftBracket => "["@,
            Key::RightBracket => "]"@,
            Key::SemiColon => ";"@,
            Key::Quote => "'"@,
            Key::BackSlash => "\\"@,
            Key::IntlBackslash => "\\"@,
            Key::Comma => ","@,
            Key::Dot => "."@,
            Key::Slash => "/"@,
            Key::KpReturn => "numpad_enter"@,
            Key::KpMinus => "numpad_minus"@,
            Key::KpPlus => "numpad_plus"@,
            Key::KpMultiply => "numpad_multiply"@,
            Key::KpDivide => "numpad_divide"@,
            Key::Kp0 => "numpad_0"@,
            Key::Kp1 => "numpad_1"@,
            Key::Kp2 => "numpad_2"@,
            Key::Kp3 => "numpad_3"@,
            Key::Kp4 => "numpad_4"@,
            Key::Kp5 => "numpad_5"@,
            Key::Kp6 => "numpad_6"@,
            Key::Kp7 => "numpad_7"@,
            Key::Kp8 => "numpad_8"@,
            Key::Kp9 => "numpad_9"@,
            Key::KpDelete => "numpad_delete"@,
            Key::Function => "fn"@,
            Key::Unknown(code) => unknown_key_label(code, name),
    }
}

/// The text of an optional string.
pub open spec fn opt_view(s: Option<String>) -> Option<Seq<char>> {
    match s {
        Some(t) => Some(t@),
        None => None,
    }
}

/// The name of a meta (command) key, the left or the right one.
pub open spec fn meta_key_label(is_left: bool) -> Seq<char> {
    if is_left {
        "command_left"@
    } else {
        "command_right"@
    }
}

/// The name of an alt (option) key, the left or the right one.
pub open spec fn alt_key_label(is_left: bool) -> Seq<char> {
    if is_left {
        "opt_left"@
    } else {
        "opt_right"@
    }
}

/// Names of a few key codes that the platform reports as unknown.
pub open spec fn custom_unknown_label(code: u32) -> Option<Seq<char>> {
    if code == 115 {
        Some("home"@)
    } else if code == 117 {
        Some("delete"@)
    } else if code == 62 {
        Some("ctrl_right"@)
    } else {
        None
    }
}

/// ASCII punctuation: the printable ASCII characters that are neither letters,
/// digits nor space.
pub open spec fn is_ascii_punct(c: char) -> bool {
    let v = c as u32;
    (33 <= v <= 47) || (58 <= v <= 64) || (91 <= v <= 96) || (123 <= v <= 126)
}

/// Some character of `s` is ASCII punctuation.
pub open spec fn has_ascii_punct(s: Seq<char>) -> bool {
    exists|i: int| 0 <= i < s.len() && is_ascii_punct(#[trigger] s[i])
}

/// The decimal digit `d`, as text.
pub open spec fn digit_label(d: nat) -> Seq<char> {
    if d == 0 {
        "0"@
    } else if d == 1 {
        "1"@
    } else if d == 2 {
        "2"@
    } else if d == 3 {
        "3"@
    } else if d == 4 {
        "4"@
    } else if d == 5 {
        "5"@
    } else if d == 6 {
        "6"@
    } else if d == 7 {
        "7"@
    } else if d == 8 {
        "8"@
    } else {
        "9"@
    }
}

/// `n` in decimal, without leading zeros.
pub open spec fn decimal(n: nat) -> Seq<char>
    decreases n,
{
    if n < 10 {
        digit_label(n)
    } else {
        decimal(n / 10) + digit_label(n % 10)
    }
}

/// The name recorded for an unknown key `code`: a custom name if it has one,
/// else the platform's text for the event unless that is missing, empty or
/// holds punctuation, else `unknown_` followed by the code.
pub open spec fn unknown_key_label(code: u32, name: Option<Seq<char>>) -> Seq<char> {
    match custom_unknown_label(code) {
        Some(n) => n,
        None => match name {
            Some(n) => if n.len() == 0 || has_ascii_punct(n) {
                "unknown_"@ + decimal(code as nat)
            } else {
                n
            },
            None => "unknown_"@ + decimal(code as nat),
        },
    }
}

/// Names a few key codes that the platform reports as unknown.
pub fn map_custom_unknowns(code: u32) -> (r: Option<String>)
    ensures
        opt_view(r) == custom_unknown_label(code),
{
    if code == 115 {
        Some("home".to_string())
    } else if code == 117 {
        Some("delete".to_string())
    } else if code == 62 {
        Some("ctrl_right".to_string())
    } else {
        None
    }
}

/// The name of a meta (command) key, the left or the right one.
pub fn meta_key_name(is_left: bool) -> (r: String)
    ensures
        r@ == meta_key_label(is_left),
{
    if is_left {
        "command_left".to_string()
    } else {
        "command_right".to_string()
    }
}

/// The name of an alt (option) key, the left or the right one.
pub fn alt_key_name(is_left: bool) -> (r: String)
    ensures
        r@ == alt_key_label(is_left),
{
    if is_left {
        "opt_left".to_string()
    } else {
        "opt_right".to_string()
    }
}

fn digit_str(d: u32) -> (r: &'static str)
    requires
        d < 10,
    ensures
        r@ == digit_label(d as nat),
{
    if d == 0 {
        "0"
    } else if d == 1 {
        "1"
    } else if d == 2 {
        "2"
    } else if d == 3 {
        "3"
    } else if d == 4 {
        "4"
    } else if d == 5 {
        "5"
    } else if d == 6 {
        "6"
    } else if d == 7 {
        "7"
    } else if d == 8 {
        "8"
    } else {
        "9"
    }
}

/// Appends `n` in decimal to `s`.
pub fn push_decimal(s: &mut String, n: u32)
    ensures
        final(s)@ == old(s)@ + decimal(n as nat),
    decreases n,
{
    if n >= 10 {
        push_decimal(s, n / 10);
    }
    s.append(digit_str(n % 10));
    proof {
        if n >= 10 {
            assert(old(s)@ + decimal(n as nat) =~= old(s)@ + decimal((n / 10) as nat) + digit_label(
                (n % 10) as nat,
            ));
        }
    }
}

/// Whether some character of `s` is ASCII punctuation.
pub fn has_ascii_punctuation(s: &str) -> (r: bool)
    ensures
        r == has_ascii_punct(s@),
{
    let len = s.unicode_len();
    let mut i: usize = 0;
    while i < len
        invariant
            len == s@.len(),
            i <= len,
            forall|j: int| 0 <= j < i ==> !is_ascii_punct(#[trigger] s@[j]),
        decreases len - i,
    {
        let v = s.get_char(i) as u32;
        if (33 <= v && v <= 47) || (58 <= v && v <= 64) || (91 <= v && v <= 96) || (123 <= v && v
            <= 126) {
            return true;
        }
        i = i + 1;
    }
    false
}

/// The name recorded for a press of the unknown key `code`, given the
/// platform's text for the event.
pub fn unknown_key_name(code: u32, name: &Option<String>) -> (r: String)
    ensures
        r@ == unknown_key_label(code, opt_view(*name)),
{
    match map_custom_unknowns(code) {
        Some(n) => n,
        None => {
            match name {
                Some(n) if n.as_str().unicode_len() > 0 && !has_ascii_punctuation(n.as_str()) => n.clone(),
                _ => {
                    let mut r = "unknown_".to_string();
                    push_decimal(&mut r, code);
                    r
                },
            }
        },
    }
}

proof fn lemma_decimal_nonempty(n: nat)
    ensures
        decimal(n).len() > 0,
    decreases n,
{
    reveal_strlit("0");
    reveal_strlit("1");
    reveal_strlit("2");
    reveal_strlit("3");
    reveal_strlit("4");
    reveal_strlit("5");
    reveal_strlit("6");
    reveal_strlit("7");
    reveal_strlit("8");
    reveal_strlit("9");
    if n >= 10 {
        lemma_decimal_nonempty(n / 10);
    }
}

/// No key press is ever named by the empty string.
pub proof fn lemma_key_label_nonempty(k: Key, name: Option<Seq<char>>)
    ensures
        key_label(k, name).len() > 0,
{
    match k {
        Key::Unknown(code) => {
            reveal_strlit("home");
            reveal_strlit("delete");
            reveal_strlit("ctrl_right");
            reveal_strlit("unknown_");
            lemma_decimal_nonempty(code as nat);
        },
        _ => {
            reveal_strlit("ctrl_left");
            reveal_strlit("ctrl_right");
            reveal_strlit("backspace");
            reveal_strlit("return");
            reveal_strlit("delete");
            reveal_strlit("escape");
            reveal_strlit("shift_left");
            reveal_strlit("shift_right");
            reveal_strlit("tab");
            reveal_strlit("down");
            reveal_strlit("up");
            reveal_strlit("left");
            reveal_strlit("right");
            reveal_strlit("end");
            reveal_strlit("home");
            reveal_strlit("insert");
            reveal_strlit("caps_lock");
            reveal_strlit("f1");
            reveal_strlit("f2");
            reveal_strlit("f3");
            reveal_strlit("f4");
            reveal_strlit("f5");
            reveal_strlit("f6");
            reveal_strlit("f7");
            reveal_strlit("f8");
            reveal_strlit("f9");
            reveal_strlit("f10");
            reveal_strlit("f11");
            reveal_strlit("f12");
            reveal_strlit("page_down");
            reveal_strlit("page_up");
            reveal_strlit("space");
            reveal_strlit("print_screen");
            reveal_strlit("scroll_lock");
            reveal_strlit("pause");
            reveal_strlit("num_lock");
            reveal_strlit("`");
            reveal_strlit("1");
            reveal_strlit("2");
            reveal_strlit("3");
            reveal_strlit("4");
            reveal_strlit("5");
            reveal_strlit("6");
            reveal_strlit("7");
            reveal_strlit("8");
            reveal_strlit("9");
            reveal_strlit("0");
            reveal_strlit("-");
            reveal_strlit("=");
            reveal_strlit("q");
            reveal_strlit("w");
            reveal_strlit("e");
            reveal_strlit("r");
            reveal_strlit("t");
            reveal_strlit("y");
            reveal_strlit("u");
            reveal_strlit("i");
            reveal_strlit("o");
            reveal_strlit("p");
            reveal_strlit("a");
            reveal_strlit("s");
            reveal_strlit("d");
            reveal_strlit("f");
            reveal_strlit("g");
            reveal_strlit("h");
            reveal_strlit("j");
            reveal_strlit("k");
            reveal_strlit("l");
            reveal_strlit("z");
            reveal_strlit("x");
            reveal_strlit("c");
            reveal_strlit("v");
            reveal_strlit("b");
            reveal_strlit("n");
            reveal_strlit("m");
            reveal_strlit("[");
            reveal_strlit("]");
            reveal_strlit(";");
            reveal_strlit("'");
            reveal_strlit("\\");
            reveal_strlit(",");
            reveal_strlit(".");
            reveal_strlit("/");
            reveal_strlit("numpad_enter");
            reveal_strlit("numpad_minus");
            reveal_strlit("numpad_plus");
            reveal_strlit("numpad_multiply");
            reveal_strlit("numpad_divide");
            reveal_strlit("numpad_0");
            reveal_strlit("numpad_1");
            reveal_strlit("numpad_2");
            reveal_strlit("numpad_3");
            reveal_strlit("numpad_4");
            reveal_strlit("numpad_5");
            reveal_strlit("numpad_6");
            reveal_strlit("numpad_7");
            reveal_strlit("numpad_8");
            reveal_strlit("numpad_9");
            reveal_strlit("numpad_delete");
            reveal_strlit("fn");
            reveal_strlit("command_left");
            reveal_strlit("command_right");
            reveal_strlit("opt_left");
            reveal_strlit("opt_right");
        },
    }
}

/// Names a key press event.
pub fn parse_name_from_event(event: &InputEvent) -> (r: String)
    requires
        event.event_type is KeyPress,
    ensures
        r@ == key_label(event.event_type->KeyPress_0, opt_view(event.name)),
        r@.len() > 0,
{
    proof {
        lemma_key_label_nonempty(event.event_type->KeyPress_0, opt_view(event.name));
    }
    let key = match event.event_type {
        InputKind::KeyPress(key) => key,
        _ => {
            return String::new();
        },
    };
    match key {
            Key::MetaLeft => meta_key_name(true),
            Key::MetaRight => meta_key_name(false),
            Key::Alt => alt_key_name(true),
            Key::AltGr => alt_key_name(false),
            Key::ControlLeft => "ctrl_left".to_string(),
            Key::ControlRight => "ctrl_right".to_string(),
            Key::Backspace => "backspace".to_string(),
            Key::Return => "return".to_string(),
            Key::Delete => "delete".to_string(),
            Key::Escape => "escape".to_string(),
            Key::ShiftLeft => "shift_left".to_string(),
            Key::ShiftRight => "shift_right".to_string(),
            Key::Tab => "tab".to_string(),
            Key::DownArrow => "down".to_string(),
            Key::UpArrow => "up".to_string(),
            Key::LeftArrow => "left".to_string(),
            Key::RightArrow => "right".to_string(),
            Key::End => "end".to_string(),
            Key::Home => "home".to_string(),
            Key::Insert => "insert".to_string(),
            Key::CapsLock => "caps_lock".to_string(),
            Key::F1 => "f1".to_string(),
            Key::F2 => "f2".to_string(),
            Key::F3 => "f3".to_string(),
            Key::F4 => "f4".to_string(),
            Key::F5 => "f5".to_string(),
            Key::F6 => "f6".to_string(),
            Key::F7 => "f7".to_string(),
            Key::F8 => "f8".to_string(),
            Key::F9 => "f9".to_string(),
            Key::F10 => "f10".to_string(),
            Key::F11 => "f11".to_string(),
            Key::F12 => "f12".to_string(),
            Key::PageDown => "page_down".to_string(),
            Key::PageUp => "page_up".to_string(),
            Key::Space => "space".to_string(),
            Key::PrintScreen => "print_screen".to_string(),
            Key::ScrollLock => "scroll_lock".to_string(),
            Key::Pause => "pause".to_string(),
            Key::NumLock => "num_lock".to_string(),
            Key::BackQuote => "`".to_string(),
            Key::Num1 => "1".to_string(),
            Key::Num2 => "2".to_string(),
            Key::Num3 => "3".to_string(),
            Key::Num4 => "4".to_string(),
            Key::Num5 => "5".to_string(),
            Key::Num6 => "6".to_string(),
            Key::Num7 => "7".to_string(),
            Key::Num8 => "8".to_string(),
            Key::Num9 => "9".to_string(),
            Key::Num0 => "0".to_string(),
            Key::Minus => "-".to_string(),
            Key::Equal => "=".to_string(),
            Key::KeyQ => "q".to_string(),
            Key::KeyW => "w".to_string(),
            Key::KeyE => "e".to_string(),
            Key::KeyR => "r".to_string(),
            Key::KeyT => "t".to_string(),
            Key::KeyY => "y".to_string(),
            Key::KeyU => "u".to_string(),
            Key::KeyI => "i".to_string(),
            Key::KeyO => "o".to_string(),
            Key::KeyP => "p".to_string(),
            Key::KeyA => "a".to_string(),
            Key::KeyS => "s".to_string(),
            Key::KeyD => "d".to_string(),
            Key::KeyF => "f".to_string(),
            Key::KeyG => "g".to_string(),
            Key::KeyH => "h".to_string(),
            Key::KeyJ => "j".to_string(),
            Key::KeyK => "k".to_string(),
            Key::KeyL => "l".to_string(),
            Key::KeyZ => "z".to_string(),
            Key::KeyX => "x".to_string(),
            Key::KeyC => "c".to_string(),
            Key::KeyV => "v".to_string(),
            Key::KeyB => "b".to_string(),
            Key::KeyN => "n".to_string(),
            Key::KeyM => "m".to_string(),
            Key::LeftBracket => "[".to_string(),
            Key::RightBracket => "]".to_string(),
            Key::SemiColon => ";".to_string(),
            Key::Quote => "'".to_string(),
            Key::BackSlash => "\\".to_string(),
            Key::IntlBackslash => "\\".to_string(),
            Key::Comma => ",".to_string(),
            Key::Dot => ".".to_string(),
            Key::Slash => "/".to_string(),
            Key::KpReturn => "numpad_enter".to_string(),
            Key::KpMinus => "numpad_minus".to_string(),
            Key::KpPlus => "numpad_plus".to_string(),
            Key::KpMultiply => "numpad_multiply".to_string(),
            Key::KpDivide => "numpad_divide".to_string(),
            Key::Kp0 => "numpad_0".to_string(),
            Key::Kp1 => "numpad_1".to_string(),
            Key::Kp2 => "numpad_2".to_string(),
            Key::Kp3 => "numpad_3".to_string(),
            Key::Kp4 => "numpad_4".to_string(),
            Key::Kp5 => "numpad_5".to_string(),
            Key::Kp6 => "numpad_6".to_string(),
            Key::Kp7 => "numpad_7".to_string(),
            Key::Kp8 => "numpad_8".to_string(),
            Key::Kp9 => "numpad_9".to_string(),
            Key::KpDelete => "numpad_delete".to_string(),
            Key::Function => "fn".to_string(),
            Key::Unknown(code) => unknown_key_name(code, &event.name),
    }
}

/// The key event recorded for `event` when it happened at `timestamp`
/// (milliseconds since the epoch): one for a key press, none for any other
/// input.
pub fn handle_keyboard_event(event: &InputEvent, timestamp: i64) -> (r: Option<KeyEvent>)
    ensures
        r is Some <==> event.event_type is KeyPress,
        r is Some ==> r->0.key_name@ == key_label(
            event.event_type->KeyPress_0,
            opt_view(event.name),
        ) && r->0.timestamp == timestamp,
        r is Some ==> r->0.key_name@.len() > 0,
{
    match event.event_type {
        InputKind::KeyPress(_) => Some(KeyEvent::new(parse_name_from_event(event), timestamp)),
        _ => None,
    }
}

} // verus!
