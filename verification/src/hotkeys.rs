//! Hotkeys: key names, parsing of hotkey strings such as `Ctrl+Shift+K`,
//! the keyboard listener that collects a chord while modifiers are held, and
//! the matching of a chord against the registered hotkeys.

use vstd::prelude::*;
use crate::text::{
    chars_eq_str, chars_of, lemma_split_nonempty, push_str, split_chars, split_seq, string_of,
    trim_chars, trim_seq, char_vecs_view,
};

verus! {

/// A key of the keyboard, as the hotkey strings name them. Every other key
/// is `Other`.
#[derive(Debug, Clone, Copy, PartialEq, Eq, Structural)]
pub enum Key {
    ControlLeft,
    ControlRight,
    Alt,
    AltGr,
    ShiftLeft,
    ShiftRight,
    MetaLeft,
    MetaRight,
    KeyA,
    KeyB,
    KeyC,
    KeyD,
    KeyE,
    KeyF,
    KeyG,
    KeyH,
    KeyI,
    KeyJ,
    KeyK,
    KeyL,
    KeyM,
    KeyN,
    KeyO,
    KeyP,
    KeyQ,
    KeyR,
    KeyS,
    KeyT,
    KeyU,
    KeyV,
    KeyW,
    KeyX,
    KeyY,
    KeyZ,
    Num0,
    Num1,
    Num2,
    Num3,
    Num4,
    Num5,
    Num6,
    Num7,
    Num8,
    Num9,
    F1,
    F2,
    F3,
    F4,
    F5,
    F6,
    F7,
    F8,
    F9,
    F10,
    F11,
    F12,
    Space,
    Return,
    Tab,
    Escape,
    Backspace,
    Delete,
    Insert,
    Home,
    End,
    PageUp,
    PageDown,
    UpArrow,
    DownArrow,
    LeftArrow,
    RightArrow,
    Minus,
    Equal,
    LeftBracket,
    RightBracket,
    BackSlash,
    SemiColon,
    Quote,
    Comma,
    Dot,
    Slash,
    BackQuote,
    CapsLock,
    PrintScreen,
    ScrollLock,
    Pause,
    NumLock,
    KpPlus,
    KpMinus,
    KpMultiply,
    KpDivide,
    KpDelete,
    KpReturn,
    Other,
}

/// A modifier key named `s`, if `s` names one.
pub open spec fn modifier_key_of(s: Seq<char>) -> Option<Key> {
    if s == "Ctrl"@ || s == "Control"@ || s == "ControlLeft"@ {
        Some(Key::ControlLeft)
    } else if s == "ControlRight"@ {
        Some(Key::ControlRight)
    } else if s == "Alt"@ || s == "AltLeft"@ || s == "AltL"@ {
        Some(Key::Alt)
    } else if s == "AltRight"@ || s == "AltR"@ || s == "AltGr"@ {
        Some(Key::AltGr)
    } else if s == "Shift"@ || s == "ShiftLeft"@ {
        Some(Key::ShiftLeft)
    } else if s == "ShiftRight"@ {
        Some(Key::ShiftRight)
    } else if s == "Meta"@ || s == "Win"@ || s == "Super"@ || s == "MetaLeft"@ {
        Some(Key::MetaLeft)
    } else if s == "MetaRight"@ {
        Some(Key::MetaRight)
    } else {
        None
    }
}

fn modifier_key_of_chars(v: &Vec<char>) -> (res: Option<Key>)
    ensures
        res == modifier_key_of(v@),
{
    if chars_eq_str(v, "Ctrl") || chars_eq_str(v, "Control") || chars_eq_str(v, "ControlLeft") {
        Some(Key::ControlLeft)
    } else if chars_eq_str(v, "ControlRight") {
        Some(Key::ControlRight)
    } else if chars_eq_str(v, "Alt") || chars_eq_str(v, "AltLeft") || chars_eq_str(v, "AltL") {
        Some(Key::Alt)
    } else if chars_eq_str(v, "AltRight") || chars_eq_str(v, "AltR") || chars_eq_str(v, "AltGr") {
        Some(Key::AltGr)
    } else if chars_eq_str(v, "Shift") || chars_eq_str(v, "ShiftLeft") {
        Some(Key::ShiftLeft)
    } else if chars_eq_str(v, "ShiftRight") {
        Some(Key::ShiftRight)
    } else if chars_eq_str(v, "Meta") || chars_eq_str(v, "Win") || chars_eq_str(v, "Super") || chars_eq_str(v, "MetaLeft") {
        Some(Key::MetaLeft)
    } else if chars_eq_str(v, "MetaRight") {
        Some(Key::MetaRight)
    } else {
        None
    }
}

/// A letter key named `s`, if `s` names one.
pub open spec fn letter_key_of(s: Seq<char>) -> Option<Key> {
    if s == "KeyA"@ || s == "A"@ {
        Some(Key::KeyA)
    } else if s == "KeyB"@ || s == "B"@ {
        Some(Key::KeyB)
    } else if s == "KeyC"@ || s == "C"@ {
        Some(Key::KeyC)
    } else if s == "KeyD"@ || s == "D"@ {
        Some(Key::KeyD)
    } else if s == "KeyE"@ || s == "E"@ {
        Some(Key::KeyE)
    } else if s == "KeyF"@ || s == "F"@ {
        Some(Key::KeyF)
    } else if s == "KeyG"@ || s == "G"@ {
        Some(Key::KeyG)
    } else if s == "KeyH"@ || s == "H"@ {
        Some(Key::KeyH)
    } else if s == "KeyI"@ || s == "I"@ {
        Some(Key::KeyI)
    } else if s == "KeyJ"@ || s == "J"@ {
        Some(Key::KeyJ)
    } else if s == "KeyK"@ || s == "K"@ {
        Some(Key::KeyK)
    } else if s == "KeyL"@ || s == "L"@ {
        Some(Key::KeyL)
    } else if s == "KeyM"@ || s == "M"@ {
        Some(Key::KeyM)
    } else if s == "KeyN"@ || s == "N"@ {
        Some(Key::KeyN)
    } else if s == "KeyO"@ || s == "O"@ {
        Some(Key::KeyO)
    } else if s == "KeyP"@ || s == "P"@ {
        Some(Key::KeyP)
    } else if s == "KeyQ"@ || s == "Q"@ {
        Some(Key::KeyQ)
    } else if s == "KeyR"@ || s == "R"@ {
        Some(Key::KeyR)
    } else if s == "KeyS"@ || s == "S"@ {
        Some(Key::KeyS)
    } else if s == "KeyT"@ || s == "T"@ {
        Some(Key::KeyT)
    } else if s == "KeyU"@ || s == "U"@ {
        Some(Key::KeyU)
    } else if s == "KeyV"@ || s == "V"@ {
        Some(Key::KeyV)
    } else if s == "KeyW"@ || s == "W"@ {
        Some(Key::KeyW)
    } else if s == "KeyX"@ || s == "X"@ {
        Some(Key::KeyX)
    } else if s == "KeyY"@ || s == "Y"@ {
        Some(Key::KeyY)
    } else if s == "KeyZ"@ || s == "Z"@ {
        Some(Key::KeyZ)
    } else {
        None
    }
}

fn letter_key_of_chars(v: &Vec<char>) -> (res: Option<Key>)
    ensures
        res == letter_key_of(v@),
{
    if chars_eq_str(v, "KeyA") || chars_eq_str(v, "A") {
        Some(Key::KeyA)
    } else if chars_eq_str(v, "KeyB") || chars_eq_str(v, "B") {
        Some(Key::KeyB)
    } else if chars_eq_str(v, "KeyC") || chars_eq_str(v, "C") {
        Some(Key::KeyC)
    } else if chars_eq_str(v, "KeyD") || chars_eq_str(v, "D") {
        Some(Key::KeyD)
    } else if chars_eq_str(v, "KeyE") || chars_eq_str(v, "E") {
        Some(Key::KeyE)
    } else if chars_eq_str(v, "KeyF") || chars_eq_str(v, "F") {
        Some(Key::KeyF)
    } else if chars_eq_str(v, "KeyG") || chars_eq_str(v, "G") {
        Some(Key::KeyG)
    } else if chars_eq_str(v, "KeyH") || chars_eq_str(v, "H") {
        Some(Key::KeyH)
    } else if chars_eq_str(v, "KeyI") || chars_eq_str(v, "I") {
        Some(Key::KeyI)
    } else if chars_eq_str(v, "KeyJ") || chars_eq_str(v, "J") {
        Some(Key::KeyJ)
    } else if chars_eq_str(v, "KeyK") || chars_eq_str(v, "K") {
        Some(Key::KeyK)
    } else if chars_eq_str(v, "KeyL") || chars_eq_str(v, "L") {
        Some(Key::KeyL)
    } else if chars_eq_str(v, "KeyM") || chars_eq_str(v, "M") {
        Some(Key::KeyM)
    } else if chars_eq_str(v, "KeyN") || chars_eq_str(v, "N") {
        Some(Key::KeyN)
    } else if chars_eq_str(v, "KeyO") || chars_eq_str(v, "O") {
        Some(Key::KeyO)
    } else if chars_eq_str(v, "KeyP") || chars_eq_str(v, "P") {
        Some(Key::KeyP)
    } else if chars_eq_str(v, "KeyQ") || chars_eq_str(v, "Q") {
        Some(Key::KeyQ)
    } else if chars_eq_str(v, "KeyR") || chars_eq_str(v, "R") {
        Some(Key::KeyR)
    } else if chars_eq_str(v, "KeyS") || chars_eq_str(v, "S") {
        Some(Key::KeyS)
    } else if chars_eq_str(v, "KeyT") || chars_eq_str(v, "T") {
        Some(Key::KeyT)
    } else if chars_eq_str(v, "KeyU") || chars_eq_str(v, "U") {
        Some(Key::KeyU)
    } else if chars_eq_str(v, "KeyV") || chars_eq_str(v, "V") {
        Some(Key::KeyV)
    } else if chars_eq_str(v, "KeyW") || chars_eq_str(v, "W") {
        Some(Key::KeyW)
    } else if chars_eq_str(v, "KeyX") || chars_eq_str(v, "X") {
        Some(Key::KeyX)
    } else if chars_eq_str(v, "KeyY") || chars_eq_str(v, "Y") {
        Some(Key::KeyY)
    } else if chars_eq_str(v, "KeyZ") || chars_eq_str(v, "Z") {
        Some(Key::KeyZ)
    } else {
        None
    }
}

/// A digit key, on the main block or the keypad named `s`, if `s` names one.
pub open spec fn digit_key_of(s: Seq<char>) -> Option<Key> {
    if s == "Digit0"@ || s == "0"@ {
        Some(Key::Num0)
    } else if s == "Digit1"@ || s == "1"@ {
        Some(Key::Num1)
    } else if s == "Digit2"@ || s == "2"@ {
        Some(Key::Num2)
    } else if s == "Digit3"@ || s == "3"@ {
        Some(Key::Num3)
    } else if s == "Digit4"@ || s == "4"@ {
        Some(Key::Num4)
    } else if s == "Digit5"@ || s == "5"@ {
        Some(Key::Num5)
    } else if s == "Digit6"@ || s == "6"@ {
        Some(Key::Num6)
    } else if s == "Digit7"@ || s == "7"@ {
        Some(Key::Num7)
    } else if s == "Digit8"@ || s == "8"@ {
        Some(Key::Num8)
    } else if s == "Digit9"@ || s == "9"@ {
        Some(Key::Num9)
    } else if s == "Numpad0"@ {
        Some(Key::Num0)
    } else if s == "Numpad1"@ {
        Some(Key::Num1)
    } else if s == "Numpad2"@ {
        Some(Key::Num2)
    } else if s == "Numpad3"@ {
        Some(Key::Num3)
    } else if s == "Numpad4"@ {
        Some(Key::Num4)
    } else if s == "Numpad5"@ {
        Some(Key::Num5)
    } else if s == "Numpad6"@ {
        Some(Key::Num6)
    } else if s == "Numpad7"@ {
        Some(Key::Num7)
    } else if s == "Numpad8"@ {
        Some(Key::Num8)
    } else if s == "Numpad9"@ {
        Some(Key::Num9)
    } else {
        None
    }
}

fn digit_key_of_chars(v: &Vec<char>) -> (res: Option<Key>)
    ensures
        res == digit_key_of(v@),
{
    if chars_eq_str(v, "Digit0") || chars_eq_str(v, "0") {
        Some(Key::Num0)
    } else if chars_eq_str(v, "Digit1") || chars_eq_str(v, "1") {
        Some(Key::Num1)
    } else if chars_eq_str(v, "Digit2") || chars_eq_str(v, "2") {
        Some(Key::Num2)
    } else if chars_eq_str(v, "Digit3") || chars_eq_str(v, "3") {
        Some(Key::Num3)
    } else if chars_eq_str(v, "Digit4") || chars_eq_str(v, "4") {
        Some(Key::Num4)
    } else if chars_eq_str(v, "Digit5") || chars_eq_str(v, "5") {
        Some(Key::Num5)
    } else if chars_eq_str(v, "Digit6") || chars_eq_str(v, "6") {
        Some(Key::Num6)
    } else if chars_eq_str(v, "Digit7") || chars_eq_str(v, "7") {
        Some(Key::Num7)
    } else if chars_eq_str(v, "Digit8") || chars_eq_str(v, "8") {
        Some(Key::Num8)
    } else if chars_eq_str(v, "Digit9") || chars_eq_str(v, "9") {
        Some(Key::Num9)
    } else if chars_eq_str(v, "Numpad0") {
        Some(Key::Num0)
    } else if chars_eq_str(v, "Numpad1") {
        Some(Key::Num1)
    } else if chars_eq_str(v, "Numpad2") {
        Some(Key::Num2)
    } else if chars_eq_str(v, "Numpad3") {
        Some(Key::Num3)
    } else if chars_eq_str(v, "Numpad4") {
        Some(Key::Num4)
    } else if chars_eq_str(v, "Numpad5") {
        Some(Key::Num5)
    } else if chars_eq_str(v, "Numpad6") {
        Some(Key::Num6)
    } else if chars_eq_str(v, "Numpad7") {
        Some(Key::Num7)
    } else if chars_eq_str(v, "Numpad8") {
        Some(Key::Num8)
    } else if chars_eq_str(v, "Numpad9") {
        Some(Key::Num9)
    } else {
        None
    }
}

/// A function key named `s`, if `s` names one.
pub open spec fn function_key_of(s: Seq<char>) -> Option<Key> {
    if s == "F1"@ {
        Some(Key::F1)
    } else if s == "F2"@ {
        Some(Key::F2)
    } else if s == "F3"@ {
        Some(Key::F3)
    } else if s == "F4"@ {
        Some(Key::F4)
    } else if s == "F5"@ {
        Some(Key::F5)
    } else if s == "F6"@ {
        Some(Key::F6)
    } else if s == "F7"@ {
        Some(Key::F7)
    } else if s == "F8"@ {
        Some(Key::F8)
    } else if s == "F9"@ {
        Some(Key::F9)
    } else if s == "F10"@ {
        Some(Key::F10)
    } else if s == "F11"@ {
        Some(Key::F11)
    } else if s == "F12"@ {
        Some(Key::F12)
    } else {
        None
    }
}

fn function_key_of_chars(v: &Vec<char>) -> (res: Option<Key>)
    ensures
        res == function_key_of(v@),
{
    if chars_eq_str(v, "F1") {
        Some(Key::F1)
    } else if chars_eq_str(v, "F2") {
        Some(Key::F2)
    } else if chars_eq_str(v, "F3") {
        Some(Key::F3)
    } else if chars_eq_str(v, "F4") {
        Some(Key::F4)
    } else if chars_eq_str(v, "F5") {
        Some(Key::F5)
    } else if chars_eq_str(v, "F6") {
        Some(Key::F6)
    } else if chars_eq_str(v, "F7") {
        Some(Key::F7)
    } else if chars_eq_str(v, "F8") {
        Some(Key::F8)
    } else if chars_eq_str(v, "F9") {
        Some(Key::F9)
    } else if chars_eq_str(v, "F10") {
        Some(Key::F10)
    } else if chars_eq_str(v, "F11") {
        Some(Key::F11)
    } else if chars_eq_str(v, "F12") {
        Some(Key::F12)
    } else {
        None
    }
}

/// A whitespace, editing or arrow key named `s`, if `s` names one.
pub open spec fn navigation_key_of(s: Seq<char>) -> Option<Key> {
    if s == "Space"@ {
        Some(Key::Space)
    } else if s == "Enter"@ || s == "Return"@ {
        Some(Key::Return)
    } else if s == "Tab"@ {
        Some(Key::Tab)
    } else if s == "Escape"@ || s == "Esc"@ {
        Some(Key::Escape)
    } else if s == "Backspace"@ {
        Some(Key::Backspace)
    } else if s == "Delete"@ || s == "Del"@ {
        Some(Key::Delete)
    } else if s == "Insert"@ || s == "Ins"@ {
        Some(Key::Insert)
    } else if s == "Home"@ {
        Some(Key::Home)
    } else if s == "End"@ {
        Some(Key::End)
    } else if s == "PageUp"@ {
        Some(Key::PageUp)
    } else if s == "PageDown"@ {
        Some(Key::PageDown)
    } else if s == "ArrowUp"@ || s == "Up"@ {
        Some(Key::UpArrow)
    } else if s == "ArrowDown"@ || s == "Down"@ {
        Some(Key::DownArrow)
    } else if s == "ArrowLeft"@ || s == "Left"@ {
        Some(Key::LeftArrow)
    } else if s == "ArrowRight"@ || s == "Right"@ {
        Some(Key::RightArrow)
    } else {
        None
    }
}

fn navigation_key_of_chars(v: &Vec<char>) -> (res: Option<Key>)
    ensures
        res == navigation_key_of(v@),
{
    if chars_eq_str(v, "Space") {
        Some(Key::Space)
    } else if chars_eq_str(v, "Enter") || chars_eq_str(v, "Return") {
        Some(Key::Return)
    } else if chars_eq_str(v, "Tab") {
        Some(Key::Tab)
    } else if chars_eq_str(v, "Escape") || chars_eq_str(v, "Esc") {
        Some(Key::Escape)
    } else if chars_eq_str(v, "Backspace") {
        Some(Key::Backspace)
    } else if chars_eq_str(v, "Delete") || chars_eq_str(v, "Del") {
        Some(Key::Delete)
    } else if chars_eq_str(v, "Insert") || chars_eq_str(v, "Ins") {
        Some(Key::Insert)
    } else if chars_eq_str(v, "Home") {
        Some(Key::Home)
    } else if chars_eq_str(v, "End") {
        Some(Key::End)
    } else if chars_eq_str(v, "PageUp") {
        Some(Key::PageUp)
    } else if chars_eq_str(v, "PageDown") {
        Some(Key::PageDown)
    } else if chars_eq_str(v, "ArrowUp") || chars_eq_str(v, "Up") {
        Some(Key::UpArrow)
    } else if chars_eq_str(v, "ArrowDown") || chars_eq_str(v, "Down") {
        Some(Key::DownArrow)
    } else if chars_eq_str(v, "ArrowLeft") || chars_eq_str(v, "Left") {
        Some(Key::LeftArrow)
    } else if chars_eq_str(v, "ArrowRight") || chars_eq_str(v, "Right") {
        Some(Key::RightArrow)
    } else {
        None
    }
}

/// A punctuation key named `s`, if `s` names one.
pub open spec fn punctuation_key_of(s: Seq<char>) -> Option<Key> {
    if s == "Minus"@ || s == "-"@ {
        Some(Key::Minus)
    } else if s == "Equal"@ || s == "="@ {
        Some(Key::Equal)
    } else if s == "BracketLeft"@ || s == "["@ {
        Some(Key::LeftBracket)
    } else if s == "BracketRight"@ || s == "]"@ {
        Some(Key::RightBracket)
    } else if s == "Backslash"@ || s == "\\"@ {
        Some(Key::BackSlash)
    } else if s == "Semicolon"@ || s == ";"@ {
        Some(Key::SemiColon)
    } else if s == "Quote"@ || s == "'"@ {
        Some(Key::Quote)
    } else if s == "Comma"@ || s == ","@ {
        Some(Key::Comma)
    } else if s == "Period"@ || s == "."@ {
        Some(Key::Dot)
    } else if s == "Slash"@ || s == "/"@ {
        Some(Key::Slash)
    } else if s == "Backquote"@ || s == "`"@ {
        Some(Key::BackQuote)
    } else {
        None
    }
}

fn punctuation_key_of_chars(v: &Vec<char>) -> (res: Option<Key>)
    ensures
        res == punctuation_key_of(v@),
{
    if chars_eq_str(v, "Minus") || chars_eq_str(v, "-") {
        Some(Key::Minus)
    } else if chars_eq_str(v, "Equal") || chars_eq_str(v, "=") {
        Some(Key::Equal)
    } else if chars_eq_str(v, "BracketLeft") || chars_eq_str(v, "[") {
        Some(Key::LeftBracket)
    } else if chars_eq_str(v, "BracketRight") || chars_eq_str(v, "]") {
        Some(Key::RightBracket)
    } else if chars_eq_str(v, "Backslash") || chars_eq_str(v, "\\") {
        Some(Key::BackSlash)
    } else if chars_eq_str(v, "Semicolon") || chars_eq_str(v, ";") {
        Some(Key::SemiColon)
    } else if chars_eq_str(v, "Quote") || chars_eq_str(v, "'") {
        Some(Key::Quote)
    } else if chars_eq_str(v, "Comma") || chars_eq_str(v, ",") {
        Some(Key::Comma)
    } else if chars_eq_str(v, "Period") || chars_eq_str(v, ".") {
        Some(Key::Dot)
    } else if chars_eq_str(v, "Slash") || chars_eq_str(v, "/") {
        Some(Key::Slash)
    } else if chars_eq_str(v, "Backquote") || chars_eq_str(v, "`") {
        Some(Key::BackQuote)
    } else {
        None
    }
}

/// A lock, system or keypad operator key named `s`, if `s` names one.
pub open spec fn lock_key_of(s: Seq<char>) -> Option<Key> {
    if s == "CapsLock"@ {
        Some(Key::CapsLock)
    } else if s == "PrintScreen"@ {
        Some(Key::PrintScreen)
    } else if s == "ScrollLock"@ {
        Some(Key::ScrollLock)
    } else if s == "Pause"@ {
        Some(Key::Pause)
    } else if s == "NumLock"@ {
        Some(Key::NumLock)
    } else if s == "NumpadAdd"@ {
        Some(Key::KpPlus)
    } else if s == "NumpadSubtract"@ {
        Some(Key::KpMinus)
    } else if s == "NumpadMultiply"@ {
        Some(Key::KpMultiply)
    } else if s == "NumpadDivide"@ {
        Some(Key::KpDivide)
    } else if s == "NumpadDecimal"@ || s == "NumpadDelete"@ {
        Some(Key::KpDelete)
    } else if s == "NumpadEnter"@ {
        Some(Key::KpReturn)
    } else {
        None
    }
}

fn lock_key_of_chars(v: &Vec<char>) -> (res: Option<Key>)
    ensures
        res == lock_key_of(v@),
{
    if chars_eq_str(v, "CapsLock") {
        Some(Key::CapsLock)
    } else if chars_eq_str(v, "PrintScreen") {
        Some(Key::PrintScreen)
    } else if chars_eq_str(v, "ScrollLock") {
        Some(Key::ScrollLock)
    } else if chars_eq_str(v, "Pause") {
        Some(Key::Pause)
    } else if chars_eq_str(v, "NumLock") {
        Some(Key::NumLock)
    } else if chars_eq_str(v, "NumpadAdd") {
        Some(Key::KpPlus)
    } else if chars_eq_str(v, "NumpadSubtract") {
        Some(Key::KpMinus)
    } else if chars_eq_str(v, "NumpadMultiply") {
        Some(Key::KpMultiply)
    } else if chars_eq_str(v, "NumpadDivide") {
        Some(Key::KpDivide)
    } else if chars_eq_str(v, "NumpadDecimal") || chars_eq_str(v, "NumpadDelete") {
        Some(Key::KpDelete)
    } else if chars_eq_str(v, "NumpadEnter") {
        Some(Key::KpReturn)
    } else {
        None
    }
}
/// The key named `s`, if `s` names one.
pub open spec fn key_of_name(s: Seq<char>) -> Option<Key> {
    if modifier_key_of(s) is Some {
        modifier_key_of(s)
    } else if letter_key_of(s) is Some {
        letter_key_of(s)
    } else if digit_key_of(s) is Some {
        digit_key_of(s)
    } else if function_key_of(s) is Some {
        function_key_of(s)
    } else if navigation_key_of(s) is Some {
        navigation_key_of(s)
    } else if punctuation_key_of(s) is Some {
        punctuation_key_of(s)
    } else {
        lock_key_of(s)
    }
}

/// A key name gives a modifier exactly when it is one of the eighteen
/// modifier names, spelled with this case: `Ctrl`, `Control`, `ControlLeft`,
/// `ControlRight`, `Alt`, `AltLeft`, `AltL`, `AltRight`, `AltR`, `AltGr`,
/// `Shift`, `ShiftLeft`, `ShiftRight`, `Meta`, `Win`, `Super`, `MetaLeft`,
/// `MetaRight`.
pub proof fn lemma_modifier_names(s: Seq<char>)
    ensures
        (key_of_name(s) matches Some(k) && is_modifier_key(k)) <==> {
            ||| s == "Ctrl"@
            ||| s == "Control"@
            ||| s == "ControlLeft"@
            ||| s == "ControlRight"@
            ||| s == "Alt"@
            ||| s == "AltLeft"@
            ||| s == "AltL"@
            ||| s == "AltRight"@
            ||| s == "AltR"@
            ||| s == "AltGr"@
            ||| s == "Shift"@
            ||| s == "ShiftLeft"@
            ||| s == "ShiftRight"@
            ||| s == "Meta"@
            ||| s == "Win"@
            ||| s == "Super"@
            ||| s == "MetaLeft"@
            ||| s == "MetaRight"@
        },
{
    if modifier_key_of(s) is None {
        assert(letter_key_of(s) matches Some(k) ==> !is_modifier_key(k));
        assert(digit_key_of(s) matches Some(k) ==> !is_modifier_key(k));
        assert(function_key_of(s) matches Some(k) ==> !is_modifier_key(k));
        assert(navigation_key_of(s) matches Some(k) ==> !is_modifier_key(k));
        assert(punctuation_key_of(s) matches Some(k) ==> !is_modifier_key(k));
        assert(lock_key_of(s) matches Some(k) ==> !is_modifier_key(k));
    }
}

fn key_of_chars(v: &Vec<char>) -> (res: Option<Key>)
    ensures
        res == key_of_name(v@),
{
    let m = modifier_key_of_chars(v);
    if m.is_some() {
        return m;
    }
    let l = letter_key_of_chars(v);
    if l.is_some() {
        return l;
    }
    let d = digit_key_of_chars(v);
    if d.is_some() {
        return d;
    }
    let f = function_key_of_chars(v);
    if f.is_some() {
        return f;
    }
    let n = navigation_key_of_chars(v);
    if n.is_some() {
        return n;
    }
    let p = punctuation_key_of_chars(v);
    if p.is_some() {
        return p;
    }
    lock_key_of_chars(v)
}

/// The key that a hotkey string names `s`, if any.
pub fn parse_key(s: &str) -> (res: Option<Key>)
    ensures
        res == key_of_name(s@),
{
    let v = chars_of(s);
    key_of_chars(&v)
}

/// The modifier keys: Control, Shift, Alt and the Windows keys.
pub open spec fn is_modifier_key(k: Key) -> bool {
    ||| k == Key::ControlLeft
    ||| k == Key::ControlRight
    ||| k == Key::ShiftLeft
    ||| k == Key::ShiftRight
    ||| k == Key::Alt
    ||| k == Key::AltGr
    ||| k == Key::MetaLeft
    ||| k == Key::MetaRight
}

pub fn is_modifier(key: &Key) -> (res: bool)
    ensures
        res == is_modifier_key(*key),
{
    match key {
        Key::ControlLeft | Key::ControlRight | Key::ShiftLeft | Key::ShiftRight | Key::Alt
        | Key::AltGr | Key::MetaLeft | Key::MetaRight => true,
        _ => false,
    }
}

/// Two keys match when they are equal; the left and right Control keys match
/// each other, and so do the left and right Shift keys.
pub open spec fn keys_match(a: Key, b: Key) -> bool {
    ||| a == b
    ||| (a == Key::ControlLeft && b == Key::ControlRight)
    ||| (a == Key::ControlRight && b == Key::ControlLeft)
    ||| (a == Key::ShiftLeft && b == Key::ShiftRight)
    ||| (a == Key::ShiftRight && b == Key::ShiftLeft)
}

pub fn key_match(a: &Key, b: &Key) -> (res: bool)
    ensures
        res == keys_match(*a, *b),
{
    match (a, b) {
        (Key::ControlLeft, Key::ControlRight) | (Key::ControlRight, Key::ControlLeft) => true,
        (Key::ShiftLeft, Key::ShiftRight) | (Key::ShiftRight, Key::ShiftLeft) => true,
        _ => *a == *b,
    }
}

/// Whether `k` occurs in `s`.
pub fn contains_key(s: &Vec<Key>, k: &Key) -> (res: bool)
    ensures
        res == s@.contains(*k),
{
    let mut i: usize = 0;
    while i < s.len()
        invariant
            i <= s.len(),
            forall|q: int| 0 <= q < i ==> s@[q] != *k,
        decreases s.len() - i,
    {
        if s[i] == *k {
            return true;
        }
        i = i + 1;
    }
    false
}

// ---------------------------------------------------------------------------
// Hotkey strings
// ---------------------------------------------------------------------------

/// A hotkey bound to a shortcut: the modifiers that must be held and the
/// keys that must be typed while they are held, in order.
#[derive(Debug)]
pub struct HotkeySequence {
    pub item_id: String,
    pub modifiers: Vec<Key>,
    pub keys: Vec<Key>,
}

/// The trimmed, non-empty pieces of `parts`, in order.
pub open spec fn trimmed_nonblank(parts: Seq<Seq<char>>) -> Seq<Seq<char>>
    decreases parts.len(),
{
    if parts.len() == 0 {
        Seq::empty()
    } else {
        let r = trimmed_nonblank(parts.drop_last());
        let t = trim_seq(parts.last());
        if t.len() == 0 {
            r
        } else {
            r.push(t)
        }
    }
}

/// The key names of a hotkey string: its pieces between `+`, trimmed, empty
/// ones left out.
pub open spec fn hotkey_parts(h: Seq<char>) -> Seq<Seq<char>> {
    trimmed_nonblank(split_seq(h, '+'))
}

/// The modifiers (each once, in first-seen order) and the other keys (in
/// order) that the key names `parts` give, or the first name that names no
/// key.
pub open spec fn parse_parts(parts: Seq<Seq<char>>) -> Result<(Seq<Key>, Seq<Key>), Seq<char>>
    decreases parts.len(),
{
    if parts.len() == 0 {
        Ok((Seq::empty(), Seq::empty()))
    } else {
        match parse_parts(parts.drop_last()) {
            Err(e) => Err(e),
            Ok((mods, keys)) => match key_of_name(parts.last()) {
                None => Err(parts.last()),
                Some(k) => if is_modifier_key(k) {
                    Ok((
                        if mods.contains(k) {
                            mods
                        } else {
                            mods.push(k)
                        },
                        keys,
                    ))
                } else {
                    Ok((mods, keys.push(k)))
                },
            },
        }
    }
}

/// What reading the hotkey string `h` gives: its modifiers and keys, or the
/// message that says why it is refused.
pub open spec fn hotkey_spec(h: Seq<char>) -> Result<(Seq<Key>, Seq<Key>), Seq<char>> {
    let parts = hotkey_parts(h);
    if parts.len() == 0 {
        Err("空快捷键"@)
    } else {
        match parse_parts(parts) {
            Err(p) => Err("无法解析按键: "@ + p),
            Ok((mods, keys)) => if keys.len() == 0 {
                Err("快捷键需要至少一个非修饰键"@)
            } else if mods.len() == 0 {
                Err("快捷键需要至少一个修饰键(Ctrl/Alt/Shift/Win)"@)
            } else {
                Ok((mods, keys))
            },
        }
    }
}

/// The key names of the hotkey string `h`.
fn hotkey_part_chars(h: &str) -> (res: Vec<Vec<char>>)
    ensures
        char_vecs_view(res@) == hotkey_parts(h@),
{
    let v = chars_of(h);
    let pieces = split_chars(&v, '+');
    let ghost pv = char_vecs_view(pieces@);
    let mut res: Vec<Vec<char>> = Vec::new();
    let mut i: usize = 0;
    assert(pv.subrange(0, 0) =~= Seq::<Seq<char>>::empty());
    assert(char_vecs_view(res@) =~= Seq::<Seq<char>>::empty());
    while i < pieces.len()
        invariant
            pv == char_vecs_view(pieces@),
            pv == split_seq(v@, '+'),
            v@ == h@,
            i <= pieces.len(),
            char_vecs_view(res@) == trimmed_nonblank(pv.subrange(0, i as int)),
        decreases pieces.len() - i,
    {
        let ghost pre = pv.subrange(0, i as int);
        let ghost next = pv.subrange(0, i + 1);
        assert(next.drop_last() =~= pre);
        assert(next.last() == pieces[i as int]@);
        let t = trim_chars(&pieces[i]);
        if t.len() > 0 {
            let ghost before = char_vecs_view(res@);
            let ghost tv = t@;
            res.push(t);
            assert(char_vecs_view(res@) =~= before.push(tv));
        }
        i = i + 1;
    }
    assert(pv.subrange(0, pieces.len() as int) =~= pv);
    res
}

impl HotkeySequence {
    /// Reads a hotkey string such as `Ctrl+Shift+K` for the shortcut
    /// `item_id`. The pieces between `+` are trimmed and empty ones skipped;
    /// each must name a key. Modifiers are kept once each, in the order they
    /// first appear; the other keys are kept in order. A hotkey needs at
    /// least one key and one modifier.
    pub fn from_hotkey_string(item_id: &str, hotkey: &str) -> (res: Result<Self, String>)
        ensures
            match res {
                Ok(seq) => {
                    &&& seq.item_id@ == item_id@
                    &&& hotkey_spec(hotkey@) == Ok::<(Seq<Key>, Seq<Key>), Seq<char>>(
                        (seq.modifiers@, seq.keys@),
                    )
                },
                Err(e) => hotkey_spec(hotkey@) == Err::<(Seq<Key>, Seq<Key>), Seq<char>>(e@),
            },
    {
        let parts = hotkey_part_chars(hotkey);
        let ghost pv = char_vecs_view(parts@);
        if parts.len() == 0 {
            return Err(String::from_str("空快捷键"));
        }
        let mut modifiers: Vec<Key> = Vec::new();
        let mut keys: Vec<Key> = Vec::new();
        let mut i: usize = 0;
        assert(pv.subrange(0, 0) =~= Seq::<Seq<char>>::empty());
        while i < parts.len()
            invariant
                pv == char_vecs_view(parts@),
                pv == hotkey_parts(hotkey@),
                i <= parts.len(),
                parse_parts(pv.subrange(0, i as int)) == Ok::<(Seq<Key>, Seq<Key>), Seq<char>>(
                    (modifiers@, keys@),
                ),
            decreases parts.len() - i,
        {
            let ghost pre = pv.subrange(0, i as int);
            let ghost next = pv.subrange(0, i + 1);
            assert(next.drop_last() =~= pre);
            assert(next.last() == parts[i as int]@);
            match key_of_chars(&parts[i]) {
                None => {
                    proof {
                        lemma_parse_parts_err_extends(pv, i as int + 1);
                    }
                    let mut msg = String::from_str("无法解析按键: ");
                    let name = string_of(&parts[i]);
                    push_str(&mut msg, name.as_str());
                    return Err(msg);
                },
                Some(key) => {
                    if is_modifier(&key) {
                        if !contains_key(&modifiers, &key) {
                            modifiers.push(key);
                        }
                    } else {
                        keys.push(key);
                    }
                },
            }
            i = i + 1;
        }
        assert(pv.subrange(0, parts.len() as int) =~= pv);
        if keys.len() == 0 {
            return Err(String::from_str("快捷键需要至少一个非修饰键"));
        }
        if modifiers.len() == 0 {
            return Err(String::from_str("快捷键需要至少一个修饰键(Ctrl/Alt/Shift/Win)"));
        }
        Ok(HotkeySequence { item_id: String::from_str(item_id), modifiers, keys })
    }
}

/// An error met in a prefix of the names stays the result of the whole.
proof fn lemma_parse_parts_err_extends(parts: Seq<Seq<char>>, i: int)
    requires
        0 <= i <= parts.len(),
        parse_parts(parts.subrange(0, i)) is Err,
    ensures
        parse_parts(parts) == parse_parts(parts.subrange(0, i)),
    decreases parts.len() - i,
{
    if i < parts.len() {
        let next = parts.subrange(0, i + 1);
        assert(next.drop_last() =~= parts.subrange(0, i));
        lemma_parse_parts_err_extends(parts, i + 1);
    } else {
        assert(parts.subrange(0, i) =~= parts);
    }
}

/// `s` holds no key twice.
pub open spec fn no_repeats(s: Seq<Key>) -> bool {
    forall|a: int, b: int| 0 <= a < b < s.len() ==> s[a] != s[b]
}

proof fn lemma_parse_parts_shape(parts: Seq<Seq<char>>)
    ensures
        parse_parts(parts) matches Ok((mods, keys)) ==> {
            &&& no_repeats(mods)
            &&& forall|q: int| 0 <= q < mods.len() ==> is_modifier_key(#[trigger] mods[q])
            &&& forall|q: int| 0 <= q < keys.len() ==> !is_modifier_key(#[trigger] keys[q])
        },
    decreases parts.len(),
{
    if parts.len() > 0 {
        lemma_parse_parts_shape(parts.drop_last());
    }
}

/// A hotkey string that is accepted names at least one modifier and one key;
/// its modifiers are modifiers, each once, and its keys are not modifiers.
pub proof fn lemma_hotkey_shape(h: Seq<char>)
    ensures
        hotkey_spec(h) matches Ok((mods, keys)) ==> {
            &&& mods.len() >= 1
            &&& keys.len() >= 1
            &&& no_repeats(mods)
            &&& forall|q: int| 0 <= q < mods.len() ==> is_modifier_key(#[trigger] mods[q])
            &&& forall|q: int| 0 <= q < keys.len() ==> !is_modifier_key(#[trigger] keys[q])
        },
{
    lemma_parse_parts_shape(hotkey_parts(h));
}

// ---------------------------------------------------------------------------
// The keyboard listener
// ---------------------------------------------------------------------------

/// `s` without any occurrence of `k`, order kept.
pub open spec fn remove_key(s: Seq<Key>, k: Key) -> Seq<Key>
    decreases s.len(),
{
    if s.len() == 0 {
        Seq::empty()
    } else if s[0] == k {
        remove_key(s.drop_first(), k)
    } else {
        seq![s[0]] + remove_key(s.drop_first(), k)
    }
}

/// What the listener holds between key events.
pub struct ListenerState {
    /// The modifiers held down now.
    pub active: Seq<Key>,
    /// The modifiers that were held when the current chord began.
    pub chord_modifiers: Seq<Key>,
    /// The keys typed since the current chord began.
    pub buffer: Seq<Key>,
}

/// The listener before any key event.
pub open spec fn idle_state() -> ListenerState {
    ListenerState { active: Seq::empty(), chord_modifiers: Seq::empty(), buffer: Seq::empty() }
}

/// A key going down: a modifier joins the held modifiers; another key joins
/// the chord while a modifier is held and is ignored otherwise. The chord
/// remembers the modifiers held when its first key went down.
pub open spec fn press_spec(s: ListenerState, key: Key) -> ListenerState {
    if is_modifier_key(key) {
        let active = if s.active.contains(key) {
            s.active
        } else {
            s.active.push(key)
        };
        ListenerState {
            active,
            chord_modifiers: if s.buffer.len() == 0 {
                active
            } else {
                s.chord_modifiers
            },
            buffer: s.buffer,
        }
    } else if s.active.len() > 0 {
        ListenerState {
            active: s.active,
            chord_modifiers: if s.buffer.len() == 0 {
                s.active
            } else {
                s.chord_modifiers
            },
            buffer: s.buffer.push(key),
        }
    } else {
        s
    }
}

/// A key going up: when the last held modifier is released after keys were
/// typed, the chord (its modifiers and keys) is complete and the listener
/// starts afresh.
pub open spec fn release_spec(s: ListenerState, key: Key) -> (ListenerState, Option<
    (Seq<Key>, Seq<Key>),
>) {
    if is_modifier_key(key) {
        let active = remove_key(s.active, key);
        if active.len() == 0 && s.buffer.len() > 0 {
            (
                ListenerState {
                    active,
                    chord_modifiers: Seq::empty(),
                    buffer: Seq::empty(),
                },
                Some((s.chord_modifiers, s.buffer)),
            )
        } else {
            (ListenerState { active, chord_modifiers: s.chord_modifiers, buffer: s.buffer }, None)
        }
    } else {
        (s, None)
    }
}

/// Collects key chords from key events: while at least one modifier is held,
/// the other keys typed form a chord, which is complete when the last
/// modifier goes up.
pub struct KeyListener {
    pub active_modifiers: Vec<Key>,
    pub sequence_modifiers: Vec<Key>,
    pub key_buffer: Vec<Key>,
}

impl View for KeyListener {
    type V = ListenerState;

    open spec fn view(&self) -> ListenerState {
        ListenerState {
            active: self.active_modifiers@,
            chord_modifiers: self.sequence_modifiers@,
            buffer: self.key_buffer@,
        }
    }
}

fn copy_keys(v: &Vec<Key>) -> (res: Vec<Key>)
    ensures
        res@ == v@,
{
    let mut res: Vec<Key> = Vec::new();
    let mut i: usize = 0;
    while i < v.len()
        invariant
            i <= v.len(),
            res@ == v@.subrange(0, i as int),
        decreases v.len() - i,
    {
        res.push(v[i]);
        assert(res@ =~= v@.subrange(0, i + 1));
        i = i + 1;
    }
    assert(v@.subrange(0, v.len() as int) =~= v@);
    res
}

proof fn lemma_remove_key_push(s: Seq<Key>, c: Key, k: Key)
    ensures
        remove_key(s.push(c), k) == if c == k {
            remove_key(s, k)
        } else {
            remove_key(s, k).push(c)
        },
    decreases s.len(),
{
    if s.len() == 0 {
        assert(s.push(c).drop_first() =~= Seq::<Key>::empty());
        assert(remove_key(Seq::<Key>::empty(), k) =~= Seq::<Key>::empty());
        assert(seq![c] + Seq::<Key>::empty() =~= Seq::<Key>::empty().push(c));
    } else {
        assert(s.push(c).drop_first() =~= s.drop_first().push(c));
        lemma_remove_key_push(s.drop_first(), c, k);
        if s[0] != k {
            assert(seq![s[0]] + remove_key(s.drop_first(), k).push(c) =~= (seq![s[0]]
                + remove_key(s.drop_first(), k)).push(c));
        }
    }
}

/// `s` without any occurrence of `k`.
fn without_key(s: &Vec<Key>, k: &Key) -> (res: Vec<Key>)
    ensures
        res@ == remove_key(s@, *k),
{
    let mut res: Vec<Key> = Vec::new();
    let mut i: usize = 0;
    assert(s@.subrange(0, 0) =~= Seq::<Key>::empty());
    while i < s.len()
        invariant
            i <= s.len(),
            res@ == remove_key(s@.subrange(0, i as int), *k),
        decreases s.len() - i,
    {
        proof {
            lemma_remove_key_push(s@.subrange(0, i as int), s@[i as int], *k);
            assert(s@.subrange(0, i as int).push(s@[i as int]) =~= s@.subrange(0, i + 1));
        }
        if s[i] != *k {
            res.push(s[i]);
        }
        i = i + 1;
    }
    assert(s@.subrange(0, s.len() as int) =~= s@);
    res
}

impl KeyListener {
    /// A listener before any key event.
    pub fn new() -> (res: Self)
        ensures
            res@ == idle_state(),
    {
        KeyListener { active_modifiers: Vec::new(), sequence_modifiers: Vec::new(), key_buffer: Vec::new() }
    }

    /// Handles a key going down.
    pub fn on_key_press(&mut self, key: Key)
        ensures
            final(self)@ == press_spec(old(self)@, key),
    {
        if is_modifier(&key) {
            if !contains_key(&self.active_modifiers, &key) {
                self.active_modifiers.push(key);
            }
            if self.key_buffer.len() == 0 {
                self.sequence_modifiers = copy_keys(&self.active_modifiers);
            }
        } else if self.active_modifiers.len() > 0 {
            if self.key_buffer.len() == 0 {
                self.sequence_modifiers = copy_keys(&self.active_modifiers);
            }
            self.key_buffer.push(key);
        }
    }

    /// Handles a key going up; gives the chord, its modifiers and its keys,
    /// when this release completes one.
    pub fn on_key_release(&mut self, key: Key) -> (res: Option<(Vec<Key>, Vec<Key>)>)
        ensures
            final(self)@ == release_spec(old(self)@, key).0,
            match res {
                Some((m, k)) => release_spec(old(self)@, key).1 == Some((m@, k@)),
                None => release_spec(old(self)@, key).1 is None,
            },
    {
        if is_modifier(&key) {
            self.active_modifiers = without_key(&self.active_modifiers, &key);
            if self.active_modifiers.len() == 0 && self.key_buffer.len() > 0 {
                let mut buffer: Vec<Key> = Vec::new();
                core::mem::swap(&mut buffer, &mut self.key_buffer);
                let mut modifiers: Vec<Key> = Vec::new();
                core::mem::swap(&mut modifiers, &mut self.sequence_modifiers);
                return Some((modifiers, buffer));
            }
        }
        None
    }
}

// ---------------------------------------------------------------------------
// Matching chords against the registered hotkeys
// ---------------------------------------------------------------------------

/// The number of different keys in `s`.
pub open spec fn distinct_count(s: Seq<Key>) -> nat
    decreases s.len(),
{
    if s.len() == 0 {
        0
    } else {
        distinct_count(s.drop_last()) + if s.drop_last().contains(s.last()) {
            0nat
        } else {
            1nat
        }
    }
}

/// Whether the hotkey with modifiers `mods` and keys `keys` is the chord
/// typed with `held` held and `typed` typed: as many modifiers as different
/// keys held, each matching a held key, and the keys matching the typed keys
/// one by one.
pub open spec fn sequence_matches(mods: Seq<Key>, keys: Seq<Key>, held: Seq<Key>, typed: Seq<
    Key,
>) -> bool {
    &&& mods.len() == distinct_count(held)
    &&& forall|q: int|
        0 <= q < mods.len() ==> exists|r: int| 0 <= r < held.len() && keys_match(#[trigger] mods[q], held[r])
    &&& keys.len() == typed.len()
    &&& forall|q: int| 0 <= q < keys.len() ==> keys_match(#[trigger] keys[q], typed[q])
}

fn distinct_keys(s: &Vec<Key>) -> (res: usize)
    ensures
        res == distinct_count(s@),
{
    let mut count: usize = 0;
    let mut i: usize = 0;
    assert(s@.subrange(0, 0) =~= Seq::<Key>::empty());
    while i < s.len()
        invariant
            i <= s.len(),
            count <= i,
            count == distinct_count(s@.subrange(0, i as int)),
        decreases s.len() - i,
    {
        let ghost pre = s@.subrange(0, i as int);
        let ghost next = s@.subrange(0, i + 1);
        assert(next.drop_last() =~= pre);
        let mut seen = false;
        let mut j: usize = 0;
        while j < i
            invariant
                i < s.len(),
                j <= i,
                pre == s@.subrange(0, i as int),
                seen == (exists|q: int| 0 <= q < j && s@[q] == s@[i as int]),
            decreases i - j,
        {
            if s[j] == s[i] {
                seen = true;
            }
            j = j + 1;
        }
        assert(seen == pre.contains(s@[i as int])) by {
            if seen {
                let q = choose|q: int| 0 <= q < i && s@[q] == s@[i as int];
                assert(pre[q] == s@[i as int]);
            }
            if pre.contains(s@[i as int]) {
                let q = choose|q: int| 0 <= q < pre.len() && pre[q] == s@[i as int];
                assert(s@[q] == s@[i as int]);
            }
        }
        if !seen {
            count = count + 1;
        }
        i = i + 1;
    }
    assert(s@.subrange(0, s.len() as int) =~= s@);
    count
}

/// Whether the hotkey `seq` is the chord typed with `held` held and `typed`
/// typed.
pub fn chord_matches(seq: &HotkeySequence, held: &Vec<Key>, typed: &Vec<Key>) -> (res: bool)
    ensures
        res == sequence_matches(seq.modifiers@, seq.keys@, held@, typed@),
{
    if seq.modifiers.len() != distinct_keys(held) {
        return false;
    }
    let mut q: usize = 0;
    while q < seq.modifiers.len()
        invariant
            q <= seq.modifiers.len(),
            forall|a: int|
                0 <= a < q ==> exists|r: int|
                    0 <= r < held.len() && keys_match(#[trigger] seq.modifiers@[a], held@[r]),
        decreases seq.modifiers.len() - q,
    {
        let mut found = false;
        let mut r: usize = 0;
        while r < held.len()
            invariant
                q < seq.modifiers.len(),
                r <= held.len(),
                found == (exists|b: int| 0 <= b < r && keys_match(seq.modifiers@[q as int], held@[b])),
            decreases held.len() - r,
        {
            if key_match(&seq.modifiers[q], &held[r]) {
                found = true;
            }
            r = r + 1;
        }
        if !found {
            return false;
        }
        q = q + 1;
    }
    if seq.keys.len() != typed.len() {
        return false;
    }
    let mut k: usize = 0;
    while k < seq.keys.len()
        invariant
            seq.keys.len() == typed.len(),
            k <= seq.keys.len(),
            forall|a: int| 0 <= a < k ==> keys_match(#[trigger] seq.keys@[a], typed@[a]),
        decreases seq.keys.len() - k,
    {
        if !key_match(&seq.keys[k], &typed[k]) {
            return false;
        }
        k = k + 1;
    }
    true
}

/// The first registered hotkey that the chord typed with `held` held and
/// `typed` typed completes, if any.
pub fn find_matching_sequence(sequences: &Vec<HotkeySequence>, held: &Vec<Key>, typed: &Vec<Key>) -> (res: Option<usize>)
    ensures
        match res {
            Some(i) => {
                &&& i < sequences.len()
                &&& sequence_matches(sequences@[i as int].modifiers@, sequences@[i as int].keys@, held@, typed@)
                &&& forall|j: int| 0 <= j < i ==> !sequence_matches(#[trigger] sequences@[j].modifiers@, sequences@[j].keys@, held@, typed@)
            },
            None => forall|j: int| 0 <= j < sequences.len() ==> !sequence_matches(#[trigger] sequences@[j].modifiers@, sequences@[j].keys@, held@, typed@),
        },
{
    let mut i: usize = 0;
    while i < sequences.len()
        invariant
            i <= sequences.len(),
            forall|j: int| 0 <= j < i ==> !sequence_matches(#[trigger] sequences@[j].modifiers@, sequences@[j].keys@, held@, typed@),
        decreases sequences.len() - i,
    {
        if chord_matches(&sequences[i], held, typed) {
            return Some(i);
        }
        i = i + 1;
    }
    None
}

// ---------------------------------------------------------------------------
// A bound hotkey fires when typed
// ---------------------------------------------------------------------------

/// The listener after the keys `ks` went down, one after another.
pub open spec fn press_all(s: ListenerState, ks: Seq<Key>) -> ListenerState
    decreases ks.len(),
{
    if ks.len() == 0 {
        s
    } else {
        press_spec(press_all(s, ks.drop_last()), ks.last())
    }
}

/// The listener after the keys `ks` went up, one after another, and the
/// chords that were completed on the way.
pub open spec fn release_all(s: ListenerState, ks: Seq<Key>) -> (ListenerState, Seq<
    (Seq<Key>, Seq<Key>),
>)
    decreases ks.len(),
{
    if ks.len() == 0 {
        (s, Seq::empty())
    } else {
        let (t, fired) = release_all(s, ks.drop_last());
        let (u, c) = release_spec(t, ks.last());
        (
            u,
            match c {
                Some(x) => fired.push(x),
                None => fired,
            },
        )
    }
}

proof fn lemma_press_modifiers(mods: Seq<Key>, i: int)
    requires
        0 <= i <= mods.len(),
        no_repeats(mods),
        forall|q: int| 0 <= q < mods.len() ==> is_modifier_key(#[trigger] mods[q]),
    ensures
        press_all(idle_state(), mods.take(i)) == (ListenerState {
            active: mods.take(i),
            chord_modifiers: mods.take(i),
            buffer: Seq::empty(),
        }),
    decreases i,
{
    if i == 0 {
        assert(mods.take(0) =~= Seq::<Key>::empty());
        assert(idle_state() == (ListenerState {
            active: mods.take(0),
            chord_modifiers: mods.take(0),
            buffer: Seq::empty(),
        }));
    } else {
        lemma_press_modifiers(mods, i - 1);
        assert(mods.take(i).drop_last() =~= mods.take(i - 1));
        assert(mods.take(i).last() == mods[i - 1]);
        assert(!mods.take(i - 1).contains(mods[i - 1])) by {
            if mods.take(i - 1).contains(mods[i - 1]) {
                let q = choose|q: int| 0 <= q < i - 1 && #[trigger] mods.take(i - 1)[q] == mods[i - 1];
                assert(mods[q] == mods[i - 1]);
            }
        }
        assert(mods.take(i - 1).push(mods[i - 1]) =~= mods.take(i));
    }
}

proof fn lemma_press_keys(mods: Seq<Key>, keys: Seq<Key>, j: int)
    requires
        0 <= j <= keys.len(),
        mods.len() >= 1,
        no_repeats(mods),
        forall|q: int| 0 <= q < mods.len() ==> is_modifier_key(#[trigger] mods[q]),
        forall|q: int| 0 <= q < keys.len() ==> !is_modifier_key(#[trigger] keys[q]),
    ensures
        press_all(idle_state(), mods + keys.take(j)) == (ListenerState {
            active: mods,
            chord_modifiers: mods,
            buffer: keys.take(j),
        }),
    decreases j,
{
    if j == 0 {
        assert(mods + keys.take(0) =~= mods.take(mods.len() as int));
        lemma_press_modifiers(mods, mods.len() as int);
        assert(mods.take(mods.len() as int) =~= mods);
        assert(keys.take(0) =~= Seq::<Key>::empty());
    } else {
        lemma_press_keys(mods, keys, j - 1);
        assert((mods + keys.take(j)).drop_last() =~= mods + keys.take(j - 1));
        assert((mods + keys.take(j)).last() == keys[j - 1]);
        assert(keys.take(j - 1).push(keys[j - 1]) =~= keys.take(j));
    }
}

proof fn lemma_remove_absent(s: Seq<Key>, k: Key)
    requires
        !s.contains(k),
    ensures
        remove_key(s, k) == s,
    decreases s.len(),
{
    if s.len() > 0 {
        assert(!s.drop_first().contains(k)) by {
            if s.drop_first().contains(k) {
                let q = choose|q: int| 0 <= q < s.drop_first().len() && s.drop_first()[q] == k;
                assert(s[q + 1] == k);
            }
        }
        lemma_remove_absent(s.drop_first(), k);
        assert(seq![s[0]] + s.drop_first() =~= s);
    }
}

proof fn lemma_release_modifiers(mods: Seq<Key>, keys: Seq<Key>, i: int)
    requires
        1 <= i <= mods.len(),
        keys.len() >= 1,
        no_repeats(mods),
        forall|q: int| 0 <= q < mods.len() ==> is_modifier_key(#[trigger] mods[q]),
    ensures
        i < mods.len() ==> release_all(
            ListenerState { active: mods, chord_modifiers: mods, buffer: keys },
            mods.take(i),
        ) == (ListenerState { active: mods.skip(i), chord_modifiers: mods, buffer: keys }, Seq::<
            (Seq<Key>, Seq<Key>),
        >::empty()),
        i == mods.len() ==> release_all(
            ListenerState { active: mods, chord_modifiers: mods, buffer: keys },
            mods.take(i),
        ) == (idle_state(), seq![(mods, keys)]),
    decreases i,
{
    let s0 = ListenerState { active: mods, chord_modifiers: mods, buffer: keys };
    let k = mods[i - 1];
    assert(mods.take(i).drop_last() =~= mods.take(i - 1));
    assert(mods.take(i).last() == k);
    let t = mods.skip(i - 1);
    assert(t[0] == k);
    assert(t.drop_first() =~= mods.skip(i));
    assert(!mods.skip(i).contains(k)) by {
        if mods.skip(i).contains(k) {
            let q = choose|q: int| 0 <= q < mods.skip(i).len() && mods.skip(i)[q] == k;
            assert(mods[q + i] == k);
        }
    }
    lemma_remove_absent(mods.skip(i), k);
    assert(remove_key(t, k) == mods.skip(i));
    if i == 1 {
        assert(mods.take(0) =~= Seq::<Key>::empty());
        assert(mods.skip(0) =~= mods);
        assert(release_all(s0, mods.take(0)) == (s0, Seq::<(Seq<Key>, Seq<Key>)>::empty()));
    } else {
        lemma_release_modifiers(mods, keys, i - 1);
    }
    if i == mods.len() {
        assert(mods.skip(i) =~= Seq::<Key>::empty());
        assert(Seq::<(Seq<Key>, Seq<Key>)>::empty().push((mods, keys)) =~= seq![(mods, keys)]);
    }
}

proof fn lemma_distinct_count_no_repeats(s: Seq<Key>)
    requires
        no_repeats(s),
    ensures
        distinct_count(s) == s.len(),
    decreases s.len(),
{
    if s.len() > 0 {
        let t = s.drop_last();
        assert(no_repeats(t)) by {
            assert forall|a: int, b: int| 0 <= a < b < t.len() implies t[a] != t[b] by {
                assert(t[a] == s[a] && t[b] == s[b]);
            }
        }
        lemma_distinct_count_no_repeats(t);
        assert(!t.contains(s.last())) by {
            if t.contains(s.last()) {
                let q = choose|q: int| 0 <= q < t.len() && t[q] == s.last();
                assert(s[q] == s[s.len() - 1]);
            }
        }
    }
}

/// A hotkey bound to a shortcut fires when it is typed: from an idle
/// listener, holding its modifiers down in order, typing its keys, then
/// releasing the modifiers in order completes exactly one chord, that chord
/// is the hotkey, it matches the hotkey, and the listener is idle again.
pub proof fn lemma_typed_hotkey_fires(mods: Seq<Key>, keys: Seq<Key>)
    requires
        mods.len() >= 1,
        keys.len() >= 1,
        no_repeats(mods),
        forall|q: int| 0 <= q < mods.len() ==> is_modifier_key(#[trigger] mods[q]),
        forall|q: int| 0 <= q < keys.len() ==> !is_modifier_key(#[trigger] keys[q]),
    ensures
        release_all(press_all(idle_state(), mods + keys), mods) == (idle_state(), seq![(mods, keys)]),
        sequence_matches(mods, keys, mods, keys),
{
    let held = ListenerState { active: mods, chord_modifiers: mods, buffer: keys };
    assert(press_all(idle_state(), mods + keys) == held) by {
        lemma_press_keys(mods, keys, keys.len() as int);
        assert(keys.take(keys.len() as int) =~= keys);
    }
    assert(release_all(held, mods) == (idle_state(), seq![(mods, keys)])) by {
        lemma_release_modifiers(mods, keys, mods.len() as int);
        assert(mods.take(mods.len() as int) =~= mods);
    }
    assert(sequence_matches(mods, keys, mods, keys)) by {
        lemma_distinct_count_no_repeats(mods);
        assert forall|q: int| 0 <= q < mods.len() implies exists|r: int|
            0 <= r < mods.len() && keys_match(#[trigger] mods[q], mods[r]) by {
            assert(keys_match(mods[q], mods[q]));
        }
    }
}

/// Every hotkey string that is accepted fires when typed (see
/// `lemma_typed_hotkey_fires`).
pub proof fn lemma_accepted_hotkey_fires(h: Seq<char>)
    requires
        hotkey_spec(h) is Ok,
    ensures
        hotkey_spec(h) matches Ok((mods, keys)) ==> {
            &&& release_all(press_all(idle_state(), mods + keys), mods) == (idle_state(), seq![(mods, keys)])
            &&& sequence_matches(mods, keys, mods, keys)
        },
{
    lemma_hotkey_shape(h);
    let (mods, keys) = hotkey_spec(h)->Ok_0;
    lemma_typed_hotkey_fires(mods, keys);
}

// ---------------------------------------------------------------------------
// Laws of the listener and of matching
// ---------------------------------------------------------------------------

proof fn lemma_remove_key_contains(s: Seq<Key>, k: Key, x: Key)
    ensures
        remove_key(s, k).contains(x) <==> (x != k && s.contains(x)),
    decreases s.len(),
{
    if s.len() > 0 {
        lemma_remove_key_contains(s.drop_first(), k, x);
        let r = remove_key(s.drop_first(), k);
        if s.contains(x) && x != k {
            let q = choose|q: int| 0 <= q < s.len() && s[q] == x;
            if q > 0 {
                assert(s.drop_first()[q - 1] == x);
            }
        }
        if s.drop_first().contains(x) {
            let q = choose|q: int| 0 <= q < s.drop_first().len() && s.drop_first()[q] == x;
            assert(s[q + 1] == x);
        }
        if s[0] != k {
            let t = seq![s[0]] + r;
            if t.contains(x) {
                let q = choose|q: int| 0 <= q < t.len() && t[q] == x;
                if q > 0 {
                    assert(r[q - 1] == x);
                } else {
                    assert(s[0] == x);
                }
            }
            if x == s[0] {
                assert(t[0] == x);
            }
            if r.contains(x) {
                let q = choose|q: int| 0 <= q < r.len() && r[q] == x;
                assert(t[q + 1] == x);
            }
        }
    }
}

/// A key going down:
/// - a modifier is held from then on, the others held stay held, and none
///   other joins; the typed keys do not change; until the chord's first key
///   goes down its modifiers are the ones held, and afterwards they stay;
/// - another key, while a modifier is held, is typed into the chord; when it
///   is the chord's first key, the chord's modifiers become exactly the
///   modifiers held at that moment, whatever was pressed and released
///   before; later keys leave them as they are;
/// - another key, while no modifier is held, changes nothing.
pub proof fn lemma_key_press(s: ListenerState, k: Key)
    ensures
        is_modifier_key(k) ==> {
            &&& press_spec(s, k).active.contains(k)
            &&& forall|x: Key| x != k ==> (press_spec(s, k).active.contains(x) <==> s.active.contains(x))
            &&& press_spec(s, k).buffer == s.buffer
            &&& s.buffer.len() == 0 ==> press_spec(s, k).chord_modifiers == press_spec(s, k).active
            &&& s.buffer.len() > 0 ==> press_spec(s, k).chord_modifiers == s.chord_modifiers
        },
        !is_modifier_key(k) && s.active.len() > 0 ==> {
            &&& press_spec(s, k).active == s.active
            &&& press_spec(s, k).buffer == s.buffer.push(k)
            &&& s.buffer.len() == 0 ==> press_spec(s, k).chord_modifiers == s.active
            &&& s.buffer.len() > 0 ==> press_spec(s, k).chord_modifiers == s.chord_modifiers
        },
        !is_modifier_key(k) && s.active.len() == 0 ==> press_spec(s, k) == s,
{
    if is_modifier_key(k) && !s.active.contains(k) {
        let a = s.active.push(k);
        assert(a[s.active.len() as int] == k);
        assert forall|x: Key| x != k implies (a.contains(x) <==> s.active.contains(x)) by {
            if a.contains(x) {
                let q = choose|q: int| 0 <= q < a.len() && a[q] == x;
                assert(s.active[q] == x);
            }
            if s.active.contains(x) {
                let q = choose|q: int| 0 <= q < s.active.len() && s.active[q] == x;
                assert(a[q] == x);
            }
        }
    }
}

/// A key going up:
/// - a key other than a modifier changes nothing and completes nothing;
/// - a modifier is no longer held (the others held stay held); when it was
///   the last one held and keys were typed, the chord completes: the
///   modifiers held when its first key went down and the keys typed, in
///   order, and the listener starts afresh; otherwise nothing completes and
///   the chord stays as it was.
pub proof fn lemma_key_release(s: ListenerState, k: Key)
    ensures
        !is_modifier_key(k) ==> release_spec(s, k) == (s, None::<(Seq<Key>, Seq<Key>)>),
        is_modifier_key(k) ==> {
            let (t, c) = release_spec(s, k);
            &&& !t.active.contains(k)
            &&& forall|x: Key| x != k ==> (t.active.contains(x) <==> s.active.contains(x))
            &&& (c is Some <==> (t.active.len() == 0 && s.buffer.len() > 0))
            &&& c is Some ==> {
                &&& c == Some((s.chord_modifiers, s.buffer))
                &&& t.buffer.len() == 0
                &&& t.chord_modifiers.len() == 0
            }
            &&& c is None ==> t.buffer == s.buffer && t.chord_modifiers == s.chord_modifiers
        },
{
    if is_modifier_key(k) {
        lemma_remove_key_contains(s.active, k, k);
        assert forall|x: Key| x != k implies (remove_key(s.active, k).contains(x) <==> s.active.contains(x)) by {
            lemma_remove_key_contains(s.active, k, x);
        }
    }
}

/// Left and right Control match each other, and so do left and right Shift;
/// every other key matches only itself.
pub proof fn lemma_keys_match(a: Key, b: Key)
    ensures
        keys_match(a, b) <==> {
            ||| a == b
            ||| (a == Key::ControlLeft || a == Key::ControlRight) && (b == Key::ControlLeft || b
                == Key::ControlRight)
            ||| (a == Key::ShiftLeft || a == Key::ShiftRight) && (b == Key::ShiftLeft || b
                == Key::ShiftRight)
        },
        keys_match(a, b) == keys_match(b, a),
{
}

proof fn lemma_distinct_count_set(s: Seq<Key>)
    ensures
        distinct_count(s) == s.to_set().len(),
    decreases s.len(),
{
    if s.len() == 0 {
        assert(s.to_set() =~= Set::<Key>::empty());
    } else {
        let t = s.drop_last();
        lemma_distinct_count_set(t);
        assert(s.to_set() =~= t.to_set().insert(s.last())) by {
            assert forall|x: Key| s.to_set().contains(x) <==> t.to_set().insert(s.last()).contains(x) by {
                if s.contains(x) {
                    let q = choose|q: int| 0 <= q < s.len() && s[q] == x;
                    if q < t.len() {
                        assert(t[q] == x);
                    }
                }
                if t.contains(x) {
                    let q = choose|q: int| 0 <= q < t.len() && t[q] == x;
                    assert(s[q] == x);
                }
                if x == s.last() {
                    assert(s[s.len() - 1] == x);
                }
            }
        }
        broadcast use vstd::seq_lib::seq_to_set_is_finite;
        if t.contains(s.last()) {
            assert(t.to_set().contains(s.last()));
        } else {
            assert(!t.to_set().contains(s.last()));
        }
    }
}

/// A hotkey matches a completed chord exactly when it names as many
/// modifiers as there were different keys held, each of them is held, it
/// has as many keys as were typed, and each of them is the key typed at the
/// same position (left and right Control, and left and right Shift, count
/// as the same key throughout).
pub proof fn lemma_chord_match(mods: Seq<Key>, keys: Seq<Key>, held: Seq<Key>, typed: Seq<Key>)
    ensures
        sequence_matches(mods, keys, held, typed) <==> {
            &&& mods.len() == held.to_set().len()
            &&& forall|q: int| 0 <= q < mods.len() ==> exists|r: int| 0 <= r < held.len() && keys_match(#[trigger] mods[q], held[r])
            &&& keys.len() == typed.len()
            &&& forall|q: int| 0 <= q < keys.len() ==> keys_match(#[trigger] keys[q], typed[q])
        },
{
    lemma_distinct_count_set(held);
}

// ---------------------------------------------------------------------------
// The key names
// ---------------------------------------------------------------------------

/// The characters of the modifier names.
proof fn lemma_modifier_name_texts()
    ensures
        "Ctrl"@.len() == 4 && "Ctrl"@[0] == 'C' && "Ctrl"@[1] == 't' && "Ctrl"@[2] == 'r' && "Ctrl"@[3] == 'l',
        "Control"@.len() == 7 && "Control"@[0] == 'C' && "Control"@[1] == 'o' && "Control"@[2] == 'n' && "Control"@[3] == 't' && "Control"@[4] == 'r' && "Control"@[5] == 'o' && "Control"@[6] == 'l',
        "ControlLeft"@.len() == 11 && "ControlLeft"@[0] == 'C' && "ControlLeft"@[1] == 'o' && "ControlLeft"@[2] == 'n' && "ControlLeft"@[3] == 't' && "ControlLeft"@[4] == 'r' && "ControlLeft"@[5] == 'o' && "ControlLeft"@[6] == 'l' && "ControlLeft"@[7] == 'L' && "ControlLeft"@[8] == 'e' && "ControlLeft"@[9] == 'f' && "ControlLeft"@[10] == 't',
        "ControlRight"@.len() == 12 && "ControlRight"@[0] == 'C' && "ControlRight"@[1] == 'o' && "ControlRight"@[2] == 'n' && "ControlRight"@[3] == 't' && "ControlRight"@[4] == 'r' && "ControlRight"@[5] == 'o' && "ControlRight"@[6] == 'l' && "ControlRight"@[7] == 'R' && "ControlRight"@[8] == 'i' && "ControlRight"@[9] == 'g' && "ControlRight"@[10] == 'h' && "ControlRight"@[11] == 't',
        "Alt"@.len() == 3 && "Alt"@[0] == 'A' && "Alt"@[1] == 'l' && "Alt"@[2] == 't',
        "AltLeft"@.len() == 7 && "AltLeft"@[0] == 'A' && "AltLeft"@[1] == 'l' && "AltLeft"@[2] == 't' && "AltLeft"@[3] == 'L' && "AltLeft"@[4] == 'e' && "AltLeft"@[5] == 'f' && "AltLeft"@[6] == 't',
        "AltL"@.len() == 4 && "AltL"@[0] == 'A' && "AltL"@[1] == 'l' && "AltL"@[2] == 't' && "AltL"@[3] == 'L',
        "AltRight"@.len() == 8 && "AltRight"@[0] == 'A' && "AltRight"@[1] == 'l' && "AltRight"@[2] == 't' && "AltRight"@[3] == 'R' && "AltRight"@[4] == 'i' && "AltRight"@[5] == 'g' && "AltRight"@[6] == 'h' && "AltRight"@[7] == 't',
        "AltR"@.len() == 4 && "AltR"@[0] == 'A' && "AltR"@[1] == 'l' && "AltR"@[2] == 't' && "AltR"@[3] == 'R',
        "AltGr"@.len() == 5 && "AltGr"@[0] == 'A' && "AltGr"@[1] == 'l' && "AltGr"@[2] == 't' && "AltGr"@[3] == 'G' && "AltGr"@[4] == 'r',
        "Shift"@.len() == 5 && "Shift"@[0] == 'S' && "Shift"@[1] == 'h' && "Shift"@[2] == 'i' && "Shift"@[3] == 'f' && "Shift"@[4] == 't',
        "ShiftLeft"@.len() == 9 && "ShiftLeft"@[0] == 'S' && "ShiftLeft"@[1] == 'h' && "ShiftLeft"@[2] == 'i' && "ShiftLeft"@[3] == 'f' && "ShiftLeft"@[4] == 't' && "ShiftLeft"@[5] == 'L' && "ShiftLeft"@[6] == 'e' && "ShiftLeft"@[7] == 'f' && "ShiftLeft"@[8] == 't',
        "ShiftRight"@.len() == 10 && "ShiftRight"@[0] == 'S' && "ShiftRight"@[1] == 'h' && "ShiftRight"@[2] == 'i' && "ShiftRight"@[3] == 'f' && "ShiftRight"@[4] == 't' && "ShiftRight"@[5] == 'R' && "ShiftRight"@[6] == 'i' && "ShiftRight"@[7] == 'g' && "ShiftRight"@[8] == 'h' && "ShiftRight"@[9] == 't',
        "Meta"@.len() == 4 && "Meta"@[0] == 'M' && "Meta"@[1] == 'e' && "Meta"@[2] == 't' && "Meta"@[3] == 'a',
        "Win"@.len() == 3 && "Win"@[0] == 'W' && "Win"@[1] == 'i' && "Win"@[2] == 'n',
        "Super"@.len() == 5 && "Super"@[0] == 'S' && "Super"@[1] == 'u' && "Super"@[2] == 'p' && "Super"@[3] == 'e' && "Super"@[4] == 'r',
        "MetaLeft"@.len() == 8 && "MetaLeft"@[0] == 'M' && "MetaLeft"@[1] == 'e' && "MetaLeft"@[2] == 't' && "MetaLeft"@[3] == 'a' && "MetaLeft"@[4] == 'L' && "MetaLeft"@[5] == 'e' && "MetaLeft"@[6] == 'f' && "MetaLeft"@[7] == 't',
        "MetaRight"@.len() == 9 && "MetaRight"@[0] == 'M' && "MetaRight"@[1] == 'e' && "MetaRight"@[2] == 't' && "MetaRight"@[3] == 'a' && "MetaRight"@[4] == 'R' && "MetaRight"@[5] == 'i' && "MetaRight"@[6] == 'g' && "MetaRight"@[7] == 'h' && "MetaRight"@[8] == 't',
{
    reveal_strlit("Ctrl");
    reveal_strlit("Control");
    reveal_strlit("ControlLeft");
    reveal_strlit("ControlRight");
    reveal_strlit("Alt");
    reveal_strlit("AltLeft");
    reveal_strlit("AltL");
    reveal_strlit("AltRight");
    reveal_strlit("AltR");
    reveal_strlit("AltGr");
    reveal_strlit("Shift");
    reveal_strlit("ShiftLeft");
    reveal_strlit("ShiftRight");
    reveal_strlit("Meta");
    reveal_strlit("Win");
    reveal_strlit("Super");
    reveal_strlit("MetaLeft");
    reveal_strlit("MetaRight");
}

/// The characters of the letter names.
proof fn lemma_letter_name_texts()
    ensures
        "KeyA"@.len() == 4 && "KeyA"@[0] == 'K' && "KeyA"@[1] == 'e' && "KeyA"@[2] == 'y' && "KeyA"@[3] == 'A',
        "A"@.len() == 1 && "A"@[0] == 'A',
        "KeyB"@.len() == 4 && "KeyB"@[0] == 'K' && "KeyB"@[1] == 'e' && "KeyB"@[2] == 'y' && "KeyB"@[3] == 'B',
        "B"@.len() == 1 && "B"@[0] == 'B',
        "KeyC"@.len() == 4 && "KeyC"@[0] == 'K' && "KeyC"@[1] == 'e' && "KeyC"@[2] == 'y' && "KeyC"@[3] == 'C',
        "C"@.len() == 1 && "C"@[0] == 'C',
        "KeyD"@.len() == 4 && "KeyD"@[0] == 'K' && "KeyD"@[1] == 'e' && "KeyD"@[2] == 'y' && "KeyD"@[3] == 'D',
        "D"@.len() == 1 && "D"@[0] == 'D',
        "KeyE"@.len() == 4 && "KeyE"@[0] == 'K' && "KeyE"@[1] == 'e' && "KeyE"@[2] == 'y' && "KeyE"@[3] == 'E',
        "E"@.len() == 1 && "E"@[0] == 'E',
        "KeyF"@.len() == 4 && "KeyF"@[0] == 'K' && "KeyF"@[1] == 'e' && "KeyF"@[2] == 'y' && "KeyF"@[3] == 'F',
        "F"@.len() == 1 && "F"@[0] == 'F',
        "KeyG"@.len() == 4 && "KeyG"@[0] == 'K' && "KeyG"@[1] == 'e' && "KeyG"@[2] == 'y' && "KeyG"@[3] == 'G',
        "G"@.len() == 1 && "G"@[0] == 'G',
        "KeyH"@.len() == 4 && "KeyH"@[0] == 'K' && "KeyH"@[1] == 'e' && "KeyH"@[2] == 'y' && "KeyH"@[3] == 'H',
        "H"@.len() == 1 && "H"@[0] == 'H',
        "KeyI"@.len() == 4 && "KeyI"@[0] == 'K' && "KeyI"@[1] == 'e' && "KeyI"@[2] == 'y' && "KeyI"@[3] == 'I',
        "I"@.len() == 1 && "I"@[0] == 'I',
        "KeyJ"@.len() == 4 && "KeyJ"@[0] == 'K' && "KeyJ"@[1] == 'e' && "KeyJ"@[2] == 'y' && "KeyJ"@[3] == 'J',
        "J"@.len() == 1 && "J"@[0] == 'J',
        "KeyK"@.len() == 4 && "KeyK"@[0] == 'K' && "KeyK"@[1] == 'e' && "KeyK"@[2] == 'y' && "KeyK"@[3] == 'K',
        "K"@.len() == 1 && "K"@[0] == 'K',
        "KeyL"@.len() == 4 && "KeyL"@[0] == 'K' && "KeyL"@[1] == 'e' && "KeyL"@[2] == 'y' && "KeyL"@[3] == 'L',
        "L"@.len() == 1 && "L"@[0] == 'L',
        "KeyM"@.len() == 4 && "KeyM"@[0] == 'K' && "KeyM"@[1] == 'e' && "KeyM"@[2] == 'y' && "KeyM"@[3] == 'M',
        "M"@.len() == 1 && "M"@[0] == 'M',
        "KeyN"@.len() == 4 && "KeyN"@[0] == 'K' && "KeyN"@[1] == 'e' && "KeyN"@[2] == 'y' && "KeyN"@[3] == 'N',
        "N"@.len() == 1 && "N"@[0] == 'N',
        "KeyO"@.len() == 4 && "KeyO"@[0] == 'K' && "KeyO"@[1] == 'e' && "KeyO"@[2] == 'y' && "KeyO"@[3] == 'O',
        "O"@.len() == 1 && "O"@[0] == 'O',
        "KeyP"@.len() == 4 && "KeyP"@[0] == 'K' && "KeyP"@[1] == 'e' && "KeyP"@[2] == 'y' && "KeyP"@[3] == 'P',
        "P"@.len() == 1 && "P"@[0] == 'P',
        "KeyQ"@.len() == 4 && "KeyQ"@[0] == 'K' && "KeyQ"@[1] == 'e' && "KeyQ"@[2] == 'y' && "KeyQ"@[3] == 'Q',
        "Q"@.len() == 1 && "Q"@[0] == 'Q',
        "KeyR"@.len() == 4 && "KeyR"@[0] == 'K' && "KeyR"@[1] == 'e' && "KeyR"@[2] == 'y' && "KeyR"@[3] == 'R',
        "R"@.len() == 1 && "R"@[0] == 'R',
        "KeyS"@.len() == 4 && "KeyS"@[0] == 'K' && "KeyS"@[1] == 'e' && "KeyS"@[2] == 'y' && "KeyS"@[3] == 'S',
        "S"@.len() == 1 && "S"@[0] == 'S',
        "KeyT"@.len() == 4 && "KeyT"@[0] == 'K' && "KeyT"@[1] == 'e' && "KeyT"@[2] == 'y' && "KeyT"@[3] == 'T',
        "T"@.len() == 1 && "T"@[0] == 'T',
        "KeyU"@.len() == 4 && "KeyU"@[0] == 'K' && "KeyU"@[1] == 'e' && "KeyU"@[2] == 'y' && "KeyU"@[3] == 'U',
        "U"@.len() == 1 && "U"@[0] == 'U',
        "KeyV"@.len() == 4 && "KeyV"@[0] == 'K' && "KeyV"@[1] == 'e' && "KeyV"@[2] == 'y' && "KeyV"@[3] == 'V',
        "V"@.len() == 1 && "V"@[0] == 'V',
        "KeyW"@.len() == 4 && "KeyW"@[0] == 'K' && "KeyW"@[1] == 'e' && "KeyW"@[2] == 'y' && "KeyW"@[3] == 'W',
        "W"@.len() == 1 && "W"@[0] == 'W',
        "KeyX"@.len() == 4 && "KeyX"@[0] == 'K' && "KeyX"@[1] == 'e' && "KeyX"@[2] == 'y' && "KeyX"@[3] == 'X',
        "X"@.len() == 1 && "X"@[0] == 'X',
        "KeyY"@.len() == 4 && "KeyY"@[0] == 'K' && "KeyY"@[1] == 'e' && "KeyY"@[2] == 'y' && "KeyY"@[3] == 'Y',
        "Y"@.len() == 1 && "Y"@[0] == 'Y',
        "KeyZ"@.len() == 4 && "KeyZ"@[0] == 'K' && "KeyZ"@[1] == 'e' && "KeyZ"@[2] == 'y' && "KeyZ"@[3] == 'Z',
        "Z"@.len() == 1 && "Z"@[0] == 'Z',
{
    reveal_strlit("KeyA");
    reveal_strlit("A");
    reveal_strlit("KeyB");
    reveal_strlit("B");
    reveal_strlit("KeyC");
    reveal_strlit("C");
    reveal_strlit("KeyD");
    reveal_strlit("D");
    reveal_strlit("KeyE");
    reveal_strlit("E");
    reveal_strlit("KeyF");
    reveal_strlit("F");
    reveal_strlit("KeyG");
    reveal_strlit("G");
    reveal_strlit("KeyH");
    reveal_strlit("H");
    reveal_strlit("KeyI");
    reveal_strlit("I");
    reveal_strlit("KeyJ");
    reveal_strlit("J");
    reveal_strlit("KeyK");
    reveal_strlit("K");
    reveal_strlit("KeyL");
    reveal_strlit("L");
    reveal_strlit("KeyM");
    reveal_strlit("M");
    reveal_strlit("KeyN");
    reveal_strlit("N");
    reveal_strlit("KeyO");
    reveal_strlit("O");
    reveal_strlit("KeyP");
    reveal_strlit("P");
    reveal_strlit("KeyQ");
    reveal_strlit("Q");
    reveal_strlit("KeyR");
    reveal_strlit("R");
    reveal_strlit("KeyS");
    reveal_strlit("S");
    reveal_strlit("KeyT");
    reveal_strlit("T");
    reveal_strlit("KeyU");
    reveal_strlit("U");
    reveal_strlit("KeyV");
    reveal_strlit("V");
    reveal_strlit("KeyW");
    reveal_strlit("W");
    reveal_strlit("KeyX");
    reveal_strlit("X");
    reveal_strlit("KeyY");
    reveal_strlit("Y");
    reveal_strlit("KeyZ");
    reveal_strlit("Z");
}

/// The characters of the digit names.
proof fn lemma_digit_name_texts()
    ensures
        "Digit0"@.len() == 6 && "Digit0"@[0] == 'D' && "Digit0"@[1] == 'i' && "Digit0"@[2] == 'g' && "Digit0"@[3] == 'i' && "Digit0"@[4] == 't' && "Digit0"@[5] == '0',
        "0"@.len() == 1 && "0"@[0] == '0',
        "Digit1"@.len() == 6 && "Digit1"@[0] == 'D' && "Digit1"@[1] == 'i' && "Digit1"@[2] == 'g' && "Digit1"@[3] == 'i' && "Digit1"@[4] == 't' && "Digit1"@[5] == '1',
        "1"@.len() == 1 && "1"@[0] == '1',
        "Digit2"@.len() == 6 && "Digit2"@[0] == 'D' && "Digit2"@[1] == 'i' && "Digit2"@[2] == 'g' && "Digit2"@[3] == 'i' && "Digit2"@[4] == 't' && "Digit2"@[5] == '2',
        "2"@.len() == 1 && "2"@[0] == '2',
        "Digit3"@.len() == 6 && "Digit3"@[0] == 'D' && "Digit3"@[1] == 'i' && "Digit3"@[2] == 'g' && "Digit3"@[3] == 'i' && "Digit3"@[4] == 't' && "Digit3"@[5] == '3',
        "3"@.len() == 1 && "3"@[0] == '3',
        "Digit4"@.len() == 6 && "Digit4"@[0] == 'D' && "Digit4"@[1] == 'i' && "Digit4"@[2] == 'g' && "Digit4"@[3] == 'i' && "Digit4"@[4] == 't' && "Digit4"@[5] == '4',
        "4"@.len() == 1 && "4"@[0] == '4',
        "Digit5"@.len() == 6 && "Digit5"@[0] == 'D' && "Digit5"@[1] == 'i' && "Digit5"@[2] == 'g' && "Digit5"@[3] == 'i' && "Digit5"@[4] == 't' && "Digit5"@[5] == '5',
        "5"@.len() == 1 && "5"@[0] == '5',
        "Digit6"@.len() == 6 && "Digit6"@[0] == 'D' && "Digit6"@[1] == 'i' && "Digit6"@[2] == 'g' && "Digit6"@[3] == 'i' && "Digit6"@[4] == 't' && "Digit6"@[5] == '6',
        "6"@.len() == 1 && "6"@[0] == '6',
        "Digit7"@.len() == 6 && "Digit7"@[0] == 'D' && "Digit7"@[1] == 'i' && "Digit7"@[2] == 'g' && "Digit7"@[3] == 'i' && "Digit7"@[4] == 't' && "Digit7"@[5] == '7',
        "7"@.len() == 1 && "7"@[0] == '7',
        "Digit8"@.len() == 6 && "Digit8"@[0] == 'D' && "Digit8"@[1] == 'i' && "Digit8"@[2] == 'g' && "Digit8"@[3] == 'i' && "Digit8"@[4] == 't' && "Digit8"@[5] == '8',
        "8"@.len() == 1 && "8"@[0] == '8',
        "Digit9"@.len() == 6 && "Digit9"@[0] == 'D' && "Digit9"@[1] == 'i' && "Digit9"@[2] == 'g' && "Digit9"@[3] == 'i' && "Digit9"@[4] == 't' && "Digit9"@[5] == '9',
        "9"@.len() == 1 && "9"@[0] == '9',
        "Numpad0"@.len() == 7 && "Numpad0"@[0] == 'N' && "Numpad0"@[1] == 'u' && "Numpad0"@[2] == 'm' && "Numpad0"@[3] == 'p' && "Numpad0"@[4] == 'a' && "Numpad0"@[5] == 'd' && "Numpad0"@[6] == '0',
        "Numpad1"@.len() == 7 && "Numpad1"@[0] == 'N' && "Numpad1"@[1] == 'u' && "Numpad1"@[2] == 'm' && "Numpad1"@[3] == 'p' && "Numpad1"@[4] == 'a' && "Numpad1"@[5] == 'd' && "Numpad1"@[6] == '1',
        "Numpad2"@.len() == 7 && "Numpad2"@[0] == 'N' && "Numpad2"@[1] == 'u' && "Numpad2"@[2] == 'm' && "Numpad2"@[3] == 'p' && "Numpad2"@[4] == 'a' && "Numpad2"@[5] == 'd' && "Numpad2"@[6] == '2',
        "Numpad3"@.len() == 7 && "Numpad3"@[0] == 'N' && "Numpad3"@[1] == 'u' && "Numpad3"@[2] == 'm' && "Numpad3"@[3] == 'p' && "Numpad3"@[4] == 'a' && "Numpad3"@[5] == 'd' && "Numpad3"@[6] == '3',
        "Numpad4"@.len() == 7 && "Numpad4"@[0] == 'N' && "Numpad4"@[1] == 'u' && "Numpad4"@[2] == 'm' && "Numpad4"@[3] == 'p' && "Numpad4"@[4] == 'a' && "Numpad4"@[5] == 'd' && "Numpad4"@[6] == '4',
        "Numpad5"@.len() == 7 && "Numpad5"@[0] == 'N' && "Numpad5"@[1] == 'u' && "Numpad5"@[2] == 'm' && "Numpad5"@[3] == 'p' && "Numpad5"@[4] == 'a' && "Numpad5"@[5] == 'd' && "Numpad5"@[6] == '5',
        "Numpad6"@.len() == 7 && "Numpad6"@[0] == 'N' && "Numpad6"@[1] == 'u' && "Numpad6"@[2] == 'm' && "Numpad6"@[3] == 'p' && "Numpad6"@[4] == 'a' && "Numpad6"@[5] == 'd' && "Numpad6"@[6] == '6',
        "Numpad7"@.len() == 7 && "Numpad7"@[0] == 'N' && "Numpad7"@[1] == 'u' && "Numpad7"@[2] == 'm' && "Numpad7"@[3] == 'p' && "Numpad7"@[4] == 'a' && "Numpad7"@[5] == 'd' && "Numpad7"@[6] == '7',
        "Numpad8"@.len() == 7 && "Numpad8"@[0] == 'N' && "Numpad8"@[1] == 'u' && "Numpad8"@[2] == 'm' && "Numpad8"@[3] == 'p' && "Numpad8"@[4] == 'a' && "Numpad8"@[5] == 'd' && "Numpad8"@[6] == '8',
        "Numpad9"@.len() == 7 && "Numpad9"@[0] == 'N' && "Numpad9"@[1] == 'u' && "Numpad9"@[2] == 'm' && "Numpad9"@[3] == 'p' && "Numpad9"@[4] == 'a' && "Numpad9"@[5] == 'd' && "Numpad9"@[6] == '9',
{
    reveal_strlit("Digit0");
    reveal_strlit("0");
    reveal_strlit("Digit1");
    reveal_strlit("1");
    reveal_strlit("Digit2");
    reveal_strlit("2");
    reveal_strlit("Digit3");
    reveal_strlit("3");
    reveal_strlit("Digit4");
    reveal_strlit("4");
    reveal_strlit("Digit5");
    reveal_strlit("5");
    reveal_strlit("Digit6");
    reveal_strlit("6");
    reveal_strlit("Digit7");
    reveal_strlit("7");
    reveal_strlit("Digit8");
    reveal_strlit("8");
    reveal_strlit("Digit9");
    reveal_strlit("9");
    reveal_strlit("Numpad0");
    reveal_strlit("Numpad1");
    reveal_strlit("Numpad2");
    reveal_strlit("Numpad3");
    reveal_strlit("Numpad4");
    reveal_strlit("Numpad5");
    reveal_strlit("Numpad6");
    reveal_strlit("Numpad7");
    reveal_strlit("Numpad8");
    reveal_strlit("Numpad9");
}

/// The characters of the function key names.
proof fn lemma_function_key_name_texts()
    ensures
        "F1"@.len() == 2 && "F1"@[0] == 'F' && "F1"@[1] == '1',
        "F2"@.len() == 2 && "F2"@[0] == 'F' && "F2"@[1] == '2',
        "F3"@.len() == 2 && "F3"@[0] == 'F' && "F3"@[1] == '3',
        "F4"@.len() == 2 && "F4"@[0] == 'F' && "F4"@[1] == '4',
        "F5"@.len() == 2 && "F5"@[0] == 'F' && "F5"@[1] == '5',
        "F6"@.len() == 2 && "F6"@[0] == 'F' && "F6"@[1] == '6',
        "F7"@.len() == 2 && "F7"@[0] == 'F' && "F7"@[1] == '7',
        "F8"@.len() == 2 && "F8"@[0] == 'F' && "F8"@[1] == '8',
        "F9"@.len() == 2 && "F9"@[0] == 'F' && "F9"@[1] == '9',
        "F10"@.len() == 3 && "F10"@[0] == 'F' && "F10"@[1] == '1' && "F10"@[2] == '0',
        "F11"@.len() == 3 && "F11"@[0] == 'F' && "F11"@[1] == '1' && "F11"@[2] == '1',
        "F12"@.len() == 3 && "F12"@[0] == 'F' && "F12"@[1] == '1' && "F12"@[2] == '2',
{
    reveal_strlit("F1");
    reveal_strlit("F2");
    reveal_strlit("F3");
    reveal_strlit("F4");
    reveal_strlit("F5");
    reveal_strlit("F6");
    reveal_strlit("F7");
    reveal_strlit("F8");
    reveal_strlit("F9");
    reveal_strlit("F10");
    reveal_strlit("F11");
    reveal_strlit("F12");
}

/// The characters of the navigation key names.
proof fn lemma_navigation_key_name_texts()
    ensures
        "Space"@.len() == 5 && "Space"@[0] == 'S' && "Space"@[1] == 'p' && "Space"@[2] == 'a' && "Space"@[3] == 'c' && "Space"@[4] == 'e',
        "Enter"@.len() == 5 && "Enter"@[0] == 'E' && "Enter"@[1] == 'n' && "Enter"@[2] == 't' && "Enter"@[3] == 'e' && "Enter"@[4] == 'r',
        "Return"@.len() == 6 && "Return"@[0] == 'R' && "Return"@[1] == 'e' && "Return"@[2] == 't' && "Return"@[3] == 'u' && "Return"@[4] == 'r' && "Return"@[5] == 'n',
        "Tab"@.len() == 3 && "Tab"@[0] == 'T' && "Tab"@[1] == 'a' && "Tab"@[2] == 'b',
        "Escape"@.len() == 6 && "Escape"@[0] == 'E' && "Escape"@[1] == 's' && "Escape"@[2] == 'c' && "Escape"@[3] == 'a' && "Escape"@[4] == 'p' && "Escape"@[5] == 'e',
        "Esc"@.len() == 3 && "Esc"@[0] == 'E' && "Esc"@[1] == 's' && "Esc"@[2] == 'c',
        "Backspace"@.len() == 9 && "Backspace"@[0] == 'B' && "Backspace"@[1] == 'a' && "Backspace"@[2] == 'c' && "Backspace"@[3] == 'k' && "Backspace"@[4] == 's' && "Backspace"@[5] == 'p' && "Backspace"@[6] == 'a' && "Backspace"@[7] == 'c' && "Backspace"@[8] == 'e',
        "Delete"@.len() == 6 && "Delete"@[0] == 'D' && "Delete"@[1] == 'e' && "Delete"@[2] == 'l' && "Delete"@[3] == 'e' && "Delete"@[4] == 't' && "Delete"@[5] == 'e',
        "Del"@.len() == 3 && "Del"@[0] == 'D' && "Del"@[1] == 'e' && "Del"@[2] == 'l',
        "Insert"@.len() == 6 && "Insert"@[0] == 'I' && "Insert"@[1] == 'n' && "Insert"@[2] == 's' && "Insert"@[3] == 'e' && "Insert"@[4] == 'r' && "Insert"@[5] == 't',
        "Ins"@.len() == 3 && "Ins"@[0] == 'I' && "Ins"@[1] == 'n' && "Ins"@[2] == 's',
        "Home"@.len() == 4 && "Home"@[0] == 'H' && "Home"@[1] == 'o' && "Home"@[2] == 'm' && "Home"@[3] == 'e',
        "End"@.len() == 3 && "End"@[0] == 'E' && "End"@[1] == 'n' && "End"@[2] == 'd',
        "PageUp"@.len() == 6 && "PageUp"@[0] == 'P' && "PageUp"@[1] == 'a' && "PageUp"@[2] == 'g' && "PageUp"@[3] == 'e' && "PageUp"@[4] == 'U' && "PageUp"@[5] == 'p',
        "PageDown"@.len() == 8 && "PageDown"@[0] == 'P' && "PageDown"@[1] == 'a' && "PageDown"@[2] == 'g' && "PageDown"@[3] == 'e' && "PageDown"@[4] == 'D' && "PageDown"@[5] == 'o' && "PageDown"@[6] == 'w' && "PageDown"@[7] == 'n',
        "ArrowUp"@.len() == 7 && "ArrowUp"@[0] == 'A' && "ArrowUp"@[1] == 'r' && "ArrowUp"@[2] == 'r' && "ArrowUp"@[3] == 'o' && "ArrowUp"@[4] == 'w' && "ArrowUp"@[5] == 'U' && "ArrowUp"@[6] == 'p',
        "Up"@.len() == 2 && "Up"@[0] == 'U' && "Up"@[1] == 'p',
        "ArrowDown"@.len() == 9 && "ArrowDown"@[0] == 'A' && "ArrowDown"@[1] == 'r' && "ArrowDown"@[2] == 'r' && "ArrowDown"@[3] == 'o' && "ArrowDown"@[4] == 'w' && "ArrowDown"@[5] == 'D' && "ArrowDown"@[6] == 'o' && "ArrowDown"@[7] == 'w' && "ArrowDown"@[8] == 'n',
        "Down"@.len() == 4 && "Down"@[0] == 'D' && "Down"@[1] == 'o' && "Down"@[2] == 'w' && "Down"@[3] == 'n',
        "ArrowLeft"@.len() == 9 && "ArrowLeft"@[0] == 'A' && "ArrowLeft"@[1] == 'r' && "ArrowLeft"@[2] == 'r' && "ArrowLeft"@[3] == 'o' && "ArrowLeft"@[4] == 'w' && "ArrowLeft"@[5] == 'L' && "ArrowLeft"@[6] == 'e' && "ArrowLeft"@[7] == 'f' && "ArrowLeft"@[8] == 't',
        "Left"@.len() == 4 && "Left"@[0] == 'L' && "Left"@[1] == 'e' && "Left"@[2] == 'f' && "Left"@[3] == 't',
        "ArrowRight"@.len() == 10 && "ArrowRight"@[0] == 'A' && "ArrowRight"@[1] == 'r' && "ArrowRight"@[2] == 'r' && "ArrowRight"@[3] == 'o' && "ArrowRight"@[4] == 'w' && "ArrowRight"@[5] == 'R' && "ArrowRight"@[6] == 'i' && "ArrowRight"@[7] == 'g' && "ArrowRight"@[8] == 'h' && "ArrowRight"@[9] == 't',
        "Right"@.len() == 5 && "Right"@[0] == 'R' && "Right"@[1] == 'i' && "Right"@[2] == 'g' && "Right"@[3] == 'h' && "Right"@[4] == 't',
{
    reveal_strlit("Space");
    reveal_strlit("Enter");
    reveal_strlit("Return");
    reveal_strlit("Tab");
    reveal_strlit("Escape");
    reveal_strlit("Esc");
    reveal_strlit("Backspace");
    reveal_strlit("Delete");
    reveal_strlit("Del");
    reveal_strlit("Insert");
    reveal_strlit("Ins");
    reveal_strlit("Home");
    reveal_strlit("End");
    reveal_strlit("PageUp");
    reveal_strlit("PageDown");
    reveal_strlit("ArrowUp");
    reveal_strlit("Up");
    reveal_strlit("ArrowDown");
    reveal_strlit("Down");
    reveal_strlit("ArrowLeft");
    reveal_strlit("Left");
    reveal_strlit("ArrowRight");
    reveal_strlit("Right");
}

/// The characters of the punctuation key names.
proof fn lemma_punctuation_key_name_texts()
    ensures
        "Minus"@.len() == 5 && "Minus"@[0] == 'M' && "Minus"@[1] == 'i' && "Minus"@[2] == 'n' && "Minus"@[3] == 'u' && "Minus"@[4] == 's',
        "-"@.len() == 1 && "-"@[0] == '-',
        "Equal"@.len() == 5 && "Equal"@[0] == 'E' && "Equal"@[1] == 'q' && "Equal"@[2] == 'u' && "Equal"@[3] == 'a' && "Equal"@[4] == 'l',
        "="@.len() == 1 && "="@[0] == '=',
        "BracketLeft"@.len() == 11 && "BracketLeft"@[0] == 'B' && "BracketLeft"@[1] == 'r' && "BracketLeft"@[2] == 'a' && "BracketLeft"@[3] == 'c' && "BracketLeft"@[4] == 'k' && "BracketLeft"@[5] == 'e' && "BracketLeft"@[6] == 't' && "BracketLeft"@[7] == 'L' && "BracketLeft"@[8] == 'e' && "BracketLeft"@[9] == 'f' && "BracketLeft"@[10] == 't',
        "["@.len() == 1 && "["@[0] == '[',
        "BracketRight"@.len() == 12 && "BracketRight"@[0] == 'B' && "BracketRight"@[1] == 'r' && "BracketRight"@[2] == 'a' && "BracketRight"@[3] == 'c' && "BracketRight"@[4] == 'k' && "BracketRight"@[5] == 'e' && "BracketRight"@[6] == 't' && "BracketRight"@[7] == 'R' && "BracketRight"@[8] == 'i' && "BracketRight"@[9] == 'g' && "BracketRight"@[10] == 'h' && "BracketRight"@[11] == 't',
        "]"@.len() == 1 && "]"@[0] == ']',
        "Backslash"@.len() == 9 && "Backslash"@[0] == 'B' && "Backslash"@[1] == 'a' && "Backslash"@[2] == 'c' && "Backslash"@[3] == 'k' && "Backslash"@[4] == 's' && "Backslash"@[5] == 'l' && "Backslash"@[6] == 'a' && "Backslash"@[7] == 's' && "Backslash"@[8] == 'h',
        "\\"@.len() == 1 && "\\"@[0] == '\\',
        "Semicolon"@.len() == 9 && "Semicolon"@[0] == 'S' && "Semicolon"@[1] == 'e' && "Semicolon"@[2] == 'm' && "Semicolon"@[3] == 'i' && "Semicolon"@[4] == 'c' && "Semicolon"@[5] == 'o' && "Semicolon"@[6] == 'l' && "Semicolon"@[7] == 'o' && "Semicolon"@[8] == 'n',
        ";"@.len() == 1 && ";"@[0] == ';',
        "Quote"@.len() == 5 && "Quote"@[0] == 'Q' && "Quote"@[1] == 'u' && "Quote"@[2] == 'o' && "Quote"@[3] == 't' && "Quote"@[4] == 'e',
        "'"@.len() == 1 && "'"@[0] == '\'',
        "Comma"@.len() == 5 && "Comma"@[0] == 'C' && "Comma"@[1] == 'o' && "Comma"@[2] == 'm' && "Comma"@[3] == 'm' && "Comma"@[4] == 'a',
        ","@.len() == 1 && ","@[0] == ',',
        "Period"@.len() == 6 && "Period"@[0] == 'P' && "Period"@[1] == 'e' && "Period"@[2] == 'r' && "Period"@[3] == 'i' && "Period"@[4] == 'o' && "Period"@[5] == 'd',
        "."@.len() == 1 && "."@[0] == '.',
        "Slash"@.len() == 5 && "Slash"@[0] == 'S' && "Slash"@[1] == 'l' && "Slash"@[2] == 'a' && "Slash"@[3] == 's' && "Slash"@[4] == 'h',
        "/"@.len() == 1 && "/"@[0] == '/',
        "Backquote"@.len() == 9 && "Backquote"@[0] == 'B' && "Backquote"@[1] == 'a' && "Backquote"@[2] == 'c' && "Backquote"@[3] == 'k' && "Backquote"@[4] == 'q' && "Backquote"@[5] == 'u' && "Backquote"@[6] == 'o' && "Backquote"@[7] == 't' && "Backquote"@[8] == 'e',
        "`"@.len() == 1 && "`"@[0] == '`',
{
    reveal_strlit("Minus");
    reveal_strlit("-");
    reveal_strlit("Equal");
    reveal_strlit("=");
    reveal_strlit("BracketLeft");
    reveal_strlit("[");
    reveal_strlit("BracketRight");
    reveal_strlit("]");
    reveal_strlit("Backslash");
    reveal_strlit("\\");
    reveal_strlit("Semicolon");
    reveal_strlit(";");
    reveal_strlit("Quote");
    reveal_strlit("'");
    reveal_strlit("Comma");
    reveal_strlit(",");
    reveal_strlit("Period");
    reveal_strlit(".");
    reveal_strlit("Slash");
    reveal_strlit("/");
    reveal_strlit("Backquote");
    reveal_strlit("`");
}

/// The characters of the lock key names.
proof fn lemma_lock_key_name_texts()
    ensures
        "CapsLock"@.len() == 8 && "CapsLock"@[0] == 'C' && "CapsLock"@[1] == 'a' && "CapsLock"@[2] == 'p' && "CapsLock"@[3] == 's' && "CapsLock"@[4] == 'L' && "CapsLock"@[5] == 'o' && "CapsLock"@[6] == 'c' && "CapsLock"@[7] == 'k',
        "PrintScreen"@.len() == 11 && "PrintScreen"@[0] == 'P' && "PrintScreen"@[1] == 'r' && "PrintScreen"@[2] == 'i' && "PrintScreen"@[3] == 'n' && "PrintScreen"@[4] == 't' && "PrintScreen"@[5] == 'S' && "PrintScreen"@[6] == 'c' && "PrintScreen"@[7] == 'r' && "PrintScreen"@[8] == 'e' && "PrintScreen"@[9] == 'e' && "PrintScreen"@[10] == 'n',
        "ScrollLock"@.len() == 10 && "ScrollLock"@[0] == 'S' && "ScrollLock"@[1] == 'c' && "ScrollLock"@[2] == 'r' && "ScrollLock"@[3] == 'o' && "ScrollLock"@[4] == 'l' && "ScrollLock"@[5] == 'l' && "ScrollLock"@[6] == 'L' && "ScrollLock"@[7] == 'o' && "ScrollLock"@[8] == 'c' && "ScrollLock"@[9] == 'k',
        "Pause"@.len() == 5 && "Pause"@[0] == 'P' && "Pause"@[1] == 'a' && "Pause"@[2] == 'u' && "Pause"@[3] == 's' && "Pause"@[4] == 'e',
        "NumLock"@.len() == 7 && "NumLock"@[0] == 'N' && "NumLock"@[1] == 'u' && "NumLock"@[2] == 'm' && "NumLock"@[3] == 'L' && "NumLock"@[4] == 'o' && "NumLock"@[5] == 'c' && "NumLock"@[6] == 'k',
        "NumpadAdd"@.len() == 9 && "NumpadAdd"@[0] == 'N' && "NumpadAdd"@[1] == 'u' && "NumpadAdd"@[2] == 'm' && "NumpadAdd"@[3] == 'p' && "NumpadAdd"@[4] == 'a' && "NumpadAdd"@[5] == 'd' && "NumpadAdd"@[6] == 'A' && "NumpadAdd"@[7] == 'd' && "NumpadAdd"@[8] == 'd',
        "NumpadSubtract"@.len() == 14 && "NumpadSubtract"@[0] == 'N' && "NumpadSubtract"@[1] == 'u' && "NumpadSubtract"@[2] == 'm' && "NumpadSubtract"@[3] == 'p' && "NumpadSubtract"@[4] == 'a' && "NumpadSubtract"@[5] == 'd' && "NumpadSubtract"@[6] == 'S' && "NumpadSubtract"@[7] == 'u' && "NumpadSubtract"@[8] == 'b' && "NumpadSubtract"@[9] == 't' && "NumpadSubtract"@[10] == 'r' && "NumpadSubtract"@[11] == 'a' && "NumpadSubtract"@[12] == 'c' && "NumpadSubtract"@[13] == 't',
        "NumpadMultiply"@.len() == 14 && "NumpadMultiply"@[0] == 'N' && "NumpadMultiply"@[1] == 'u' && "NumpadMultiply"@[2] == 'm' && "NumpadMultiply"@[3] == 'p' && "NumpadMultiply"@[4] == 'a' && "NumpadMultiply"@[5] == 'd' && "NumpadMultiply"@[6] == 'M' && "NumpadMultiply"@[7] == 'u' && "NumpadMultiply"@[8] == 'l' && "NumpadMultiply"@[9] == 't' && "NumpadMultiply"@[10] == 'i' && "NumpadMultiply"@[11] == 'p' && "NumpadMultiply"@[12] == 'l' && "NumpadMultiply"@[13] == 'y',
        "NumpadDivide"@.len() == 12 && "NumpadDivide"@[0] == 'N' && "NumpadDivide"@[1] == 'u' && "NumpadDivide"@[2] == 'm' && "NumpadDivide"@[3] == 'p' && "NumpadDivide"@[4] == 'a' && "NumpadDivide"@[5] == 'd' && "NumpadDivide"@[6] == 'D' && "NumpadDivide"@[7] == 'i' && "NumpadDivide"@[8] == 'v' && "NumpadDivide"@[9] == 'i' && "NumpadDivide"@[10] == 'd' && "NumpadDivide"@[11] == 'e',
        "NumpadDecimal"@.len() == 13 && "NumpadDecimal"@[0] == 'N' && "NumpadDecimal"@[1] == 'u' && "NumpadDecimal"@[2] == 'm' && "NumpadDecimal"@[3] == 'p' && "NumpadDecimal"@[4] == 'a' && "NumpadDecimal"@[5] == 'd' && "NumpadDecimal"@[6] == 'D' && "NumpadDecimal"@[7] == 'e' && "NumpadDecimal"@[8] == 'c' && "NumpadDecimal"@[9] == 'i' && "NumpadDecimal"@[10] == 'm' && "NumpadDecimal"@[11] == 'a' && "NumpadDecimal"@[12] == 'l',
        "NumpadDelete"@.len() == 12 && "NumpadDelete"@[0] == 'N' && "NumpadDelete"@[1] == 'u' && "NumpadDelete"@[2] == 'm' && "NumpadDelete"@[3] == 'p' && "NumpadDelete"@[4] == 'a' && "NumpadDelete"@[5] == 'd' && "NumpadDelete"@[6] == 'D' && "NumpadDelete"@[7] == 'e' && "NumpadDelete"@[8] == 'l' && "NumpadDelete"@[9] == 'e' && "NumpadDelete"@[10] == 't' && "NumpadDelete"@[11] == 'e',
        "NumpadEnter"@.len() == 11 && "NumpadEnter"@[0] == 'N' && "NumpadEnter"@[1] == 'u' && "NumpadEnter"@[2] == 'm' && "NumpadEnter"@[3] == 'p' && "NumpadEnter"@[4] == 'a' && "NumpadEnter"@[5] == 'd' && "NumpadEnter"@[6] == 'E' && "NumpadEnter"@[7] == 'n' && "NumpadEnter"@[8] == 't' && "NumpadEnter"@[9] == 'e' && "NumpadEnter"@[10] == 'r',
{
    reveal_strlit("CapsLock");
    reveal_strlit("PrintScreen");
    reveal_strlit("ScrollLock");
    reveal_strlit("Pause");
    reveal_strlit("NumLock");
    reveal_strlit("NumpadAdd");
    reveal_strlit("NumpadSubtract");
    reveal_strlit("NumpadMultiply");
    reveal_strlit("NumpadDivide");
    reveal_strlit("NumpadDecimal");
    reveal_strlit("NumpadDelete");
    reveal_strlit("NumpadEnter");
}

/// The modifier names give the modifier keys they name: Control, Alt, AltGr,
/// Shift and Meta, left or right as the name says; `Ctrl`, `Control`, `Alt`,
/// `Shift`, `Meta`, `Win` and `Super` name the left ones.
pub proof fn lemma_modifier_key_names()
    ensures
        key_of_name("Ctrl"@) == Some(Key::ControlLeft),
        key_of_name("Control"@) == Some(Key::ControlLeft),
        key_of_name("ControlLeft"@) == Some(Key::ControlLeft),
        key_of_name("ControlRight"@) == Some(Key::ControlRight),
        key_of_name("Alt"@) == Some(Key::Alt),
        key_of_name("AltLeft"@) == Some(Key::Alt),
        key_of_name("AltL"@) == Some(Key::Alt),
        key_of_name("AltRight"@) == Some(Key::AltGr),
        key_of_name("AltR"@) == Some(Key::AltGr),
        key_of_name("AltGr"@) == Some(Key::AltGr),
        key_of_name("Shift"@) == Some(Key::ShiftLeft),
        key_of_name("ShiftLeft"@) == Some(Key::ShiftLeft),
        key_of_name("ShiftRight"@) == Some(Key::ShiftRight),
        key_of_name("Meta"@) == Some(Key::MetaLeft),
        key_of_name("Win"@) == Some(Key::MetaLeft),
        key_of_name("Super"@) == Some(Key::MetaLeft),
        key_of_name("MetaLeft"@) == Some(Key::MetaLeft),
        key_of_name("MetaRight"@) == Some(Key::MetaRight),
{
    lemma_modifier_name_texts();
}

/// Every letter `X` from A to Z, and its long name `KeyX`, names the key of
/// that same letter.
pub proof fn lemma_letter_names()
    ensures
        key_of_name("KeyA"@) == Some(Key::KeyA),
        key_of_name("A"@) == Some(Key::KeyA),
        key_of_name("KeyB"@) == Some(Key::KeyB),
        key_of_name("B"@) == Some(Key::KeyB),
        key_of_name("KeyC"@) == Some(Key::KeyC),
        key_of_name("C"@) == Some(Key::KeyC),
        key_of_name("KeyD"@) == Some(Key::KeyD),
        key_of_name("D"@) == Some(Key::KeyD),
        key_of_name("KeyE"@) == Some(Key::KeyE),
        key_of_name("E"@) == Some(Key::KeyE),
        key_of_name("KeyF"@) == Some(Key::KeyF),
        key_of_name("F"@) == Some(Key::KeyF),
        key_of_name("KeyG"@) == Some(Key::KeyG),
        key_of_name("G"@) == Some(Key::KeyG),
        key_of_name("KeyH"@) == Some(Key::KeyH),
        key_of_name("H"@) == Some(Key::KeyH),
        key_of_name("KeyI"@) == Some(Key::KeyI),
        key_of_name("I"@) == Some(Key::KeyI),
        key_of_name("KeyJ"@) == Some(Key::KeyJ),
        key_of_name("J"@) == Some(Key::KeyJ),
        key_of_name("KeyK"@) == Some(Key::KeyK),
        key_of_name("K"@) == Some(Key::KeyK),
        key_of_name("KeyL"@) == Some(Key::KeyL),
        key_of_name("L"@) == Some(Key::KeyL),
        key_of_name("KeyM"@) == Some(Key::KeyM),
        key_of_name("M"@) == Some(Key::KeyM),
        key_of_name("KeyN"@) == Some(Key::KeyN),
        key_of_name("N"@) == Some(Key::KeyN),
        key_of_name("KeyO"@) == Some(Key::KeyO),
        key_of_name("O"@) == Some(Key::KeyO),
        key_of_name("KeyP"@) == Some(Key::KeyP),
        key_of_name("P"@) == Some(Key::KeyP),
        key_of_name("KeyQ"@) == Some(Key::KeyQ),
        key_of_name("Q"@) == Some(Key::KeyQ),
        key_of_name("KeyR"@) == Some(Key::KeyR),
        key_of_name("R"@) == Some(Key::KeyR),
        key_of_name("KeyS"@) == Some(Key::KeyS),
        key_of_name("S"@) == Some(Key::KeyS),
        key_of_name("KeyT"@) == Some(Key::KeyT),
        key_of_name("T"@) == Some(Key::KeyT),
        key_of_name("KeyU"@) == Some(Key::KeyU),
        key_of_name("U"@) == Some(Key::KeyU),
        key_of_name("KeyV"@) == Some(Key::KeyV),
        key_of_name("V"@) == Some(Key::KeyV),
        key_of_name("KeyW"@) == Some(Key::KeyW),
        key_of_name("W"@) == Some(Key::KeyW),
        key_of_name("KeyX"@) == Some(Key::KeyX),
        key_of_name("X"@) == Some(Key::KeyX),
        key_of_name("KeyY"@) == Some(Key::KeyY),
        key_of_name("Y"@) == Some(Key::KeyY),
        key_of_name("KeyZ"@) == Some(Key::KeyZ),
        key_of_name("Z"@) == Some(Key::KeyZ),
{
    lemma_modifier_name_texts();
    lemma_letter_name_texts();
}

/// Every digit `d`, as `d`, `Digitd` or `Numpadd`, names the key of that same
/// digit.
pub proof fn lemma_digit_names()
    ensures
        key_of_name("Digit0"@) == Some(Key::Num0),
        key_of_name("0"@) == Some(Key::Num0),
        key_of_name("Digit1"@) == Some(Key::Num1),
        key_of_name("1"@) == Some(Key::Num1),
        key_of_name("Digit2"@) == Some(Key::Num2),
        key_of_name("2"@) == Some(Key::Num2),
        key_of_name("Digit3"@) == Some(Key::Num3),
        key_of_name("3"@) == Some(Key::Num3),
        key_of_name("Digit4"@) == Some(Key::Num4),
        key_of_name("4"@) == Some(Key::Num4),
        key_of_name("Digit5"@) == Some(Key::Num5),
        key_of_name("5"@) == Some(Key::Num5),
        key_of_name("Digit6"@) == Some(Key::Num6),
        key_of_name("6"@) == Some(Key::Num6),
        key_of_name("Digit7"@) == Some(Key::Num7),
        key_of_name("7"@) == Some(Key::Num7),
        key_of_name("Digit8"@) == Some(Key::Num8),
        key_of_name("8"@) == Some(Key::Num8),
        key_of_name("Digit9"@) == Some(Key::Num9),
        key_of_name("9"@) == Some(Key::Num9),
        key_of_name("Numpad0"@) == Some(Key::Num0),
        key_of_name("Numpad1"@) == Some(Key::Num1),
        key_of_name("Numpad2"@) == Some(Key::Num2),
        key_of_name("Numpad3"@) == Some(Key::Num3),
        key_of_name("Numpad4"@) == Some(Key::Num4),
        key_of_name("Numpad5"@) == Some(Key::Num5),
        key_of_name("Numpad6"@) == Some(Key::Num6),
        key_of_name("Numpad7"@) == Some(Key::Num7),
        key_of_name("Numpad8"@) == Some(Key::Num8),
        key_of_name("Numpad9"@) == Some(Key::Num9),
{
    lemma_modifier_name_texts();
    lemma_letter_name_texts();
    lemma_digit_name_texts();
}

/// `F1` to `F12` name the function keys of the same number.
pub proof fn lemma_function_key_names()
    ensures
        key_of_name("F1"@) == Some(Key::F1),
        key_of_name("F2"@) == Some(Key::F2),
        key_of_name("F3"@) == Some(Key::F3),
        key_of_name("F4"@) == Some(Key::F4),
        key_of_name("F5"@) == Some(Key::F5),
        key_of_name("F6"@) == Some(Key::F6),
        key_of_name("F7"@) == Some(Key::F7),
        key_of_name("F8"@) == Some(Key::F8),
        key_of_name("F9"@) == Some(Key::F9),
        key_of_name("F10"@) == Some(Key::F10),
        key_of_name("F11"@) == Some(Key::F11),
        key_of_name("F12"@) == Some(Key::F12),
{
    lemma_modifier_name_texts();
    lemma_letter_name_texts();
    lemma_digit_name_texts();
    lemma_function_key_name_texts();
}

/// The editing and navigation names, and their short forms, name those keys.
pub proof fn lemma_navigation_key_names()
    ensures
        key_of_name("Space"@) == Some(Key::Space),
        key_of_name("Enter"@) == Some(Key::Return),
        key_of_name("Return"@) == Some(Key::Return),
        key_of_name("Tab"@) == Some(Key::Tab),
        key_of_name("Escape"@) == Some(Key::Escape),
        key_of_name("Esc"@) == Some(Key::Escape),
        key_of_name("Backspace"@) == Some(Key::Backspace),
        key_of_name("Delete"@) == Some(Key::Delete),
        key_of_name("Del"@) == Some(Key::Delete),
        key_of_name("Insert"@) == Some(Key::Insert),
        key_of_name("Ins"@) == Some(Key::Insert),
        key_of_name("Home"@) == Some(Key::Home),
        key_of_name("End"@) == Some(Key::End),
        key_of_name("PageUp"@) == Some(Key::PageUp),
        key_of_name("PageDown"@) == Some(Key::PageDown),
        key_of_name("ArrowUp"@) == Some(Key::UpArrow),
        key_of_name("Up"@) == Some(Key::UpArrow),
        key_of_name("ArrowDown"@) == Some(Key::DownArrow),
        key_of_name("Down"@) == Some(Key::DownArrow),
        key_of_name("ArrowLeft"@) == Some(Key::LeftArrow),
        key_of_name("Left"@) == Some(Key::LeftArrow),
        key_of_name("ArrowRight"@) == Some(Key::RightArrow),
        key_of_name("Right"@) == Some(Key::RightArrow),
{
    lemma_modifier_name_texts();
    lemma_letter_name_texts();
    lemma_digit_name_texts();
    lemma_function_key_name_texts();
    lemma_navigation_key_name_texts();
}

/// The punctuation names, and the characters themselves, name those keys.
pub proof fn lemma_punctuation_key_names()
    ensures
        key_of_name("Minus"@) == Some(Key::Minus),
        key_of_name("-"@) == Some(Key::Minus),
        key_of_name("Equal"@) == Some(Key::Equal),
        key_of_name("="@) == Some(Key::Equal),
        key_of_name("BracketLeft"@) == Some(Key::LeftBracket),
        key_of_name("["@) == Some(Key::LeftBracket),
        key_of_name("BracketRight"@) == Some(Key::RightBracket),
        key_of_name("]"@) == Some(Key::RightBracket),
        key_of_name("Backslash"@) == Some(Key::BackSlash),
        key_of_name("\\"@) == Some(Key::BackSlash),
        key_of_name("Semicolon"@) == Some(Key::SemiColon),
        key_of_name(";"@) == Some(Key::SemiColon),
        key_of_name("Quote"@) == Some(Key::Quote),
        key_of_name("'"@) == Some(Key::Quote),
        key_of_name("Comma"@) == Some(Key::Comma),
        key_of_name(","@) == Some(Key::Comma),
        key_of_name("Period"@) == Some(Key::Dot),
        key_of_name("."@) == Some(Key::Dot),
        key_of_name("Slash"@) == Some(Key::Slash),
        key_of_name("/"@) == Some(Key::Slash),
        key_of_name("Backquote"@) == Some(Key::BackQuote),
        key_of_name("`"@) == Some(Key::BackQuote),
{
    lemma_modifier_name_texts();
    lemma_letter_name_texts();
    lemma_digit_name_texts();
    lemma_function_key_name_texts();
    lemma_navigation_key_name_texts();
    lemma_punctuation_key_name_texts();
}

/// The lock, system and keypad operator names name those keys.
pub proof fn lemma_lock_key_names()
    ensures
        key_of_name("CapsLock"@) == Some(Key::CapsLock),
        key_of_name("PrintScreen"@) == Some(Key::PrintScreen),
        key_of_name("ScrollLock"@) == Some(Key::ScrollLock),
        key_of_name("Pause"@) == Some(Key::Pause),
        key_of_name("NumLock"@) == Some(Key::NumLock),
        key_of_name("NumpadAdd"@) == Some(Key::KpPlus),
        key_of_name("NumpadSubtract"@) == Some(Key::KpMinus),
        key_of_name("NumpadMultiply"@) == Some(Key::KpMultiply),
        key_of_name("NumpadDivide"@) == Some(Key::KpDivide),
        key_of_name("NumpadDecimal"@) == Some(Key::KpDelete),
        key_of_name("NumpadDelete"@) == Some(Key::KpDelete),
        key_of_name("NumpadEnter"@) == Some(Key::KpReturn),
{
    lemma_modifier_name_texts();
    lemma_letter_name_texts();
    lemma_digit_name_texts();
    lemma_function_key_name_texts();
    lemma_navigation_key_name_texts();
    lemma_punctuation_key_name_texts();
    lemma_lock_key_name_texts();
}

} // verus!
