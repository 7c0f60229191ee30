use vstd::prelude::*;
use crate::text::{eq_lit, fold, fold_char, lower_char, lower_chars};

verus! {

pub const KEY_ESC: u16 = 1;
pub const KEY_1: u16 = 2;
pub const KEY_2: u16 = 3;
pub const KEY_3: u16 = 4;
pub const KEY_4: u16 = 5;
pub const KEY_5: u16 = 6;
pub const KEY_6: u16 = 7;
pub const KEY_7: u16 = 8;
pub const KEY_8: u16 = 9;
pub const KEY_9: u16 = 10;
pub const KEY_0: u16 = 11;
pub const KEY_MINUS: u16 = 12;
pub const KEY_EQUAL: u16 = 13;
pub const KEY_BACKSPACE: u16 = 14;
pub const KEY_TAB: u16 = 15;
pub const KEY_Q: u16 = 16;
pub const KEY_W: u16 = 17;
pub const KEY_E: u16 = 18;
pub const KEY_R: u16 = 19;
pub const KEY_T: u16 = 20;
pub const KEY_Y: u16 = 21;
pub const KEY_U: u16 = 22;
pub const KEY_I: u16 = 23;
pub const KEY_O: u16 = 24;
pub const KEY_P: u16 = 25;
pub const KEY_LEFTBRACE: u16 = 26;
pub const KEY_RIGHTBRACE: u16 = 27;
pub const KEY_ENTER: u16 = 28;
pub const KEY_LEFTCTRL: u16 = 29;
pub const KEY_A: u16 = 30;
pub const KEY_S: u16 = 31;
pub const KEY_D: u16 = 32;
pub const KEY_F: u16 = 33;
pub const KEY_G: u16 = 34;
pub const KEY_H: u16 = 35;
pub const KEY_J: u16 = 36;
pub const KEY_K: u16 = 37;
pub const KEY_L: u16 = 38;
pub const KEY_SEMICOLON: u16 = 39;
pub const KEY_APOSTROPHE: u16 = 40;
pub const KEY_GRAVE: u16 = 41;
pub const KEY_LEFTSHIFT: u16 = 42;
pub const KEY_BACKSLASH: u16 = 43;
pub const KEY_Z: u16 = 44;
pub const KEY_X: u16 = 45;
pub const KEY_C: u16 = 46;
pub const KEY_V: u16 = 47;
pub const KEY_B: u16 = 48;
pub const KEY_N: u16 = 49;
pub const KEY_M: u16 = 50;
pub const KEY_COMMA: u16 = 51;
pub const KEY_DOT: u16 = 52;
pub const KEY_SLASH: u16 = 53;
pub const KEY_RIGHTSHIFT: u16 = 54;
pub const KEY_LEFTALT: u16 = 56;
pub const KEY_SPACE: u16 = 57;
pub const KEY_CAPSLOCK: u16 = 58;
pub const KEY_F1: u16 = 59;
pub const KEY_F2: u16 = 60;
pub const KEY_F3: u16 = 61;
pub const KEY_F4: u16 = 62;
pub const KEY_F5: u16 = 63;
pub const KEY_F6: u16 = 64;
pub const KEY_F7: u16 = 65;
pub const KEY_F8: u16 = 66;
pub const KEY_F9: u16 = 67;
pub const KEY_F10: u16 = 68;
pub const KEY_F11: u16 = 87;
pub const KEY_F12: u16 = 88;
pub const KEY_RIGHTCTRL: u16 = 97;
pub const KEY_RIGHTALT: u16 = 100;
pub const KEY_HOME: u16 = 102;
pub const KEY_UP: u16 = 103;
pub const KEY_PAGEUP: u16 = 104;
pub const KEY_LEFT: u16 = 105;
pub const KEY_RIGHT: u16 = 106;
pub const KEY_END: u16 = 107;
pub const KEY_DOWN: u16 = 108;
pub const KEY_PAGEDOWN: u16 = 109;
pub const KEY_INSERT: u16 = 110;
pub const KEY_DELETE: u16 = 111;
pub const KEY_MUTE: u16 = 113;
pub const KEY_VOLUMEDOWN: u16 = 114;
pub const KEY_VOLUMEUP: u16 = 115;
pub const KEY_LEFTMETA: u16 = 125;
pub const KEY_RIGHTMETA: u16 = 126;
pub const KEY_NEXTSONG: u16 = 163;
pub const KEY_PLAYPAUSE: u16 = 164;
pub const KEY_PREVIOUSSONG: u16 = 165;
pub const KEY_STOPCD: u16 = 166;

/// Key of a lower-case ASCII letter.
pub open spec fn letter_key(c: char) -> Option<u16> {
    match c {
        'a' => Some(KEY_A),
        'b' => Some(KEY_B),
        'c' => Some(KEY_C),
        'd' => Some(KEY_D),
        'e' => Some(KEY_E),
        'f' => Some(KEY_F),
        'g' => Some(KEY_G),
        'h' => Some(KEY_H),
        'i' => Some(KEY_I),
        'j' => Some(KEY_J),
        'k' => Some(KEY_K),
        'l' => Some(KEY_L),
        'm' => Some(KEY_M),
        'n' => Some(KEY_N),
        'o' => Some(KEY_O),
        'p' => Some(KEY_P),
        'q' => Some(KEY_Q),
        'r' => Some(KEY_R),
        's' => Some(KEY_S),
        't' => Some(KEY_T),
        'u' => Some(KEY_U),
        'v' => Some(KEY_V),
        'w' => Some(KEY_W),
        'x' => Some(KEY_X),
        'y' => Some(KEY_Y),
        'z' => Some(KEY_Z),
        _ => None,
    }
}

/// Key of an ASCII digit.
pub open spec fn digit_key(c: char) -> Option<u16> {
    match c {
        '0' => Some(KEY_0),
        '1' => Some(KEY_1),
        '2' => Some(KEY_2),
        '3' => Some(KEY_3),
        '4' => Some(KEY_4),
        '5' => Some(KEY_5),
        '6' => Some(KEY_6),
        '7' => Some(KEY_7),
        '8' => Some(KEY_8),
        '9' => Some(KEY_9),
        _ => None,
    }
}

fn letter_key_exec(c: char) -> (r: Option<u16>)
    ensures
        r == letter_key(c),
{
    match c {
        'a' => Some(KEY_A),
        'b' => Some(KEY_B),
        'c' => Some(KEY_C),
        'd' => Some(KEY_D),
        'e' => Some(KEY_E),
        'f' => Some(KEY_F),
        'g' => Some(KEY_G),
        'h' => Some(KEY_H),
        'i' => Some(KEY_I),
        'j' => Some(KEY_J),
        'k' => Some(KEY_K),
        'l' => Some(KEY_L),
        'm' => Some(KEY_M),
        'n' => Some(KEY_N),
        'o' => Some(KEY_O),
        'p' => Some(KEY_P),
        'q' => Some(KEY_Q),
        'r' => Some(KEY_R),
        's' => Some(KEY_S),
        't' => Some(KEY_T),
        'u' => Some(KEY_U),
        'v' => Some(KEY_V),
        'w' => Some(KEY_W),
        'x' => Some(KEY_X),
        'y' => Some(KEY_Y),
        'z' => Some(KEY_Z),
        _ => None,
    }
}

fn digit_key_exec(c: char) -> (r: Option<u16>)
    ensures
        r == digit_key(c),
{
    match c {
        '0' => Some(KEY_0),
        '1' => Some(KEY_1),
        '2' => Some(KEY_2),
        '3' => Some(KEY_3),
        '4' => Some(KEY_4),
        '5' => Some(KEY_5),
        '6' => Some(KEY_6),
        '7' => Some(KEY_7),
        '8' => Some(KEY_8),
        '9' => Some(KEY_9),
        _ => None,
    }
}

/// The key that a bare character names in a send string once a modifier
/// sigil is pending: letters (either case), digits and space.
pub open spec fn char_key(c: char) -> Option<u16> {
    let l = fold_char(c);
    if letter_key(l) is Some {
        letter_key(l)
    } else if digit_key(l) is Some {
        digit_key(l)
    } else if l == ' ' {
        Some(KEY_SPACE)
    } else {
        None
    }
}

pub fn char_to_key(c: char) -> (r: Option<u16>)
    ensures
        r == char_key(c),
{
    let l = lower_char(c);
    let lk = letter_key_exec(l);
    if lk.is_some() {
        lk
    } else {
        let dk = digit_key_exec(l);
        if dk.is_some() {
            dk
        } else if l == ' ' {
            Some(KEY_SPACE)
        } else {
            None
        }
    }
}

/// The fixed US-layout table: a printable character to its base key and
/// whether Shift must be held to type it.
pub open spec fn shift_table(c: char) -> Option<(u16, bool)> {
    match c {
        'a' => Some((KEY_A, false)),
        'b' => Some((KEY_B, false)),
        'c' => Some((KEY_C, false)),
        'd' => Some((KEY_D, false)),
        'e' => Some((KEY_E, false)),
        'f' => Some((KEY_F, false)),
        'g' => Some((KEY_G, false)),
        'h' => Some((KEY_H, false)),
        'i' => Some((KEY_I, false)),
        'j' => Some((KEY_J, false)),
        'k' => Some((KEY_K, false)),
        'l' => Some((KEY_L, false)),
        'm' => Some((KEY_M, false)),
        'n' => Some((KEY_N, false)),
        'o' => Some((KEY_O, false)),
        'p' => Some((KEY_P, false)),
        'q' => Some((KEY_Q, false)),
        'r' => Some((KEY_R, false)),
        's' => Some((KEY_S, false)),
        't' => Some((KEY_T, false)),
        'u' => Some((KEY_U, false)),
        'v' => Some((KEY_V, false)),
        'w' => Some((KEY_W, false)),
        'x' => Some((KEY_X, false)),
        'y' => Some((KEY_Y, false)),
        'z' => Some((KEY_Z, false)),
        'A' => Some((KEY_A, true)),
        'B' => Some((KEY_B, true)),
        'C' => Some((KEY_C, true)),
        'D' => Some((KEY_D, true)),
        'E' => Some((KEY_E, true)),
        'F' => Some((KEY_F, true)),
        'G' => Some((KEY_G, true)),
        'H' => Some((KEY_H, true)),
        'I' => Some((KEY_I, true)),
        'J' => Some((KEY_J, true)),
        'K' => Some((KEY_K, true)),
        'L' => Some((KEY_L, true)),
        'M' => Some((KEY_M, true)),
        'N' => Some((KEY_N, true)),
        'O' => Some((KEY_O, true)),
        'P' => Some((KEY_P, true)),
        'Q' => Some((KEY_Q, true)),
        'R' => Some((KEY_R, true)),
        'S' => Some((KEY_S, true)),
        'T' => Some((KEY_T, true)),
        'U' => Some((KEY_U, true)),
        'V' => Some((KEY_V, true)),
        'W' => Some((KEY_W, true)),
        'X' => Some((KEY_X, true)),
        'Y' => Some((KEY_Y, true)),
        'Z' => Some((KEY_Z, true)),
        '0' => Some((KEY_0, false)),
        '1' => Some((KEY_1, false)),
        '2' => Some((KEY_2, false)),
        '3' => Some((KEY_3, false)),
        '4' => Some((KEY_4, false)),
        '5' => Some((KEY_5, false)),
        '6' => Some((KEY_6, false)),
        '7' => Some((KEY_7, false)),
        '8' => Some((KEY_8, false)),
        '9' => Some((KEY_9, false)),
        '!' => Some((KEY_1, true)),
        '@' => Some((KEY_2, true)),
        '#' => Some((KEY_3, true)),
        '$' => Some((KEY_4, true)),
        '%' => Some((KEY_5, true)),
        '^' => Some((KEY_6, true)),
        '&' => Some((KEY_7, true)),
        '*' => Some((KEY_8, true)),
        '(' => Some((KEY_9, true)),
        ')' => Some((KEY_0, true)),
        ' ' => Some((KEY_SPACE, false)),
        '.' => Some((KEY_DOT, false)),
        ',' => Some((KEY_COMMA, false)),
        ';' => Some((KEY_SEMICOLON, false)),
        '/' => Some((KEY_SLASH, false)),
        '\'' => Some((KEY_APOSTROPHE, false)),
        '-' => Some((KEY_MINUS, false)),
        '=' => Some((KEY_EQUAL, false)),
        '[' => Some((KEY_LEFTBRACE, false)),
        ']' => Some((KEY_RIGHTBRACE, false)),
        '\\' => Some((KEY_BACKSLASH, false)),
        '`' => Some((KEY_GRAVE, false)),
        ':' => Some((KEY_SEMICOLON, true)),
        '?' => Some((KEY_SLASH, true)),
        '"' => Some((KEY_APOSTROPHE, true)),
        '_' => Some((KEY_MINUS, true)),
        '+' => Some((KEY_EQUAL, true)),
        '{' => Some((KEY_LEFTBRACE, true)),
        '}' => Some((KEY_RIGHTBRACE, true)),
        '|' => Some((KEY_BACKSLASH, true)),
        '~' => Some((KEY_GRAVE, true)),
        '<' => Some((KEY_COMMA, true)),
        '>' => Some((KEY_DOT, true)),
        '\n' => Some((KEY_ENTER, false)),
        '\t' => Some((KEY_TAB, false)),
        _ => None,
    }
}

/// Looks a character up in the US-layout table.
pub fn char_to_key_with_shift(c: char) -> (r: Option<(u16, bool)>)
    ensures
        r == shift_table(c),
{
    match c {
        'a' => Some((KEY_A, false)),
        'b' => Some((KEY_B, false)),
        'c' => Some((KEY_C, false)),
        'd' => Some((KEY_D, false)),
        'e' => Some((KEY_E, false)),
        'f' => Some((KEY_F, false)),
        'g' => Some((KEY_G, false)),
        'h' => Some((KEY_H, false)),
        'i' => Some((KEY_I, false)),
        'j' => Some((KEY_J, false)),
        'k' => Some((KEY_K, false)),
        'l' => Some((KEY_L, false)),
        'm' => Some((KEY_M, false)),
        'n' => Some((KEY_N, false)),
        'o' => Some((KEY_O, false)),
        'p' => Some((KEY_P, false)),
        'q' => Some((KEY_Q, false)),
        'r' => Some((KEY_R, false)),
        's' => Some((KEY_S, false)),
        't' => Some((KEY_T, false)),
        'u' => Some((KEY_U, false)),
        'v' => Some((KEY_V, false)),
        'w' => Some((KEY_W, false)),
        'x' => Some((KEY_X, false)),
        'y' => Some((KEY_Y, false)),
        'z' => Some((KEY_Z, false)),
        'A' => Some((KEY_A, true)),
        'B' => Some((KEY_B, true)),
        'C' => Some((KEY_C, true)),
        'D' => Some((KEY_D, true)),
        'E' => Some((KEY_E, true)),
        'F' => Some((KEY_F, true)),
        'G' => Some((KEY_G, true)),
        'H' => Some((KEY_H, true)),
        'I' => Some((KEY_I, true)),
        'J' => Some((KEY_J, true)),
        'K' => Some((KEY_K, true)),
        'L' => Some((KEY_L, true)),
        'M' => Some((KEY_M, true)),
        'N' => Some((KEY_N, true)),
        'O' => Some((KEY_O, true)),
        'P' => Some((KEY_P, true)),
        'Q' => Some((KEY_Q, true)),
        'R' => Some((KEY_R, true)),
        'S' => Some((KEY_S, true)),
        'T' => Some((KEY_T, true)),
        'U' => Some((KEY_U, true)),
        'V' => Some((KEY_V, true)),
        'W' => Some((KEY_W, true)),
        'X' => Some((KEY_X, true)),
        'Y' => Some((KEY_Y, true)),
        'Z' => Some((KEY_Z, true)),
        '0' => Some((KEY_0, false)),
        '1' => Some((KEY_1, false)),
        '2' => Some((KEY_2, false)),
        '3' => Some((KEY_3, false)),
        '4' => Some((KEY_4, false)),
        '5' => Some((KEY_5, false)),
        '6' => Some((KEY_6, false)),
        '7' => Some((KEY_7, false)),
        '8' => Some((KEY_8, false)),
        '9' => Some((KEY_9, false)),
        '!' => Some((KEY_1, true)),
        '@' => Some((KEY_2, true)),
        '#' => Some((KEY_3, true)),
        '$' => Some((KEY_4, true)),
        '%' => Some((KEY_5, true)),
        '^' => Some((KEY_6, true)),
        '&' => Some((KEY_7, true)),
        '*' => Some((KEY_8, true)),
        '(' => Some((KEY_9, true)),
        ')' => Some((KEY_0, true)),
        ' ' => Some((KEY_SPACE, false)),
        '.' => Some((KEY_DOT, false)),
        ',' => Some((KEY_COMMA, false)),
        ';' => Some((KEY_SEMICOLON, false)),
        '/' => Some((KEY_SLASH, false)),
        '\'' => Some((KEY_APOSTROPHE, false)),
        '-' => Some((KEY_MINUS, false)),
        '=' => Some((KEY_EQUAL, false)),
        '[' => Some((KEY_LEFTBRACE, false)),
        ']' => Some((KEY_RIGHTBRACE, false)),
        '\\' => Some((KEY_BACKSLASH, false)),
        '`' => Some((KEY_GRAVE, false)),
        ':' => Some((KEY_SEMICOLON, true)),
        '?' => Some((KEY_SLASH, true)),
        '"' => Some((KEY_APOSTROPHE, true)),
        '_' => Some((KEY_MINUS, true)),
        '+' => Some((KEY_EQUAL, true)),
        '{' => Some((KEY_LEFTBRACE, true)),
        '}' => Some((KEY_RIGHTBRACE, true)),
        '|' => Some((KEY_BACKSLASH, true)),
        '~' => Some((KEY_GRAVE, true)),
        '<' => Some((KEY_COMMA, true)),
        '>' => Some((KEY_DOT, true)),
        '\n' => Some((KEY_ENTER, false)),
        '\t' => Some((KEY_TAB, false)),
        _ => None,
    }
}

/// The character an unshifted key types, for the keys that type one.
pub open spec fn char_of_key(k: u16) -> Option<char> {
    if k == KEY_A {
        Some('a')
    } else if k == KEY_B {
        Some('b')
    } else if k == KEY_C {
        Some('c')
    } else if k == KEY_D {
        Some('d')
    } else if k == KEY_E {
        Some('e')
    } else if k == KEY_F {
        Some('f')
    } else if k == KEY_G {
        Some('g')
    } else if k == KEY_H {
        Some('h')
    } else if k == KEY_I {
        Some('i')
    } else if k == KEY_J {
        Some('j')
    } else if k == KEY_K {
        Some('k')
    } else if k == KEY_L {
        Some('l')
    } else if k == KEY_M {
        Some('m')
    } else if k == KEY_N {
        Some('n')
    } else if k == KEY_O {
        Some('o')
    } else if k == KEY_P {
        Some('p')
    } else if k == KEY_Q {
        Some('q')
    } else if k == KEY_R {
        Some('r')
    } else if k == KEY_S {
        Some('s')
    } else if k == KEY_T {
        Some('t')
    } else if k == KEY_U {
        Some('u')
    } else if k == KEY_V {
        Some('v')
    } else if k == KEY_W {
        Some('w')
    } else if k == KEY_X {
        Some('x')
    } else if k == KEY_Y {
        Some('y')
    } else if k == KEY_Z {
        Some('z')
    } else if k == KEY_0 {
        Some('0')
    } else if k == KEY_1 {
        Some('1')
    } else if k == KEY_2 {
        Some('2')
    } else if k == KEY_3 {
        Some('3')
    } else if k == KEY_4 {
        Some('4')
    } else if k == KEY_5 {
        Some('5')
    } else if k == KEY_6 {
        Some('6')
    } else if k == KEY_7 {
        Some('7')
    } else if k == KEY_8 {
        Some('8')
    } else if k == KEY_9 {
        Some('9')
    } else if k == KEY_SPACE {
        Some(' ')
    } else if k == KEY_DOT {
        Some('.')
    } else if k == KEY_COMMA {
        Some(',')
    } else if k == KEY_SEMICOLON {
        Some(';')
    } else if k == KEY_SLASH {
        Some('/')
    } else if k == KEY_APOSTROPHE {
        Some('\'')
    } else if k == KEY_MINUS {
        Some('-')
    } else if k == KEY_EQUAL {
        Some('=')
    } else if k == KEY_LEFTBRACE {
        Some('[')
    } else if k == KEY_RIGHTBRACE {
        Some(']')
    } else if k == KEY_BACKSLASH {
        Some('\\')
    } else if k == KEY_GRAVE {
        Some('`')
    } else if k == KEY_TAB {
        Some('\t')
    } else if k == KEY_ENTER {
        Some('\n')
    } else {
        None
    }
}

/// The character that a pressed key types, if it types one.
pub fn key_to_char(k: u16) -> (r: Option<char>)
    ensures
        r == char_of_key(k),
{
    if k == KEY_A {
        Some('a')
    } else if k == KEY_B {
        Some('b')
    } else if k == KEY_C {
        Some('c')
    } else if k == KEY_D {
        Some('d')
    } else if k == KEY_E {
        Some('e')
    } else if k == KEY_F {
        Some('f')
    } else if k == KEY_G {
        Some('g')
    } else if k == KEY_H {
        Some('h')
    } else if k == KEY_I {
        Some('i')
    } else if k == KEY_J {
        Some('j')
    } else if k == KEY_K {
        Some('k')
    } else if k == KEY_L {
        Some('l')
    } else if k == KEY_M {
        Some('m')
    } else if k == KEY_N {
        Some('n')
    } else if k == KEY_O {
        Some('o')
    } else if k == KEY_P {
        Some('p')
    } else if k == KEY_Q {
        Some('q')
    } else if k == KEY_R {
        Some('r')
    } else if k == KEY_S {
        Some('s')
    } else if k == KEY_T {
        Some('t')
    } else if k == KEY_U {
        Some('u')
    } else if k == KEY_V {
        Some('v')
    } else if k == KEY_W {
        Some('w')
    } else if k == KEY_X {
        Some('x')
    } else if k == KEY_Y {
        Some('y')
    } else if k == KEY_Z {
        Some('z')
    } else if k == KEY_0 {
        Some('0')
    } else if k == KEY_1 {
        Some('1')
    } else if k == KEY_2 {
        Some('2')
    } else if k == KEY_3 {
        Some('3')
    } else if k == KEY_4 {
        Some('4')
    } else if k == KEY_5 {
        Some('5')
    } else if k == KEY_6 {
        Some('6')
    } else if k == KEY_7 {
        Some('7')
    } else if k == KEY_8 {
        Some('8')
    } else if k == KEY_9 {
        Some('9')
    } else if k == KEY_SPACE {
        Some(' ')
    } else if k == KEY_DOT {
        Some('.')
    } else if k == KEY_COMMA {
        Some(',')
    } else if k == KEY_SEMICOLON {
        Some(';')
    } else if k == KEY_SLASH {
        Some('/')
    } else if k == KEY_APOSTROPHE {
        Some('\'')
    } else if k == KEY_MINUS {
        Some('-')
    } else if k == KEY_EQUAL {
        Some('=')
    } else if k == KEY_LEFTBRACE {
        Some('[')
    } else if k == KEY_RIGHTBRACE {
        Some(']')
    } else if k == KEY_BACKSLASH {
        Some('\\')
    } else if k == KEY_GRAVE {
        Some('`')
    } else if k == KEY_TAB {
        Some('\t')
    } else if k == KEY_ENTER {
        Some('\n')
    } else {
        None
    }
}

/// Names accepted inside braces of a send string (already lower-cased).
pub open spec fn special_key_of(n: Seq<char>) -> Option<u16> {
    if n.len() == 1 && letter_key(n[0]) is Some {
        letter_key(n[0])
    } else if n == "enter"@ || n == "return"@ {
        Some(KEY_ENTER)
    } else if n == "tab"@ {
        Some(KEY_TAB)
    } else if n == "space"@ {
        Some(KEY_SPACE)
    } else if n == "backspace"@ || n == "bs"@ {
        Some(KEY_BACKSPACE)
    } else if n == "delete"@ || n == "del"@ {
        Some(KEY_DELETE)
    } else if n == "insert"@ || n == "ins"@ {
        Some(KEY_INSERT)
    } else if n == "escape"@ || n == "esc"@ {
        Some(KEY_ESC)
    } else if n == "up"@ {
        Some(KEY_UP)
    } else if n == "down"@ {
        Some(KEY_DOWN)
    } else if n == "left"@ {
        Some(KEY_LEFT)
    } else if n == "right"@ {
        Some(KEY_RIGHT)
    } else if n == "home"@ {
        Some(KEY_HOME)
    } else if n == "end"@ {
        Some(KEY_END)
    } else if n == "pgup"@ || n == "pageup"@ {
        Some(KEY_PAGEUP)
    } else if n == "pgdn"@ || n == "pagedown"@ {
        Some(KEY_PAGEDOWN)
    } else if n == "capslock"@ {
        Some(KEY_CAPSLOCK)
    } else if n == "f1"@ {
        Some(KEY_F1)
    } else if n == "f2"@ {
        Some(KEY_F2)
    } else if n == "f3"@ {
        Some(KEY_F3)
    } else if n == "f4"@ {
        Some(KEY_F4)
    } else if n == "f5"@ {
        Some(KEY_F5)
    } else if n == "f6"@ {
        Some(KEY_F6)
    } else if n == "f7"@ {
        Some(KEY_F7)
    } else if n == "f8"@ {
        Some(KEY_F8)
    } else if n == "f9"@ {
        Some(KEY_F9)
    } else if n == "f10"@ {
        Some(KEY_F10)
    } else if n == "f11"@ {
        Some(KEY_F11)
    } else if n == "f12"@ {
        Some(KEY_F12)
    } else {
        None
    }
}

fn special_key_exec(n: &Vec<char>) -> (r: Option<u16>)
    ensures
        r == special_key_of(n@),
{
    if n.len() == 1 && letter_key_exec(n[0]).is_some() {
        letter_key_exec(n[0])
    } else if eq_lit(n, "enter") || eq_lit(n, "return") {
        Some(KEY_ENTER)
    } else if eq_lit(n, "tab") {
        Some(KEY_TAB)
    } else if eq_lit(n, "space") {
        Some(KEY_SPACE)
    } else if eq_lit(n, "backspace") || eq_lit(n, "bs") {
        Some(KEY_BACKSPACE)
    } else if eq_lit(n, "delete") || eq_lit(n, "del") {
        Some(KEY_DELETE)
    } else if eq_lit(n, "insert") || eq_lit(n, "ins") {
        Some(KEY_INSERT)
    } else if eq_lit(n, "escape") || eq_lit(n, "esc") {
        Some(KEY_ESC)
    } else if eq_lit(n, "up") {
        Some(KEY_UP)
    } else if eq_lit(n, "down") {
        Some(KEY_DOWN)
    } else if eq_lit(n, "left") {
        Some(KEY_LEFT)
    } else if eq_lit(n, "right") {
        Some(KEY_RIGHT)
    } else if eq_lit(n, "home") {
        Some(KEY_HOME)
    } else if eq_lit(n, "end") {
        Some(KEY_END)
    } else if eq_lit(n, "pgup") || eq_lit(n, "pageup") {
        Some(KEY_PAGEUP)
    } else if eq_lit(n, "pgdn") || eq_lit(n, "pagedown") {
        Some(KEY_PAGEDOWN)
    } else if eq_lit(n, "capslock") {
        Some(KEY_CAPSLOCK)
    } else if eq_lit(n, "f1") {
        Some(KEY_F1)
    } else if eq_lit(n, "f2") {
        Some(KEY_F2)
    } else if eq_lit(n, "f3") {
        Some(KEY_F3)
    } else if eq_lit(n, "f4") {
        Some(KEY_F4)
    } else if eq_lit(n, "f5") {
        Some(KEY_F5)
    } else if eq_lit(n, "f6") {
        Some(KEY_F6)
    } else if eq_lit(n, "f7") {
        Some(KEY_F7)
    } else if eq_lit(n, "f8") {
        Some(KEY_F8)
    } else if eq_lit(n, "f9") {
        Some(KEY_F9)
    } else if eq_lit(n, "f10") {
        Some(KEY_F10)
    } else if eq_lit(n, "f11") {
        Some(KEY_F11)
    } else if eq_lit(n, "f12") {
        Some(KEY_F12)
    } else {
        None
    }
}

/// The key named inside the braces of a send string, in any case.
pub fn parse_special_key(name: &str) -> (r: Option<u16>)
    ensures
        r == special_key_of(fold(name@)),
{
    let n = lower_chars(name);
    special_key_exec(&n)
}

/// The key that types a character without Shift.
pub open spec fn unshifted_key(c: char) -> Option<u16> {
    match shift_table(c) {
        Some((k, false)) => Some(k),
        _ => None,
    }
}

/// Key catalog over lower-cased names: the unshifted characters of the US
/// table, then named keys (navigation, function, modifier and media keys).
pub open spec fn catalog_key_of(n: Seq<char>) -> Option<u16> {
    if n.len() == 1 && unshifted_key(n[0]) is Some {
        unshifted_key(n[0])
    } else if n == "enter"@ || n == "return"@ {
        Some(KEY_ENTER)
    } else if n == "tab"@ {
        Some(KEY_TAB)
    } else if n == "space"@ {
        Some(KEY_SPACE)
    } else if n == "backspace"@ || n == "bs"@ {
        Some(KEY_BACKSPACE)
    } else if n == "delete"@ || n == "del"@ {
        Some(KEY_DELETE)
    } else if n == "insert"@ || n == "ins"@ {
        Some(KEY_INSERT)
    } else if n == "escape"@ || n == "esc"@ {
        Some(KEY_ESC)
    } else if n == "up"@ {
        Some(KEY_UP)
    } else if n == "down"@ {
        Some(KEY_DOWN)
    } else if n == "left"@ {
        Some(KEY_LEFT)
    } else if n == "right"@ {
        Some(KEY_RIGHT)
    } else if n == "home"@ {
        Some(KEY_HOME)
    } else if n == "end"@ {
        Some(KEY_END)
    } else if n == "pgup"@ || n == "pageup"@ {
        Some(KEY_PAGEUP)
    } else if n == "pgdn"@ || n == "pagedown"@ {
        Some(KEY_PAGEDOWN)
    } else if n == "capslock"@ {
        Some(KEY_CAPSLOCK)
    } else if n == "f1"@ {
        Some(KEY_F1)
    } else if n == "f2"@ {
        Some(KEY_F2)
    } else if n == "f3"@ {
        Some(KEY_F3)
    } else if n == "f4"@ {
        Some(KEY_F4)
    } else if n == "f5"@ {
        Some(KEY_F5)
    } else if n == "f6"@ {
        Some(KEY_F6)
    } else if n == "f7"@ {
        Some(KEY_F7)
    } else if n == "f8"@ {
        Some(KEY_F8)
    } else if n == "f9"@ {
        Some(KEY_F9)
    } else if n == "f10"@ {
        Some(KEY_F10)
    } else if n == "f11"@ {
        Some(KEY_F11)
    } else if n == "f12"@ {
        Some(KEY_F12)
    } else if n == "lcontrol"@ || n == "lctrl"@ || n == "ctrl"@ || n == "control"@ {
        Some(KEY_LEFTCTRL)
    } else if n == "rcontrol"@ || n == "rctrl"@ {
        Some(KEY_RIGHTCTRL)
    } else if n == "lshift"@ || n == "shift"@ {
        Some(KEY_LEFTSHIFT)
    } else if n == "rshift"@ {
        Some(KEY_RIGHTSHIFT)
    } else if n == "lalt"@ || n == "alt"@ {
        Some(KEY_LEFTALT)
    } else if n == "ralt"@ {
        Some(KEY_RIGHTALT)
    } else if n == "lwin"@ {
        Some(KEY_LEFTMETA)
    } else if n == "rwin"@ {
        Some(KEY_RIGHTMETA)
    } else if n == "volume_up"@ {
        Some(KEY_VOLUMEUP)
    } else if n == "volume_down"@ {
        Some(KEY_VOLUMEDOWN)
    } else if n == "volume_mute"@ {
        Some(KEY_MUTE)
    } else if n == "media_play_pause"@ {
        Some(KEY_PLAYPAUSE)
    } else if n == "media_next"@ {
        Some(KEY_NEXTSONG)
    } else if n == "media_prev"@ {
        Some(KEY_PREVIOUSSONG)
    } else if n == "media_stop"@ {
        Some(KEY_STOPCD)
    } else {
        None
    }
}

fn catalog_key_exec(n: &Vec<char>) -> (r: Option<u16>)
    ensures
        r == catalog_key_of(n@),
{
    if n.len() == 1 {
        match char_to_key_with_shift(n[0]) {
            Some((k, false)) => {
                return Some(k);
            },
            _ => {},
        }
    }
    if eq_lit(n, "enter") || eq_lit(n, "return") {
        Some(KEY_ENTER)
    } else if eq_lit(n, "tab") {
        Some(KEY_TAB)
    } else if eq_lit(n, "space") {
        Some(KEY_SPACE)
    } else if eq_lit(n, "backspace") || eq_lit(n, "bs") {
        Some(KEY_BACKSPACE)
    } else if eq_lit(n, "delete") || eq_lit(n, "del") {
        Some(KEY_DELETE)
    } else if eq_lit(n, "insert") || eq_lit(n, "ins") {
        Some(KEY_INSERT)
    } else if eq_lit(n, "escape") || eq_lit(n, "esc") {
        Some(KEY_ESC)
    } else if eq_lit(n, "up") {
        Some(KEY_UP)
    } else if eq_lit(n, "down") {
        Some(KEY_DOWN)
    } else if eq_lit(n, "left") {
        Some(KEY_LEFT)
    } else if eq_lit(n, "right") {
        Some(KEY_RIGHT)
    } else if eq_lit(n, "home") {
        Some(KEY_HOME)
    } else if eq_lit(n, "end") {
        Some(KEY_END)
    } else if eq_lit(n, "pgup") || eq_lit(n, "pageup") {
        Some(KEY_PAGEUP)
    } else if eq_lit(n, "pgdn") || eq_lit(n, "pagedown") {
        Some(KEY_PAGEDOWN)
    } else if eq_lit(n, "capslock") {
        Some(KEY_CAPSLOCK)
    } else if eq_lit(n, "f1") {
        Some(KEY_F1)
    } else if eq_lit(n, "f2") {
        Some(KEY_F2)
    } else if eq_lit(n, "f3") {
        Some(KEY_F3)
    } else if eq_lit(n, "f4") {
        Some(KEY_F4)
    } else if eq_lit(n, "f5") {
        Some(KEY_F5)
    } else if eq_lit(n, "f6") {
        Some(KEY_F6)
    } else if eq_lit(n, "f7") {
        Some(KEY_F7)
    } else if eq_lit(n, "f8") {
        Some(KEY_F8)
    } else if eq_lit(n, "f9") {
        Some(KEY_F9)
    } else if eq_lit(n, "f10") {
        Some(KEY_F10)
    } else if eq_lit(n, "f11") {
        Some(KEY_F11)
    } else if eq_lit(n, "f12") {
        Some(KEY_F12)
    } else if eq_lit(n, "lcontrol") || eq_lit(n, "lctrl") || eq_lit(n, "ctrl") || eq_lit(n, "control") {
        Some(KEY_LEFTCTRL)
    } else if eq_lit(n, "rcontrol") || eq_lit(n, "rctrl") {
        Some(KEY_RIGHTCTRL)
    } else if eq_lit(n, "lshift") || eq_lit(n, "shift") {
        Some(KEY_LEFTSHIFT)
    } else if eq_lit(n, "rshift") {
        Some(KEY_RIGHTSHIFT)
    } else if eq_lit(n, "lalt") || eq_lit(n, "alt") {
        Some(KEY_LEFTALT)
    } else if eq_lit(n, "ralt") {
        Some(KEY_RIGHTALT)
    } else if eq_lit(n, "lwin") {
        Some(KEY_LEFTMETA)
    } else if eq_lit(n, "rwin") {
        Some(KEY_RIGHTMETA)
    } else if eq_lit(n, "volume_up") {
        Some(KEY_VOLUMEUP)
    } else if eq_lit(n, "volume_down") {
        Some(KEY_VOLUMEDOWN)
    } else if eq_lit(n, "volume_mute") {
        Some(KEY_MUTE)
    } else if eq_lit(n, "media_play_pause") {
        Some(KEY_PLAYPAUSE)
    } else if eq_lit(n, "media_next") {
        Some(KEY_NEXTSONG)
    } else if eq_lit(n, "media_prev") {
        Some(KEY_PREVIOUSSONG)
    } else if eq_lit(n, "media_stop") {
        Some(KEY_STOPCD)
    } else {
        None
    }
}

/// The key of a symbolic name, compared without regard to ASCII case.
pub open spec fn key_of_name(s: Seq<char>) -> Option<u16> {
    catalog_key_of(fold(s))
}

/// The text of the error for a name that the catalog does not hold.
pub open spec fn unknown_key_message(s: Seq<char>) -> Seq<char> {
    "Unknown key: "@ + s
}

/// Looks a symbolic key name up in the catalog.
pub fn string_to_key(s: &str) -> (r: Result<u16, String>)
    ensures
        key_of_name(s@) is Some ==> r == Ok::<u16, String>(key_of_name(s@)->0),
        key_of_name(s@) is None ==> r is Err && r->Err_0@ == unknown_key_message(s@),
{
    let n = lower_chars(s);
    match catalog_key_exec(&n) {
        Some(k) => Ok(k),
        None => Err(String::from_str("Unknown key: ").concat(s)),
    }
}

/// The eight physical modifier keys.
pub open spec fn is_modifier_key(k: u16) -> bool {
    k == KEY_LEFTSHIFT || k == KEY_RIGHTSHIFT || k == KEY_LEFTCTRL || k == KEY_RIGHTCTRL
        || k == KEY_LEFTALT || k == KEY_RIGHTALT || k == KEY_LEFTMETA || k == KEY_RIGHTMETA
}

pub fn modifier_key(k: u16) -> (r: bool)
    ensures
        r == is_modifier_key(k),
{
    k == KEY_LEFTSHIFT || k == KEY_RIGHTSHIFT || k == KEY_LEFTCTRL || k == KEY_RIGHTCTRL
        || k == KEY_LEFTALT || k == KEY_RIGHTALT || k == KEY_LEFTMETA || k == KEY_RIGHTMETA
}

} // verus!
