//! Platform virtual key codes and the table of named keys offered to the user.

use vstd::prelude::*;

use crate::text::{
    ascii_ci_eq, ascii_lower, chars_eq, chars_of, eq_ignore_ascii_case, hex_digits, pad_zeros, push_hex_padded,
};


verus! {

/// Sentinel value meaning "no key assigned".
pub const KEY_NONE: u16 = 0xFF;

pub const KEY_A: u16 = 0x00;
pub const KEY_S: u16 = 0x01;
pub const KEY_D: u16 = 0x02;
pub const KEY_F: u16 = 0x03;
pub const KEY_H: u16 = 0x04;
pub const KEY_G: u16 = 0x05;
pub const KEY_Z: u16 = 0x06;
pub const KEY_X: u16 = 0x07;
pub const KEY_C: u16 = 0x08;
pub const KEY_V: u16 = 0x09;
pub const KEY_B: u16 = 0x0B;
pub const KEY_Q: u16 = 0x0C;
pub const KEY_W: u16 = 0x0D;
pub const KEY_E: u16 = 0x0E;
pub const KEY_R: u16 = 0x0F;
pub const KEY_Y: u16 = 0x10;
pub const KEY_T: u16 = 0x11;
pub const KEY_1: u16 = 0x12;
pub const KEY_2: u16 = 0x13;
pub const KEY_3: u16 = 0x14;
pub const KEY_4: u16 = 0x15;
pub const KEY_6: u16 = 0x16;
pub const KEY_5: u16 = 0x17;
pub const KEY_EQUAL: u16 = 0x18;
pub const KEY_9: u16 = 0x19;
pub const KEY_7: u16 = 0x1A;
pub const KEY_MINUS: u16 = 0x1B;
pub const KEY_8: u16 = 0x1C;
pub const KEY_0: u16 = 0x1D;
pub const KEY_RIGHT_BRACKET: u16 = 0x1E;
pub const KEY_O: u16 = 0x1F;
pub const KEY_U: u16 = 0x20;
pub const KEY_LEFT_BRACKET: u16 = 0x21;
pub const KEY_I: u16 = 0x22;
pub const KEY_P: u16 = 0x23;
pub const KEY_RETURN: u16 = 0x24;
pub const KEY_L: u16 = 0x25;
pub const KEY_J: u16 = 0x26;
pub const KEY_QUOTE: u16 = 0x27;
pub const KEY_K: u16 = 0x28;
pub const KEY_SEMICOLON: u16 = 0x29;
pub const KEY_BACKSLASH: u16 = 0x2A;
pub const KEY_COMMA: u16 = 0x2B;
pub const KEY_SLASH: u16 = 0x2C;
pub const KEY_N: u16 = 0x2D;
pub const KEY_M: u16 = 0x2E;
pub const KEY_PERIOD: u16 = 0x2F;
pub const KEY_TAB: u16 = 0x30;
pub const KEY_SPACE: u16 = 0x31;
pub const KEY_GRAVE: u16 = 0x32;
pub const KEY_DELETE: u16 = 0x33;
pub const KEY_ESCAPE: u16 = 0x35;
pub const KEY_F5: u16 = 0x60;
pub const KEY_F6: u16 = 0x61;
pub const KEY_F7: u16 = 0x62;
pub const KEY_F3: u16 = 0x63;
pub const KEY_F8: u16 = 0x64;
pub const KEY_F9: u16 = 0x65;
pub const KEY_F11: u16 = 0x67;
pub const KEY_F13: u16 = 0x69;
pub const KEY_F14: u16 = 0x6B;
pub const KEY_F10: u16 = 0x6D;
pub const KEY_F12: u16 = 0x6F;
pub const KEY_F15: u16 = 0x71;
pub const KEY_F4: u16 = 0x76;
pub const KEY_F2: u16 = 0x78;
pub const KEY_F1: u16 = 0x7A;
pub const KEY_LEFT_ARROW: u16 = 0x7B;
pub const KEY_RIGHT_ARROW: u16 = 0x7C;
pub const KEY_DOWN_ARROW: u16 = 0x7D;
pub const KEY_UP_ARROW: u16 = 0x7E;

/// A named key offered to the user, with its platform virtual key code.
#[derive(Clone, Debug)]
pub struct KeyEntry {
    /// Name used in profiles, such as "A", "Space" or "Escape".
    pub name: String,
    /// Platform virtual key code.
    pub code: u16,
    /// Label shown in the user interface, such as "⎋" for Escape.
    pub display: String,
}

/// A table row: name, key code, display label.
pub type KeyRow = (Seq<char>, u16, Seq<char>);

impl View for KeyEntry {
    type V = KeyRow;

    open spec fn view(&self) -> KeyRow {
        (self.name@, self.code, self.display@)
    }
}

/// The views of a list of entries.
pub open spec fn entry_views(v: Seq<KeyEntry>) -> Seq<KeyRow> {
    v.map_values(|e: KeyEntry| e@)
}

/// The letters A to Z.
pub open spec fn letters_table() -> Seq<(Seq<char>, u16, Seq<char>)> {
    seq![
        (seq!['A'], KEY_A, "A"@),
        (seq!['B'], KEY_B, "B"@),
        (seq!['C'], KEY_C, "C"@),
        (seq!['D'], KEY_D, "D"@),
        (seq!['E'], KEY_E, "E"@),
        (seq!['F'], KEY_F, "F"@),
        (seq!['G'], KEY_G, "G"@),
        (seq!['H'], KEY_H, "H"@),
        (seq!['I'], KEY_I, "I"@),
        (seq!['J'], KEY_J, "J"@),
        (seq!['K'], KEY_K, "K"@),
        (seq!['L'], KEY_L, "L"@),
        (seq!['M'], KEY_M, "M"@),
        (seq!['N'], KEY_N, "N"@),
        (seq!['O'], KEY_O, "O"@),
        (seq!['P'], KEY_P, "P"@),
        (seq!['Q'], KEY_Q, "Q"@),
        (seq!['R'], KEY_R, "R"@),
        (seq!['S'], KEY_S, "S"@),
        (seq!['T'], KEY_T, "T"@),
        (seq!['U'], KEY_U, "U"@),
        (seq!['V'], KEY_V, "V"@),
        (seq!['W'], KEY_W, "W"@),
        (seq!['X'], KEY_X, "X"@),
        (seq!['Y'], KEY_Y, "Y"@),
        (seq!['Z'], KEY_Z, "Z"@),
    ]
}

/// The digits 0 to 9.
pub open spec fn digits_table() -> Seq<(Seq<char>, u16, Seq<char>)> {
    seq![
        (seq!['0'], KEY_0, "0"@),
        (seq!['1'], KEY_1, "1"@),
        (seq!['2'], KEY_2, "2"@),
        (seq!['3'], KEY_3, "3"@),
        (seq!['4'], KEY_4, "4"@),
        (seq!['5'], KEY_5, "5"@),
        (seq!['6'], KEY_6, "6"@),
        (seq!['7'], KEY_7, "7"@),
        (seq!['8'], KEY_8, "8"@),
        (seq!['9'], KEY_9, "9"@),
    ]
}

/// Space, Return, Tab, Escape, Delete and the symbol keys.
pub open spec fn specials_table() -> Seq<(Seq<char>, u16, Seq<char>)> {
    seq![
        (seq!['S', 'p', 'a', 'c', 'e'], KEY_SPACE, "␣"@),
        (seq!['R', 'e', 't', 'u', 'r', 'n'], KEY_RETURN, "⏎"@),
        (seq!['T', 'a', 'b'], KEY_TAB, "⇥"@),
        (seq!['E', 's', 'c', 'a', 'p', 'e'], KEY_ESCAPE, "⎋"@),
        (seq!['D', 'e', 'l', 'e', 't', 'e'], KEY_DELETE, "⌫"@),
        (seq!['M', 'i', 'n', 'u', 's'], KEY_MINUS, "-"@),
        (seq!['E', 'q', 'u', 'a', 'l'], KEY_EQUAL, "="@),
        (seq!['L', 'e', 'f', 't', 'B', 'r', 'a', 'c', 'k', 'e', 't'], KEY_LEFT_BRACKET, "["@),
        (seq!['R', 'i', 'g', 'h', 't', 'B', 'r', 'a', 'c', 'k', 'e', 't'], KEY_RIGHT_BRACKET, "]"@),
        (seq!['S', 'e', 'm', 'i', 'c', 'o', 'l', 'o', 'n'], KEY_SEMICOLON, ";"@),
        (seq!['Q', 'u', 'o', 't', 'e'], KEY_QUOTE, "'"@),
        (seq!['C', 'o', 'm', 'm', 'a'], KEY_COMMA, ","@),
        (seq!['P', 'e', 'r', 'i', 'o', 'd'], KEY_PERIOD, "."@),
        (seq!['S', 'l', 'a', 's', 'h'], KEY_SLASH, "/"@),
        (seq!['B', 'a', 'c', 'k', 's', 'l', 'a', 's', 'h'], KEY_BACKSLASH, "\\"@),
        (seq!['G', 'r', 'a', 'v', 'e'], KEY_GRAVE, "`"@),
    ]
}

/// The arrow keys, F1 to F12, and "None".
pub open spec fn navigation_table() -> Seq<(Seq<char>, u16, Seq<char>)> {
    seq![
        (seq!['U', 'p', 'A', 'r', 'r', 'o', 'w'], KEY_UP_ARROW, "↑"@),
        (seq!['D', 'o', 'w', 'n', 'A', 'r', 'r', 'o', 'w'], KEY_DOWN_ARROW, "↓"@),
        (seq!['L', 'e', 'f', 't', 'A', 'r', 'r', 'o', 'w'], KEY_LEFT_ARROW, "←"@),
        (seq!['R', 'i', 'g', 'h', 't', 'A', 'r', 'r', 'o', 'w'], KEY_RIGHT_ARROW, "→"@),
        (seq!['F', '1'], KEY_F1, "F1"@),
        (seq!['F', '2'], KEY_F2, "F2"@),
        (seq!['F', '3'], KEY_F3, "F3"@),
        (seq!['F', '4'], KEY_F4, "F4"@),
        (seq!['F', '5'], KEY_F5, "F5"@),
        (seq!['F', '6'], KEY_F6, "F6"@),
        (seq!['F', '7'], KEY_F7, "F7"@),
        (seq!['F', '8'], KEY_F8, "F8"@),
        (seq!['F', '9'], KEY_F9, "F9"@),
        (seq!['F', '1', '0'], KEY_F10, "F10"@),
        (seq!['F', '1', '1'], KEY_F11, "F11"@),
        (seq!['F', '1', '2'], KEY_F12, "F12"@),
        (seq!['N', 'o', 'n', 'e'], KEY_NONE, "—"@),
    ]
}
/// The full table of named keys, in the order offered to the user.
pub open spec fn key_table() -> Seq<KeyRow> {
    letters_table() + digits_table() + specials_table() + navigation_table()
}

/// The name of the "no key" entry.
pub open spec fn none_name() -> Seq<char> {
    seq!['N', 'o', 'n', 'e']
}

/// Index of the first of the first `n` rows of `t` whose name equals `name` up
/// to ASCII case.
pub open spec fn first_named(t: Seq<KeyRow>, name: Seq<char>, n: int) -> Option<int>
    decreases n,
{
    if n <= 0 {
        None
    } else {
        match first_named(t, name, n - 1) {
            Some(i) => Some(i),
            None => if ascii_ci_eq(t[n - 1].0, name) {
                Some(n - 1)
            } else {
                None
            },
        }
    }
}

/// Index of the first of the first `n` rows of `t` with key code `code`.
pub open spec fn first_coded(t: Seq<KeyRow>, code: u16, n: int) -> Option<int>
    decreases n,
{
    if n <= 0 {
        None
    } else {
        match first_coded(t, code, n - 1) {
            Some(i) => Some(i),
            None => if t[n - 1].1 == code {
                Some(n - 1)
            } else {
                None
            },
        }
    }
}

/// The key code for a key name: `KEY_NONE` for "None", for the empty name and
/// for a name not in the table; otherwise the code of the first table entry
/// whose name equals it up to ASCII case.
pub open spec fn spec_key_code(name: Seq<char>) -> u16 {
    if name == none_name() || name.len() == 0 {
        KEY_NONE
    } else {
        match first_named(key_table(), name, key_table().len() as int) {
            Some(i) => key_table()[i].1,
            None => KEY_NONE,
        }
    }
}

/// "0x" followed by `code` in upper-case hexadecimal, at least two digits.
pub open spec fn hex_key_name(code: u16) -> Seq<char> {
    seq!['0', 'x'] + pad_zeros(hex_digits(code as nat, true), 2)
}

/// The key name for a key code: "None" for `KEY_NONE`, the name of the first
/// table entry with that code, or else the code in hexadecimal.
pub open spec fn spec_key_name(code: u16) -> Seq<char> {
    if code == KEY_NONE {
        none_name()
    } else {
        match first_coded(key_table(), code, key_table().len() as int) {
            Some(i) => key_table()[i].0,
            None => hex_key_name(code),
        }
    }
}

/// Once a first match is found among `m` rows, it stays the first match.
proof fn lemma_first_named_stable(t: Seq<KeyRow>, name: Seq<char>, m: int, n: int)
    requires
        m <= n,
        first_named(t, name, m) is Some,
    ensures
        first_named(t, name, n) == first_named(t, name, m),
    decreases n - m,
{
    if m < n {
        lemma_first_named_stable(t, name, m, n - 1);
    }
}

/// Once a first match is found among `m` rows, it stays the first match.
proof fn lemma_first_coded_stable(t: Seq<KeyRow>, code: u16, m: int, n: int)
    requires
        m <= n,
        first_coded(t, code, m) is Some,
    ensures
        first_coded(t, code, n) == first_coded(t, code, m),
    decreases n - m,
{
    if m < n {
        lemma_first_coded_stable(t, code, m, n - 1);
    }
}

/// Appends one entry.
fn push_key(v: &mut Vec<KeyEntry>, name: &str, code: u16, display: &str)
    ensures
        entry_views(final(v)@) == entry_views(old(v)@).push((name@, code, display@)),
{
    let ghost prior = entry_views(v@);
    v.push(KeyEntry { name: String::from_str(name), code, display: String::from_str(display) });
    assert(entry_views(v@) =~= prior.push((name@, code, display@)));
}

/// Appends the entries of `letters_table`.
fn push_letters(v: &mut Vec<KeyEntry>)
    ensures
        entry_views(final(v)@) == entry_views(old(v)@) + letters_table(),
{
    let ghost start = entry_views(v@);
    push_key(v, "A", KEY_A, "A");
    push_key(v, "B", KEY_B, "B");
    push_key(v, "C", KEY_C, "C");
    push_key(v, "D", KEY_D, "D");
    push_key(v, "E", KEY_E, "E");
    push_key(v, "F", KEY_F, "F");
    push_key(v, "G", KEY_G, "G");
    push_key(v, "H", KEY_H, "H");
    push_key(v, "I", KEY_I, "I");
    push_key(v, "J", KEY_J, "J");
    push_key(v, "K", KEY_K, "K");
    push_key(v, "L", KEY_L, "L");
    push_key(v, "M", KEY_M, "M");
    push_key(v, "N", KEY_N, "N");
    push_key(v, "O", KEY_O, "O");
    push_key(v, "P", KEY_P, "P");
    push_key(v, "Q", KEY_Q, "Q");
    push_key(v, "R", KEY_R, "R");
    push_key(v, "S", KEY_S, "S");
    push_key(v, "T", KEY_T, "T");
    push_key(v, "U", KEY_U, "U");
    push_key(v, "V", KEY_V, "V");
    push_key(v, "W", KEY_W, "W");
    push_key(v, "X", KEY_X, "X");
    push_key(v, "Y", KEY_Y, "Y");
    push_key(v, "Z", KEY_Z, "Z");
    proof {
        reveal_strlit("A");
        reveal_strlit("B");
        reveal_strlit("C");
        reveal_strlit("D");
        reveal_strlit("E");
        reveal_strlit("F");
        reveal_strlit("G");
        reveal_strlit("H");
        reveal_strlit("I");
        reveal_strlit("J");
        reveal_strlit("K");
        reveal_strlit("L");
        reveal_strlit("M");
        reveal_strlit("N");
        reveal_strlit("O");
        reveal_strlit("P");
        reveal_strlit("Q");
        reveal_strlit("R");
        reveal_strlit("S");
        reveal_strlit("T");
        reveal_strlit("U");
        reveal_strlit("V");
        reveal_strlit("W");
        reveal_strlit("X");
        reveal_strlit("Y");
        reveal_strlit("Z");
        assert("A"@ =~= seq!['A']);
        assert("B"@ =~= seq!['B']);
        assert("C"@ =~= seq!['C']);
        assert("D"@ =~= seq!['D']);
        assert("E"@ =~= seq!['E']);
        assert("F"@ =~= seq!['F']);
        assert("G"@ =~= seq!['G']);
        assert("H"@ =~= seq!['H']);
        assert("I"@ =~= seq!['I']);
        assert("J"@ =~= seq!['J']);
        assert("K"@ =~= seq!['K']);
        assert("L"@ =~= seq!['L']);
        assert("M"@ =~= seq!['M']);
        assert("N"@ =~= seq!['N']);
        assert("O"@ =~= seq!['O']);
        assert("P"@ =~= seq!['P']);
        assert("Q"@ =~= seq!['Q']);
        assert("R"@ =~= seq!['R']);
        assert("S"@ =~= seq!['S']);
        assert("T"@ =~= seq!['T']);
        assert("U"@ =~= seq!['U']);
        assert("V"@ =~= seq!['V']);
        assert("W"@ =~= seq!['W']);
        assert("X"@ =~= seq!['X']);
        assert("Y"@ =~= seq!['Y']);
        assert("Z"@ =~= seq!['Z']);
    }
    assert(entry_views(v@) =~= start + letters_table());
}

/// Appends the entries of `digits_table`.
fn push_digits(v: &mut Vec<KeyEntry>)
    ensures
        entry_views(final(v)@) == entry_views(old(v)@) + digits_table(),
{
    let ghost start = entry_views(v@);
    push_key(v, "0", KEY_0, "0");
    push_key(v, "1", KEY_1, "1");
    push_key(v, "2", KEY_2, "2");
    push_key(v, "3", KEY_3, "3");
    push_key(v, "4", KEY_4, "4");
    push_key(v, "5", KEY_5, "5");
    push_key(v, "6", KEY_6, "6");
    push_key(v, "7", KEY_7, "7");
    push_key(v, "8", KEY_8, "8");
    push_key(v, "9", KEY_9, "9");
    proof {
        reveal_strlit("0");
        reveal_strlit("1");
        reveal_strlit("2");
        reveal_strlit("3");
        reveal_strlit("4");
        reveal_strlit("5");
        reveal_strlit("6");
        reveal_strlit("7");
        reveal_strlit("8");
        reveal_strlit("9");
        assert("0"@ =~= seq!['0']);
        assert("1"@ =~= seq!['1']);
        assert("2"@ =~= seq!['2']);
        assert("3"@ =~= seq!['3']);
        assert("4"@ =~= seq!['4']);
        assert("5"@ =~= seq!['5']);
        assert("6"@ =~= seq!['6']);
        assert("7"@ =~= seq!['7']);
        assert("8"@ =~= seq!['8']);
        assert("9"@ =~= seq!['9']);
    }
    assert(entry_views(v@) =~= start + digits_table());
}

/// Appends the entries of `specials_table`.
fn push_specials(v: &mut Vec<KeyEntry>)
    ensures
        entry_views(final(v)@) == entry_views(old(v)@) + specials_table(),
{
    let ghost start = entry_views(v@);
    push_key(v, "Space", KEY_SPACE, "␣");
    push_key(v, "Return", KEY_RETURN, "⏎");
    push_key(v, "Tab", KEY_TAB, "⇥");
    push_key(v, "Escape", KEY_ESCAPE, "⎋");
    push_key(v, "Delete", KEY_DELETE, "⌫");
    push_key(v, "Minus", KEY_MINUS, "-");
    push_key(v, "Equal", KEY_EQUAL, "=");
    push_key(v, "LeftBracket", KEY_LEFT_BRACKET, "[");
    push_key(v, "RightBracket", KEY_RIGHT_BRACKET, "]");
    push_key(v, "Semicolon", KEY_SEMICOLON, ";");
    push_key(v, "Quote", KEY_QUOTE, "'");
    push_key(v, "Comma", KEY_COMMA, ",");
    push_key(v, "Period", KEY_PERIOD, ".");
    push_key(v, "Slash", KEY_SLASH, "/");
    push_key(v, "Backslash", KEY_BACKSLASH, "\\");
    push_key(v, "Grave", KEY_GRAVE, "`");
    proof {
        reveal_strlit("Space");
        reveal_strlit("Return");
        reveal_strlit("Tab");
        reveal_strlit("Escape");
        reveal_strlit("Delete");
        reveal_strlit("Minus");
        reveal_strlit("Equal");
        reveal_strlit("LeftBracket");
        reveal_strlit("RightBracket");
        reveal_strlit("Semicolon");
        reveal_strlit("Quote");
        reveal_strlit("Comma");
        reveal_strlit("Period");
        reveal_strlit("Slash");
        reveal_strlit("Backslash");
        reveal_strlit("Grave");
        assert("Space"@ =~= seq!['S', 'p', 'a', 'c', 'e']);
        assert("Return"@ =~= seq!['R', 'e', 't', 'u', 'r', 'n']);
        assert("Tab"@ =~= seq!['T', 'a', 'b']);
        assert("Escape"@ =~= seq!['E', 's', 'c', 'a', 'p', 'e']);
        assert("Delete"@ =~= seq!['D', 'e', 'l', 'e', 't', 'e']);
        assert("Minus"@ =~= seq!['M', 'i', 'n', 'u', 's']);
        assert("Equal"@ =~= seq!['E', 'q', 'u', 'a', 'l']);
        assert("LeftBracket"@ =~= seq!['L', 'e', 'f', 't', 'B', 'r', 'a', 'c', 'k', 'e', 't']);
        assert("RightBracket"@ =~= seq!['R', 'i', 'g', 'h', 't', 'B', 'r', 'a', 'c', 'k', 'e', 't']);
        assert("Semicolon"@ =~= seq!['S', 'e', 'm', 'i', 'c', 'o', 'l', 'o', 'n']);
        assert("Quote"@ =~= seq!['Q', 'u', 'o', 't', 'e']);
        assert("Comma"@ =~= seq!['C', 'o', 'm', 'm', 'a']);
        assert("Period"@ =~= seq!['P', 'e', 'r', 'i', 'o', 'd']);
        assert("Slash"@ =~= seq!['S', 'l', 'a', 's', 'h']);
        assert("Backslash"@ =~= seq!['B', 'a', 'c', 'k', 's', 'l', 'a', 's', 'h']);
        assert("Grave"@ =~= seq!['G', 'r', 'a', 'v', 'e']);
    }
    assert(entry_views(v@) =~= start + specials_table());
}

/// Appends the entries of `navigation_table`.
fn push_navigation(v: &mut Vec<KeyEntry>)
    ensures
        entry_views(final(v)@) == entry_views(old(v)@) + navigation_table(),
{
    let ghost start = entry_views(v@);
    push_key(v, "UpArrow", KEY_UP_ARROW, "↑");
    push_key(v, "DownArrow", KEY_DOWN_ARROW, "↓");
    push_key(v, "LeftArrow", KEY_LEFT_ARROW, "←");
    push_key(v, "RightArrow", KEY_RIGHT_ARROW, "→");
    push_key(v, "F1", KEY_F1, "F1");
    push_key(v, "F2", KEY_F2, "F2");
    push_key(v, "F3", KEY_F3, "F3");
    push_key(v, "F4", KEY_F4, "F4");
    push_key(v, "F5", KEY_F5, "F5");
    push_key(v, "F6", KEY_F6, "F6");
    push_key(v, "F7", KEY_F7, "F7");
    push_key(v, "F8", KEY_F8, "F8");
    push_key(v, "F9", KEY_F9, "F9");
    push_key(v, "F10", KEY_F10, "F10");
    push_key(v, "F11", KEY_F11, "F11");
    push_key(v, "F12", KEY_F12, "F12");
    push_key(v, "None", KEY_NONE, "—");
    proof {
        reveal_strlit("UpArrow");
        reveal_strlit("DownArrow");
        reveal_strlit("LeftArrow");
        reveal_strlit("RightArrow");
        reveal_strlit("F1");
        reveal_strlit("F2");
        reveal_strlit("F3");
        reveal_strlit("F4");
        reveal_strlit("F5");
        reveal_strlit("F6");
        reveal_strlit("F7");
        reveal_strlit("F8");
        reveal_strlit("F9");
        reveal_strlit("F10");
        reveal_strlit("F11");
        reveal_strlit("F12");
        reveal_strlit("None");
        assert("UpArrow"@ =~= seq!['U', 'p', 'A', 'r', 'r', 'o', 'w']);
        assert("DownArrow"@ =~= seq!['D', 'o', 'w', 'n', 'A', 'r', 'r', 'o', 'w']);
        assert("LeftArrow"@ =~= seq!['L', 'e', 'f', 't', 'A', 'r', 'r', 'o', 'w']);
        assert("RightArrow"@ =~= seq!['R', 'i', 'g', 'h', 't', 'A', 'r', 'r', 'o', 'w']);
        assert("F1"@ =~= seq!['F', '1']);
        assert("F2"@ =~= seq!['F', '2']);
        assert("F3"@ =~= seq!['F', '3']);
        assert("F4"@ =~= seq!['F', '4']);
        assert("F5"@ =~= seq!['F', '5']);
        assert("F6"@ =~= seq!['F', '6']);
        assert("F7"@ =~= seq!['F', '7']);
        assert("F8"@ =~= seq!['F', '8']);
        assert("F9"@ =~= seq!['F', '9']);
        assert("F10"@ =~= seq!['F', '1', '0']);
        assert("F11"@ =~= seq!['F', '1', '1']);
        assert("F12"@ =~= seq!['F', '1', '2']);
        assert("None"@ =~= seq!['N', 'o', 'n', 'e']);
    }
    assert(entry_views(v@) =~= start + navigation_table());
}
/// Returns the full table of available key mappings for the UI.
pub fn all_keys() -> (keys: Vec<KeyEntry>)
    ensures
        entry_views(keys@) == key_table(),
{
    let mut v: Vec<KeyEntry> = Vec::new();
    assert(entry_views(v@) =~= Seq::<KeyRow>::empty());
    push_letters(&mut v);
    push_digits(&mut v);
    push_specials(&mut v);
    push_navigation(&mut v);
    assert(entry_views(v@) =~= key_table());
    v
}

/// Look up a key name by its virtual key code.
pub fn key_name(code: u16) -> (name: String)
    ensures
        name@ == spec_key_name(code),
{
    if code == KEY_NONE {
        let r = String::from_str("None");
        proof {
            reveal_strlit("None");
        }
        assert(r@ =~= none_name());
        return r;
    }
    let keys = all_keys();
    let n = keys.len();
    let mut i: usize = 0;
    while i < n
        invariant
            n == keys@.len(),
            entry_views(keys@) == key_table(),
            i <= n,
            first_coded(key_table(), code, i as int) is None,
        decreases n - i,
    {
        assert(entry_views(keys@)[i as int] == keys@[i as int]@);
        if keys[i].code == code {
            proof {
                lemma_first_coded_stable(key_table(), code, i + 1, key_table().len() as int);
            }
            return keys[i].name.clone();
        }
        i += 1;
    }
    let mut r = String::from_str("0x");
    proof {
        reveal_strlit("0x");
    }
    assert(r@ =~= seq!['0', 'x']);
    push_hex_padded(&mut r, code as u32, true, 2);
    r
}

/// Look up a key code by its name, ignoring ASCII case. Returns `KEY_NONE` if
/// not found.
pub fn key_code(name: &str) -> (code: u16)
    ensures
        code == spec_key_code(name@),
{
    let chars = chars_of(name);
    let none = chars_of("None");
    proof {
        reveal_strlit("None");
    }
    assert(none@ =~= none_name());
    if chars_eq(&chars, &none) || name.is_empty() {
        return KEY_NONE;
    }
    let keys = all_keys();
    let n = keys.len();
    let mut i: usize = 0;
    while i < n
        invariant
            n == keys@.len(),
            entry_views(keys@) == key_table(),
            i <= n,
            first_named(key_table(), name@, i as int) is None,
        decreases n - i,
    {
        assert(entry_views(keys@)[i as int] == keys@[i as int]@);
        if eq_ignore_ascii_case(keys[i].name.as_str(), name) {
            proof {
                lemma_first_named_stable(key_table(), name@, i + 1, key_table().len() as int);
            }
            return keys[i].code;
        }
        i += 1;
    }
    KEY_NONE
}

/// Equality up to ASCII case of `a` and `b` from position `i` on, written by
/// recursion so that it can be evaluated.
spec fn ci_eq_from(a: Seq<char>, b: Seq<char>, i: int) -> bool
    decreases a.len() - i,
{
    if i < 0 || i >= a.len() {
        true
    } else {
        ascii_lower(a[i]) == ascii_lower(b[i]) && ci_eq_from(a, b, i + 1)
    }
}

/// Rows `i` and `j` have different codes and names that differ beyond ASCII case.
spec fn rows_apart(t: Seq<KeyRow>, i: int, j: int) -> bool {
    &&& t[i].1 != t[j].1
    &&& !(t[i].0.len() == t[j].0.len() && ci_eq_from(t[i].0, t[j].0, 0))
}

/// Row `i` is apart from every row from `j` to the end.
spec fn apart_from(t: Seq<KeyRow>, i: int, j: int) -> bool
    decreases t.len() - j,
{
    if j < 0 || j >= t.len() {
        true
    } else {
        rows_apart(t, i, j) && apart_from(t, i, j + 1)
    }
}

/// Every row from `i` on is apart from all later rows and has a non-empty name.
spec fn all_apart(t: Seq<KeyRow>, i: int) -> bool
    decreases t.len() - i,
{
    if i < 0 || i >= t.len() {
        true
    } else {
        t[i].0.len() > 0 && apart_from(t, i, i + 1) && all_apart(t, i + 1)
    }
}

proof fn lemma_ci_eq_from(a: Seq<char>, b: Seq<char>, i: int)
    requires
        0 <= i <= a.len(),
        a.len() == b.len(),
    ensures
        ci_eq_from(a, b, i) <==> forall|k: int| i <= k < a.len() ==> #[trigger] ascii_lower(a[k]) == ascii_lower(b[k]),
    decreases a.len() - i,
{
    if i < a.len() {
        lemma_ci_eq_from(a, b, i + 1);
    }
}

proof fn lemma_apart_from(t: Seq<KeyRow>, i: int, j: int, k: int)
    requires
        0 <= j <= k < t.len(),
        apart_from(t, i, j),
    ensures
        rows_apart(t, i, k),
    decreases k - j,
{
    if j < k {
        lemma_apart_from(t, i, j + 1, k);
    }
}

proof fn lemma_all_apart(t: Seq<KeyRow>, i: int, j: int)
    requires
        0 <= i < t.len(),
        all_apart(t, 0),
        i < j < t.len() || j == -1,
    ensures
        t[i].0.len() > 0,
        j != -1 ==> rows_apart(t, i, j),
    decreases i,
{
    lemma_all_apart_from(t, 0, i);
    if j != -1 {
        lemma_apart_from(t, i, i + 1, j);
    }
}

proof fn lemma_all_apart_from(t: Seq<KeyRow>, m: int, i: int)
    requires
        0 <= m <= i < t.len(),
        all_apart(t, m),
    ensures
        all_apart(t, i),
    decreases i - m,
{
    if m < i {
        lemma_all_apart_from(t, m + 1, i);
    }
}

/// Rows 0 to 16 are apart from every later row.
#[verifier::rlimit(50)]
proof fn lemma_rows_apart_0_17()
    ensures
        forall|r: int| 0 <= r < 17 ==> #[trigger] apart_from(key_table(), r, r + 1),
{
    reveal_with_fuel(apart_from, 70);
    reveal_with_fuel(ci_eq_from, 13);
    assert(apart_from(key_table(), 0, 1));
    assert(apart_from(key_table(), 1, 2));
    assert(apart_from(key_table(), 2, 3));
    assert(apart_from(key_table(), 3, 4));
    assert(apart_from(key_table(), 4, 5));
    assert(apart_from(key_table(), 5, 6));
    assert(apart_from(key_table(), 6, 7));
    assert(apart_from(key_table(), 7, 8));
    assert(apart_from(key_table(), 8, 9));
    assert(apart_from(key_table(), 9, 10));
    assert(apart_from(key_table(), 10, 11));
    assert(apart_from(key_table(), 11, 12));
    assert(apart_from(key_table(), 12, 13));
    assert(apart_from(key_table(), 13, 14));
    assert(apart_from(key_table(), 14, 15));
    assert(apart_from(key_table(), 15, 16));
    assert(apart_from(key_table(), 16, 17));
}

/// Rows 17 to 33 are apart from every later row.
#[verifier::rlimit(50)]
proof fn lemma_rows_apart_17_34()
    ensures
        forall|r: int| 17 <= r < 34 ==> #[trigger] apart_from(key_table(), r, r + 1),
{
    reveal_with_fuel(apart_from, 53);
    reveal_with_fuel(ci_eq_from, 13);
    assert(apart_from(key_table(), 17, 18));
    assert(apart_from(key_table(), 18, 19));
    assert(apart_from(key_table(), 19, 20));
    assert(apart_from(key_table(), 20, 21));
    assert(apart_from(key_table(), 21, 22));
    assert(apart_from(key_table(), 22, 23));
    assert(apart_from(key_table(), 23, 24));
    assert(apart_from(key_table(), 24, 25));
    assert(apart_from(key_table(), 25, 26));
    assert(apart_from(key_table(), 26, 27));
    assert(apart_from(key_table(), 27, 28));
    assert(apart_from(key_table(), 28, 29));
    assert(apart_from(key_table(), 29, 30));
    assert(apart_from(key_table(), 30, 31));
    assert(apart_from(key_table(), 31, 32));
    assert(apart_from(key_table(), 32, 33));
    assert(apart_from(key_table(), 33, 34));
}

/// Rows 34 to 50 are apart from every later row.
#[verifier::rlimit(50)]
proof fn lemma_rows_apart_34_51()
    ensures
        forall|r: int| 34 <= r < 51 ==> #[trigger] apart_from(key_table(), r, r + 1),
{
    reveal_with_fuel(apart_from, 36);
    reveal_with_fuel(ci_eq_from, 13);
    assert(apart_from(key_table(), 34, 35));
    assert(apart_from(key_table(), 35, 36));
    assert(apart_from(key_table(), 36, 37));
    assert(apart_from(key_table(), 37, 38));
    assert(apart_from(key_table(), 38, 39));
    assert(apart_from(key_table(), 39, 40));
    assert(apart_from(key_table(), 40, 41));
    assert(apart_from(key_table(), 41, 42));
    assert(apart_from(key_table(), 42, 43));
    assert(apart_from(key_table(), 43, 44));
    assert(apart_from(key_table(), 44, 45));
    assert(apart_from(key_table(), 45, 46));
    assert(apart_from(key_table(), 46, 47));
    assert(apart_from(key_table(), 47, 48));
    assert(apart_from(key_table(), 48, 49));
    assert(apart_from(key_table(), 49, 50));
    assert(apart_from(key_table(), 50, 51));
}

/// Rows 51 to 67 are apart from every later row.
#[verifier::rlimit(50)]
proof fn lemma_rows_apart_51_68()
    ensures
        forall|r: int| 51 <= r < 68 ==> #[trigger] apart_from(key_table(), r, r + 1),
{
    reveal_with_fuel(apart_from, 19);
    reveal_with_fuel(ci_eq_from, 13);
    assert(apart_from(key_table(), 51, 52));
    assert(apart_from(key_table(), 52, 53));
    assert(apart_from(key_table(), 53, 54));
    assert(apart_from(key_table(), 54, 55));
    assert(apart_from(key_table(), 55, 56));
    assert(apart_from(key_table(), 56, 57));
    assert(apart_from(key_table(), 57, 58));
    assert(apart_from(key_table(), 58, 59));
    assert(apart_from(key_table(), 59, 60));
    assert(apart_from(key_table(), 60, 61));
    assert(apart_from(key_table(), 61, 62));
    assert(apart_from(key_table(), 62, 63));
    assert(apart_from(key_table(), 63, 64));
    assert(apart_from(key_table(), 64, 65));
    assert(apart_from(key_table(), 65, 66));
    assert(apart_from(key_table(), 66, 67));
    assert(apart_from(key_table(), 67, 68));
}

/// Every row of the table is apart from all later rows.
proof fn lemma_all_rows_apart()
    ensures
        all_apart(key_table(), 0),
{
    lemma_rows_apart_0_17();
    lemma_rows_apart_17_34();
    lemma_rows_apart_34_51();
    lemma_rows_apart_51_68();
    reveal_with_fuel(all_apart, 70);
}

/// The table's rows have distinct codes, names that differ beyond ASCII case,
/// and no empty name; "None" is its last row.
pub proof fn lemma_key_table_distinct()
    ensures
        forall|i: int, j: int|
            0 <= i < j < key_table().len() ==> key_table()[i].1 != key_table()[j].1
                && !ascii_ci_eq(#[trigger] key_table()[i].0, #[trigger] key_table()[j].0),
        forall|i: int| 0 <= i < key_table().len() ==> (#[trigger] key_table()[i].0).len() > 0,
        key_table().len() == 69,
        key_table()[68].0 == none_name(),
        key_table()[68].1 == KEY_NONE,
{
    let t = key_table();
    lemma_all_rows_apart();
    assert(t.len() == 69 && t[68].0 =~= none_name() && t[68].1 == KEY_NONE);
    assert forall|i: int, j: int| 0 <= i < j < t.len() implies t[i].1 != t[j].1 && !ascii_ci_eq(
        #[trigger] t[i].0,
        #[trigger] t[j].0,
    ) by {
        lemma_all_apart(t, i, j);
        if t[i].0.len() == t[j].0.len() {
            lemma_ci_eq_from(t[i].0, t[j].0, 0);
        }
    }
    assert forall|i: int| 0 <= i < t.len() implies (#[trigger] t[i].0).len() > 0 by {
        lemma_all_apart(t, i, -1);
    }
}

/// No row among the first `m` is named `name` up to ASCII case.
proof fn lemma_first_named_none(t: Seq<KeyRow>, name: Seq<char>, m: int)
    requires
        forall|j: int| 0 <= j < m ==> !ascii_ci_eq(#[trigger] t[j].0, name),
    ensures
        first_named(t, name, m) is None,
    decreases m,
{
    if m > 0 {
        lemma_first_named_none(t, name, m - 1);
    }
}

/// No row among the first `m` has code `code`.
proof fn lemma_first_coded_none(t: Seq<KeyRow>, code: u16, m: int)
    requires
        forall|j: int| 0 <= j < m ==> (#[trigger] t[j]).1 != code,
    ensures
        first_coded(t, code, m) is None,
    decreases m,
{
    if m > 0 {
        lemma_first_coded_none(t, code, m - 1);
    }
}

/// Names equal up to ASCII case are matched by the same rows.
proof fn lemma_first_named_ci(t: Seq<KeyRow>, a: Seq<char>, b: Seq<char>, m: int)
    requires
        ascii_ci_eq(a, b),
    ensures
        first_named(t, a, m) == first_named(t, b, m),
    decreases m,
{
    if m > 0 {
        lemma_first_named_ci(t, a, b, m - 1);
        let x = t[m - 1].0;
        if ascii_ci_eq(x, a) {
            assert forall|k: int| 0 <= k < x.len() implies #[trigger] ascii_lower(x[k]) == ascii_lower(b[k]) by {
                assert(ascii_lower(x[k]) == ascii_lower(a[k]));
                assert(ascii_lower(a[k]) == ascii_lower(b[k]));
            }
        }
        if ascii_ci_eq(x, b) {
            assert forall|k: int| 0 <= k < x.len() implies #[trigger] ascii_lower(x[k]) == ascii_lower(a[k]) by {
                assert(ascii_lower(x[k]) == ascii_lower(b[k]));
                assert(ascii_lower(a[k]) == ascii_lower(b[k]));
            }
        }
    }
}

proof fn lemma_ci_eq_refl(a: Seq<char>)
    ensures
        ascii_ci_eq(a, a),
{
}

/// The code found for a table row's name is that row's code.
pub proof fn lemma_key_code_of_row(i: int)
    requires
        0 <= i < key_table().len(),
    ensures
        spec_key_code(key_table()[i].0) == key_table()[i].1,
{
    let t = key_table();
    lemma_key_table_distinct();
    let n = t[i].0;
    lemma_ci_eq_refl(n);
    if n == none_name() {
        if i != 68 {
            assert(!ascii_ci_eq(t[i].0, t[68].0));
        }
    } else {
        assert forall|j: int| 0 <= j < i implies !ascii_ci_eq(#[trigger] t[j].0, n) by {
            assert(!ascii_ci_eq(t[j].0, t[i].0));
        }
        lemma_first_named_none(t, n, i);
        lemma_first_named_stable(t, n, i + 1, t.len() as int);
    }
}

/// The name found for a table row's code is that row's name.
pub proof fn lemma_key_name_of_row(i: int)
    requires
        0 <= i < key_table().len(),
    ensures
        spec_key_name(key_table()[i].1) == key_table()[i].0,
{
    let t = key_table();
    lemma_key_table_distinct();
    let c = t[i].1;
    if c == KEY_NONE {
        if i != 68 {
            assert(t[i].1 != t[68].1);
        }
    } else {
        assert forall|j: int| 0 <= j < i implies (#[trigger] t[j]).1 != c by {
            assert(t[j].1 != t[i].1);
        }
        lemma_first_coded_none(t, c, i);
        lemma_first_coded_stable(t, c, i + 1, t.len() as int);
    }
}

/// Every key name offered to the user survives the trip to its key code and
/// back: `key_name(key_code(n)) == n`.
pub proof fn lemma_name_code_round_trip(i: int)
    requires
        0 <= i < key_table().len(),
    ensures
        spec_key_name(spec_key_code(key_table()[i].0)) == key_table()[i].0,
{
    lemma_key_code_of_row(i);
    lemma_key_name_of_row(i);
}

/// Every key code offered to the user survives the trip to its key name and
/// back: `key_code(key_name(c)) == c`.
pub proof fn lemma_code_name_round_trip(i: int)
    requires
        0 <= i < key_table().len(),
    ensures
        spec_key_code(spec_key_name(key_table()[i].1)) == key_table()[i].1,
{
    lemma_key_name_of_row(i);
    lemma_key_code_of_row(i);
}

/// Key names are looked up regardless of ASCII case: names equal up to ASCII
/// case get the same key code.
pub proof fn lemma_key_code_ignores_ascii_case(a: Seq<char>, b: Seq<char>)
    requires
        ascii_ci_eq(a, b),
    ensures
        spec_key_code(a) == spec_key_code(b),
{
    let t = key_table();
    lemma_key_table_distinct();
    lemma_first_named_ci(t, a, b, t.len() as int);
    if a == none_name() && b != none_name() && b.len() != 0 {
        lemma_key_code_none_like(b);
    }
    if b == none_name() && a != none_name() && a.len() != 0 {
        assert forall|k: int| 0 <= k < b.len() implies #[trigger] ascii_lower(b[k]) == ascii_lower(a[k]) by {
            assert(ascii_lower(a[k]) == ascii_lower(b[k]));
        }
        lemma_key_code_none_like(a);
    }
}

/// A name equal to "None" up to ASCII case has no key code.
proof fn lemma_key_code_none_like(b: Seq<char>)
    requires
        ascii_ci_eq(none_name(), b),
        b.len() != 0,
    ensures
        spec_key_code(b) == KEY_NONE,
{
    let t = key_table();
    lemma_key_table_distinct();
    assert forall|j: int| 0 <= j < 68 implies !ascii_ci_eq(#[trigger] t[j].0, b) by {
        if ascii_ci_eq(t[j].0, b) {
            assert forall|k: int| 0 <= k < t[j].0.len() implies #[trigger] ascii_lower(t[j].0[k])
                == ascii_lower(t[68].0[k]) by {
                assert(ascii_lower(t[j].0[k]) == ascii_lower(b[k]));
                assert(ascii_lower(none_name()[k]) == ascii_lower(b[k]));
            }
            assert(!ascii_ci_eq(t[j].0, t[68].0));
        }
    }
    lemma_first_named_none(t, b, 68);
    assert forall|k: int| 0 <= k < t[68].0.len() implies #[trigger] ascii_lower(t[68].0[k])
        == ascii_lower(b[k]) by {
        assert(ascii_lower(none_name()[k]) == ascii_lower(b[k]));
    }
    assert(first_named(t, b, 69) == Some(68int));
}

/// `name` is the name of a key in the table.
pub open spec fn is_key_name(name: Seq<char>) -> bool {
    exists|i: int| 0 <= i < key_table().len() && key_table()[i].0 == name
}

/// No row from `j` on has a name of two or more characters starting with '0'.
spec fn no_zero_prefixed_from(t: Seq<KeyRow>, j: int) -> bool
    decreases t.len() - j,
{
    if j < 0 || j >= t.len() {
        true
    } else {
        !(t[j].0.len() >= 2 && t[j].0[0] == '0') && no_zero_prefixed_from(t, j + 1)
    }
}

proof fn lemma_no_zero_prefixed_from(t: Seq<KeyRow>, j: int, k: int)
    requires
        0 <= j <= k < t.len(),
        no_zero_prefixed_from(t, j),
    ensures
        !(t[k].0.len() >= 2 && t[k].0[0] == '0'),
    decreases k - j,
{
    if j < k {
        lemma_no_zero_prefixed_from(t, j + 1, k);
    }
}

/// No key name of the table looks like the start of a hexadecimal code:
/// none has two or more characters and starts with '0'.
proof fn lemma_no_zero_prefixed_names()
    ensures
        forall|i: int|
            0 <= i < key_table().len() ==> !((#[trigger] key_table()[i]).0.len() >= 2 && key_table()[i].0[0] == '0'),
{
    reveal_with_fuel(no_zero_prefixed_from, 70);
    assert(no_zero_prefixed_from(key_table(), 0));
    assert forall|i: int| 0 <= i < key_table().len() implies !((#[trigger] key_table()[i]).0.len() >= 2
        && key_table()[i].0[0] == '0') by {
        lemma_no_zero_prefixed_from(key_table(), 0, i);
    }
}

/// A code that no key of the table has gets a hexadecimal name, and that name
/// finds no key: `key_code(key_name(c)) == KEY_NONE`.
pub proof fn lemma_unknown_code_round_trip(c: u16)
    requires
        forall|i: int| 0 <= i < key_table().len() ==> (#[trigger] key_table()[i]).1 != c,
    ensures
        spec_key_name(c) == hex_key_name(c),
        spec_key_code(spec_key_name(c)) == KEY_NONE,
{
    let t = key_table();
    lemma_key_table_distinct();
    assert(t[68].1 == KEY_NONE);
    assert(c != KEY_NONE);
    lemma_first_coded_none(t, c, t.len() as int);
    let h = hex_key_name(c);
    assert(h.len() >= 4);
    assert(h[0] == '0' && h[1] == 'x');
    assert(h != none_name()) by {
        assert(none_name()[0] == 'N');
    }
    lemma_no_zero_prefixed_names();
    assert forall|j: int| 0 <= j < t.len() implies !ascii_ci_eq(#[trigger] t[j].0, h) by {
        if ascii_ci_eq(t[j].0, h) {
            assert(ascii_lower(t[j].0[0]) == ascii_lower(h[0]));
            assert(t[j].0[0] == '0');
            assert(!(t[j].0.len() >= 2 && t[j].0[0] == '0'));
        }
    }
    lemma_first_named_none(t, h, t.len() as int);
}

/// The letters keys have their platform virtual key codes: each name finds its
/// code, and each code its name.
pub proof fn lemma_letters_codes()
    ensures
        spec_key_code(seq!['A']) == 0x00,
        spec_key_name(0x00) == seq!['A'],
        spec_key_code(seq!['B']) == 0x0B,
        spec_key_name(0x0B) == seq!['B'],
        spec_key_code(seq!['C']) == 0x08,
        spec_key_name(0x08) == seq!['C'],
        spec_key_code(seq!['D']) == 0x02,
        spec_key_name(0x02) == seq!['D'],
        spec_key_code(seq!['E']) == 0x0E,
        spec_key_name(0x0E) == seq!['E'],
        spec_key_code(seq!['F']) == 0x03,
        spec_key_name(0x03) == seq!['F'],
        spec_key_code(seq!['G']) == 0x05,
        spec_key_name(0x05) == seq!['G'],
        spec_key_code(seq!['H']) == 0x04,
        spec_key_name(0x04) == seq!['H'],
        spec_key_code(seq!['I']) == 0x22,
        spec_key_name(0x22) == seq!['I'],
        spec_key_code(seq!['J']) == 0x26,
        spec_key_name(0x26) == seq!['J'],
        spec_key_code(seq!['K']) == 0x28,
        spec_key_name(0x28) == seq!['K'],
        spec_key_code(seq!['L']) == 0x25,
        spec_key_name(0x25) == seq!['L'],
        spec_key_code(seq!['M']) == 0x2E,
        spec_key_name(0x2E) == seq!['M'],
        spec_key_code(seq!['N']) == 0x2D,
        spec_key_name(0x2D) == seq!['N'],
        spec_key_code(seq!['O']) == 0x1F,
        spec_key_name(0x1F) == seq!['O'],
        spec_key_code(seq!['P']) == 0x23,
        spec_key_name(0x23) == seq!['P'],
        spec_key_code(seq!['Q']) == 0x0C,
        spec_key_name(0x0C) == seq!['Q'],
        spec_key_code(seq!['R']) == 0x0F,
        spec_key_name(0x0F) == seq!['R'],
        spec_key_code(seq!['S']) == 0x01,
        spec_key_name(0x01) == seq!['S'],
        spec_key_code(seq!['T']) == 0x11,
        spec_key_name(0x11) == seq!['T'],
        spec_key_code(seq!['U']) == 0x20,
        spec_key_name(0x20) == seq!['U'],
        spec_key_code(seq!['V']) == 0x09,
        spec_key_name(0x09) == seq!['V'],
        spec_key_code(seq!['W']) == 0x0D,
        spec_key_name(0x0D) == seq!['W'],
        spec_key_code(seq!['X']) == 0x07,
        spec_key_name(0x07) == seq!['X'],
        spec_key_code(seq!['Y']) == 0x10,
        spec_key_name(0x10) == seq!['Y'],
        spec_key_code(seq!['Z']) == 0x06,
        spec_key_name(0x06) == seq!['Z'],
{
    lemma_key_code_of_row(0);
    lemma_key_name_of_row(0);
    assert(key_table()[0].0 =~= seq!['A'] && key_table()[0].1 == 0x00);
    lemma_key_code_of_row(1);
    lemma_key_name_of_row(1);
    assert(key_table()[1].0 =~= seq!['B'] && key_table()[1].1 == 0x0B);
    lemma_key_code_of_row(2);
    lemma_key_name_of_row(2);
    assert(key_table()[2].0 =~= seq!['C'] && key_table()[2].1 == 0x08);
    lemma_key_code_of_row(3);
    lemma_key_name_of_row(3);
    assert(key_table()[3].0 =~= seq!['D'] && key_table()[3].1 == 0x02);
    lemma_key_code_of_row(4);
    lemma_key_name_of_row(4);
    assert(key_table()[4].0 =~= seq!['E'] && key_table()[4].1 == 0x0E);
    lemma_key_code_of_row(5);
    lemma_key_name_of_row(5);
    assert(key_table()[5].0 =~= seq!['F'] && key_table()[5].1 == 0x03);
    lemma_key_code_of_row(6);
    lemma_key_name_of_row(6);
    assert(key_table()[6].0 =~= seq!['G'] && key_table()[6].1 == 0x05);
    lemma_key_code_of_row(7);
    lemma_key_name_of_row(7);
    assert(key_table()[7].0 =~= seq!['H'] && key_table()[7].1 == 0x04);
    lemma_key_code_of_row(8);
    lemma_key_name_of_row(8);
    assert(key_table()[8].0 =~= seq!['I'] && key_table()[8].1 == 0x22);
    lemma_key_code_of_row(9);
    lemma_key_name_of_row(9);
    assert(key_table()[9].0 =~= seq!['J'] && key_table()[9].1 == 0x26);
    lemma_key_code_of_row(10);
    lemma_key_name_of_row(10);
    assert(key_table()[10].0 =~= seq!['K'] && key_table()[10].1 == 0x28);
    lemma_key_code_of_row(11);
    lemma_key_name_of_row(11);
    assert(key_table()[11].0 =~= seq!['L'] && key_table()[11].1 == 0x25);
    lemma_key_code_of_row(12);
    lemma_key_name_of_row(12);
    assert(key_table()[12].0 =~= seq!['M'] && key_table()[12].1 == 0x2E);
    lemma_key_code_of_row(13);
    lemma_key_name_of_row(13);
    assert(key_table()[13].0 =~= seq!['N'] && key_table()[13].1 == 0x2D);
    lemma_key_code_of_row(14);
    lemma_key_name_of_row(14);
    assert(key_table()[14].0 =~= seq!['O'] && key_table()[14].1 == 0x1F);
    lemma_key_code_of_row(15);
    lemma_key_name_of_row(15);
    assert(key_table()[15].0 =~= seq!['P'] && key_table()[15].1 == 0x23);
    lemma_key_code_of_row(16);
    lemma_key_name_of_row(16);
    assert(key_table()[16].0 =~= seq!['Q'] && key_table()[16].1 == 0x0C);
    lemma_key_code_of_row(17);
    lemma_key_name_of_row(17);
    assert(key_table()[17].0 =~= seq!['R'] && key_table()[17].1 == 0x0F);
    lemma_key_code_of_row(18);
    lemma_key_name_of_row(18);
    assert(key_table()[18].0 =~= seq!['S'] && key_table()[18].1 == 0x01);
    lemma_key_code_of_row(19);
    lemma_key_name_of_row(19);
    assert(key_table()[19].0 =~= seq!['T'] && key_table()[19].1 == 0x11);
    lemma_key_code_of_row(20);
    lemma_key_name_of_row(20);
    assert(key_table()[20].0 =~= seq!['U'] && key_table()[20].1 == 0x20);
    lemma_key_code_of_row(21);
    lemma_key_name_of_row(21);
    assert(key_table()[21].0 =~= seq!['V'] && key_table()[21].1 == 0x09);
    lemma_key_code_of_row(22);
    lemma_key_name_of_row(22);
    assert(key_table()[22].0 =~= seq!['W'] && key_table()[22].1 == 0x0D);
    lemma_key_code_of_row(23);
    lemma_key_name_of_row(23);
    assert(key_table()[23].0 =~= seq!['X'] && key_table()[23].1 == 0x07);
    lemma_key_code_of_row(24);
    lemma_key_name_of_row(24);
    assert(key_table()[24].0 =~= seq!['Y'] && key_table()[24].1 == 0x10);
    lemma_key_code_of_row(25);
    lemma_key_name_of_row(25);
    assert(key_table()[25].0 =~= seq!['Z'] && key_table()[25].1 == 0x06);
}

/// The digits keys have their platform virtual key codes: each name finds its
/// code, and each code its name.
pub proof fn lemma_digits_codes()
    ensures
        spec_key_code(seq!['0']) == 0x1D,
        spec_key_name(0x1D) == seq!['0'],
        spec_key_code(seq!['1']) == 0x12,
        spec_key_name(0x12) == seq!['1'],
        spec_key_code(seq!['2']) == 0x13,
        spec_key_name(0x13) == seq!['2'],
        spec_key_code(seq!['3']) == 0x14,
        spec_key_name(0x14) == seq!['3'],
        spec_key_code(seq!['4']) == 0x15,
        spec_key_name(0x15) == seq!['4'],
        spec_key_code(seq!['5']) == 0x17,
        spec_key_name(0x17) == seq!['5'],
        spec_key_code(seq!['6']) == 0x16,
        spec_key_name(0x16) == seq!['6'],
        spec_key_code(seq!['7']) == 0x1A,
        spec_key_name(0x1A) == seq!['7'],
        spec_key_code(seq!['8']) == 0x1C,
        spec_key_name(0x1C) == seq!['8'],
        spec_key_code(seq!['9']) == 0x19,
        spec_key_name(0x19) == seq!['9'],
{
    lemma_key_code_of_row(26);
    lemma_key_name_of_row(26);
    assert(key_table()[26].0 =~= seq!['0'] && key_table()[26].1 == 0x1D);
    lemma_key_code_of_row(27);
    lemma_key_name_of_row(27);
    assert(key_table()[27].0 =~= seq!['1'] && key_table()[27].1 == 0x12);
    lemma_key_code_of_row(28);
    lemma_key_name_of_row(28);
    assert(key_table()[28].0 =~= seq!['2'] && key_table()[28].1 == 0x13);
    lemma_key_code_of_row(29);
    lemma_key_name_of_row(29);
    assert(key_table()[29].0 =~= seq!['3'] && key_table()[29].1 == 0x14);
    lemma_key_code_of_row(30);
    lemma_key_name_of_row(30);
    assert(key_table()[30].0 =~= seq!['4'] && key_table()[30].1 == 0x15);
    lemma_key_code_of_row(31);
    lemma_key_name_of_row(31);
    assert(key_table()[31].0 =~= seq!['5'] && key_table()[31].1 == 0x17);
    lemma_key_code_of_row(32);
    lemma_key_name_of_row(32);
    assert(key_table()[32].0 =~= seq!['6'] && key_table()[32].1 == 0x16);
    lemma_key_code_of_row(33);
    lemma_key_name_of_row(33);
    assert(key_table()[33].0 =~= seq!['7'] && key_table()[33].1 == 0x1A);
    lemma_key_code_of_row(34);
    lemma_key_name_of_row(34);
    assert(key_table()[34].0 =~= seq!['8'] && key_table()[34].1 == 0x1C);
    lemma_key_code_of_row(35);
    lemma_key_name_of_row(35);
    assert(key_table()[35].0 =~= seq!['9'] && key_table()[35].1 == 0x19);
}

/// The specials keys have their platform virtual key codes: each name finds its
/// code, and each code its name.
pub proof fn lemma_specials_codes()
    ensures
        spec_key_code(seq!['S', 'p', 'a', 'c', 'e']) == 0x31,
        spec_key_name(0x31) == seq!['S', 'p', 'a', 'c', 'e'],
        spec_key_code(seq!['R', 'e', 't', 'u', 'r', 'n']) == 0x24,
        spec_key_name(0x24) == seq!['R', 'e', 't', 'u', 'r', 'n'],
        spec_key_code(seq!['T', 'a', 'b']) == 0x30,
        spec_key_name(0x30) == seq!['T', 'a', 'b'],
        spec_key_code(seq!['E', 's', 'c', 'a', 'p', 'e']) == 0x35,
        spec_key_name(0x35) == seq!['E', 's', 'c', 'a', 'p', 'e'],
        spec_key_code(seq!['D', 'e', 'l', 'e', 't', 'e']) == 0x33,
        spec_key_name(0x33) == seq!['D', 'e', 'l', 'e', 't', 'e'],
        spec_key_code(seq!['M', 'i', 'n', 'u', 's']) == 0x1B,
        spec_key_name(0x1B) == seq!['M', 'i', 'n', 'u', 's'],
        spec_key_code(seq!['E', 'q', 'u', 'a', 'l']) == 0x18,
        spec_key_name(0x18) == seq!['E', 'q', 'u', 'a', 'l'],
        spec_key_code(seq!['L', 'e', 'f', 't', 'B', 'r', 'a', 'c', 'k', 'e', 't']) == 0x21,
        spec_key_name(0x21) == seq!['L', 'e', 'f', 't', 'B', 'r', 'a', 'c', 'k', 'e', 't'],
        spec_key_code(seq!['R', 'i', 'g', 'h', 't', 'B', 'r', 'a', 'c', 'k', 'e', 't']) == 0x1E,
        spec_key_name(0x1E) == seq!['R', 'i', 'g', 'h', 't', 'B', 'r', 'a', 'c', 'k', 'e', 't'],
        spec_key_code(seq!['S', 'e', 'm', 'i', 'c', 'o', 'l', 'o', 'n']) == 0x29,
        spec_key_name(0x29) == seq!['S', 'e', 'm', 'i', 'c', 'o', 'l', 'o', 'n'],
        spec_key_code(seq!['Q', 'u', 'o', 't', 'e']) == 0x27,
        spec_key_name(0x27) == seq!['Q', 'u', 'o', 't', 'e'],
        spec_key_code(seq!['C', 'o', 'm', 'm', 'a']) == 0x2B,
        spec_key_name(0x2B) == seq!['C', 'o', 'm', 'm', 'a'],
        spec_key_code(seq!['P', 'e', 'r', 'i', 'o', 'd']) == 0x2F,
        spec_key_name(0x2F) == seq!['P', 'e', 'r', 'i', 'o', 'd'],
        spec_key_code(seq!['S', 'l', 'a', 's', 'h']) == 0x2C,
        spec_key_name(0x2C) == seq!['S', 'l', 'a', 's', 'h'],
        spec_key_code(seq!['B', 'a', 'c', 'k', 's', 'l', 'a', 's', 'h']) == 0x2A,
        spec_key_name(0x2A) == seq!['B', 'a', 'c', 'k', 's', 'l', 'a', 's', 'h'],
        spec_key_code(seq!['G', 'r', 'a', 'v', 'e']) == 0x32,
        spec_key_name(0x32) == seq!['G', 'r', 'a', 'v', 'e'],
{
    lemma_key_code_of_row(36);
    lemma_key_name_of_row(36);
    assert(key_table()[36].0 =~= seq!['S', 'p', 'a', 'c', 'e'] && key_table()[36].1 == 0x31);
    lemma_key_code_of_row(37);
    lemma_key_name_of_row(37);
    assert(key_table()[37].0 =~= seq!['R', 'e', 't', 'u', 'r', 'n'] && key_table()[37].1 == 0x24);
    lemma_key_code_of_row(38);
    lemma_key_name_of_row(38);
    assert(key_table()[38].0 =~= seq!['T', 'a', 'b'] && key_table()[38].1 == 0x30);
    lemma_key_code_of_row(39);
    lemma_key_name_of_row(39);
    assert(key_table()[39].0 =~= seq!['E', 's', 'c', 'a', 'p', 'e'] && key_table()[39].1 == 0x35);
    lemma_key_code_of_row(40);
    lemma_key_name_of_row(40);
    assert(key_table()[40].0 =~= seq!['D', 'e', 'l', 'e', 't', 'e'] && key_table()[40].1 == 0x33);
    lemma_key_code_of_row(41);
    lemma_key_name_of_row(41);
    assert(key_table()[41].0 =~= seq!['M', 'i', 'n', 'u', 's'] && key_table()[41].1 == 0x1B);
    lemma_key_code_of_row(42);
    lemma_key_name_of_row(42);
    assert(key_table()[42].0 =~= seq!['E', 'q', 'u', 'a', 'l'] && key_table()[42].1 == 0x18);
    lemma_key_code_of_row(43);
    lemma_key_name_of_row(43);
    assert(key_table()[43].0 =~= seq!['L', 'e', 'f', 't', 'B', 'r', 'a', 'c', 'k', 'e', 't'] && key_table()[43].1 == 0x21);
    lemma_key_code_of_row(44);
    lemma_key_name_of_row(44);
    assert(key_table()[44].0 =~= seq!['R', 'i', 'g', 'h', 't', 'B', 'r', 'a', 'c', 'k', 'e', 't'] && key_table()[44].1 == 0x1E);
    lemma_key_code_of_row(45);
    lemma_key_name_of_row(45);
    assert(key_table()[45].0 =~= seq!['S', 'e', 'm', 'i', 'c', 'o', 'l', 'o', 'n'] && key_table()[45].1 == 0x29);
    lemma_key_code_of_row(46);
    lemma_key_name_of_row(46);
    assert(key_table()[46].0 =~= seq!['Q', 'u', 'o', 't', 'e'] && key_table()[46].1 == 0x27);
    lemma_key_code_of_row(47);
    lemma_key_name_of_row(47);
    assert(key_table()[47].0 =~= seq!['C', 'o', 'm', 'm', 'a'] && key_table()[47].1 == 0x2B);
    lemma_key_code_of_row(48);
    lemma_key_name_of_row(48);
    assert(key_table()[48].0 =~= seq!['P', 'e', 'r', 'i', 'o', 'd'] && key_table()[48].1 == 0x2F);
    lemma_key_code_of_row(49);
    lemma_key_name_of_row(49);
    assert(key_table()[49].0 =~= seq!['S', 'l', 'a', 's', 'h'] && key_table()[49].1 == 0x2C);
    lemma_key_code_of_row(50);
    lemma_key_name_of_row(50);
    assert(key_table()[50].0 =~= seq!['B', 'a', 'c', 'k', 's', 'l', 'a', 's', 'h'] && key_table()[50].1 == 0x2A);
    lemma_key_code_of_row(51);
    lemma_key_name_of_row(51);
    assert(key_table()[51].0 =~= seq!['G', 'r', 'a', 'v', 'e'] && key_table()[51].1 == 0x32);
}

/// The navigation keys have their platform virtual key codes: each name finds its
/// code, and each code its name.
pub proof fn lemma_navigation_codes()
    ensures
        spec_key_code(seq!['U', 'p', 'A', 'r', 'r', 'o', 'w']) == 0x7E,
        spec_key_name(0x7E) == seq!['U', 'p', 'A', 'r', 'r', 'o', 'w'],
        spec_key_code(seq!['D', 'o', 'w', 'n', 'A', 'r', 'r', 'o', 'w']) == 0x7D,
        spec_key_name(0x7D) == seq!['D', 'o', 'w', 'n', 'A', 'r', 'r', 'o', 'w'],
        spec_key_code(seq!['L', 'e', 'f', 't', 'A', 'r', 'r', 'o', 'w']) == 0x7B,
        spec_key_name(0x7B) == seq!['L', 'e', 'f', 't', 'A', 'r', 'r', 'o', 'w'],
        spec_key_code(seq!['R', 'i', 'g', 'h', 't', 'A', 'r', 'r', 'o', 'w']) == 0x7C,
        spec_key_name(0x7C) == seq!['R', 'i', 'g', 'h', 't', 'A', 'r', 'r', 'o', 'w'],
        spec_key_code(seq!['F', '1']) == 0x7A,
        spec_key_name(0x7A) == seq!['F', '1'],
        spec_key_code(seq!['F', '2']) == 0x78,
        spec_key_name(0x78) == seq!['F', '2'],
        spec_key_code(seq!['F', '3']) == 0x63,
        spec_key_name(0x63) == seq!['F', '3'],
        spec_key_code(seq!['F', '4']) == 0x76,
        spec_key_name(0x76) == seq!['F', '4'],
        spec_key_code(seq!['F', '5']) == 0x60,
        spec_key_name(0x60) == seq!['F', '5'],
        spec_key_code(seq!['F', '6']) == 0x61,
        spec_key_name(0x61) == seq!['F', '6'],
        spec_key_code(seq!['F', '7']) == 0x62,
        spec_key_name(0x62) == seq!['F', '7'],
        spec_key_code(seq!['F', '8']) == 0x64,
        spec_key_name(0x64) == seq!['F', '8'],
        spec_key_code(seq!['F', '9']) == 0x65,
        spec_key_name(0x65) == seq!['F', '9'],
        spec_key_code(seq!['F', '1', '0']) == 0x6D,
        spec_key_name(0x6D) == seq!['F', '1', '0'],
        spec_key_code(seq!['F', '1', '1']) == 0x67,
        spec_key_name(0x67) == seq!['F', '1', '1'],
        spec_key_code(seq!['F', '1', '2']) == 0x6F,
        spec_key_name(0x6F) == seq!['F', '1', '2'],
        spec_key_code(seq!['N', 'o', 'n', 'e']) == 0xFF,
        spec_key_name(0xFF) == seq!['N', 'o', 'n', 'e'],
{
    lemma_key_code_of_row(52);
    lemma_key_name_of_row(52);
    assert(key_table()[52].0 =~= seq!['U', 'p', 'A', 'r', 'r', 'o', 'w'] && key_table()[52].1 == 0x7E);
    lemma_key_code_of_row(53);
    lemma_key_name_of_row(53);
    assert(key_table()[53].0 =~= seq!['D', 'o', 'w', 'n', 'A', 'r', 'r', 'o', 'w'] && key_table()[53].1 == 0x7D);
    lemma_key_code_of_row(54);
    lemma_key_name_of_row(54);
    assert(key_table()[54].0 =~= seq!['L', 'e', 'f', 't', 'A', 'r', 'r', 'o', 'w'] && key_table()[54].1 == 0x7B);
    lemma_key_code_of_row(55);
    lemma_key_name_of_row(55);
    assert(key_table()[55].0 =~= seq!['R', 'i', 'g', 'h', 't', 'A', 'r', 'r', 'o', 'w'] && key_table()[55].1 == 0x7C);
    lemma_key_code_of_row(56);
    lemma_key_name_of_row(56);
    assert(key_table()[56].0 =~= seq!['F', '1'] && key_table()[56].1 == 0x7A);
    lemma_key_code_of_row(57);
    lemma_key_name_of_row(57);
    assert(key_table()[57].0 =~= seq!['F', '2'] && key_table()[57].1 == 0x78);
    lemma_key_code_of_row(58);
    lemma_key_name_of_row(58);
    assert(key_table()[58].0 =~= seq!['F', '3'] && key_table()[58].1 == 0x63);
    lemma_key_code_of_row(59);
    lemma_key_name_of_row(59);
    assert(key_table()[59].0 =~= seq!['F', '4'] && key_table()[59].1 == 0x76);
    lemma_key_code_of_row(60);
    lemma_key_name_of_row(60);
    assert(key_table()[60].0 =~= seq!['F', '5'] && key_table()[60].1 == 0x60);
    lemma_key_code_of_row(61);
    lemma_key_name_of_row(61);
    assert(key_table()[61].0 =~= seq!['F', '6'] && key_table()[61].1 == 0x61);
    lemma_key_code_of_row(62);
    lemma_key_name_of_row(62);
    assert(key_table()[62].0 =~= seq!['F', '7'] && key_table()[62].1 == 0x62);
    lemma_key_code_of_row(63);
    lemma_key_name_of_row(63);
    assert(key_table()[63].0 =~= seq!['F', '8'] && key_table()[63].1 == 0x64);
    lemma_key_code_of_row(64);
    lemma_key_name_of_row(64);
    assert(key_table()[64].0 =~= seq!['F', '9'] && key_table()[64].1 == 0x65);
    lemma_key_code_of_row(65);
    lemma_key_name_of_row(65);
    assert(key_table()[65].0 =~= seq!['F', '1', '0'] && key_table()[65].1 == 0x6D);
    lemma_key_code_of_row(66);
    lemma_key_name_of_row(66);
    assert(key_table()[66].0 =~= seq!['F', '1', '1'] && key_table()[66].1 == 0x67);
    lemma_key_code_of_row(67);
    lemma_key_name_of_row(67);
    assert(key_table()[67].0 =~= seq!['F', '1', '2'] && key_table()[67].1 == 0x6F);
    lemma_key_code_of_row(68);
    lemma_key_name_of_row(68);
    assert(key_table()[68].0 =~= seq!['N', 'o', 'n', 'e'] && key_table()[68].1 == 0xFF);
}

} // verus!
