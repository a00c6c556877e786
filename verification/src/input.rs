//! Mouse and keyboard injection records.
//!
//! Each function here builds the record that the agent hands to the Win32
//! `SendInput` call; performing the call is left to the caller.
use vstd::prelude::*;

use crate::text::str_eq;

verus! {

/// `INPUT::type` for a mouse record.
pub const INPUT_MOUSE: u32 = 0;
/// `INPUT::type` for a keyboard record.
pub const INPUT_KEYBOARD: u32 = 1;

pub const MOUSEEVENTF_MOVE: u32 = 0x0001;
pub const MOUSEEVENTF_LEFTDOWN: u32 = 0x0002;
pub const MOUSEEVENTF_LEFTUP: u32 = 0x0004;
pub const MOUSEEVENTF_RIGHTDOWN: u32 = 0x0008;
pub const MOUSEEVENTF_RIGHTUP: u32 = 0x0010;
pub const MOUSEEVENTF_MIDDLEDOWN: u32 = 0x0020;
pub const MOUSEEVENTF_MIDDLEUP: u32 = 0x0040;
pub const MOUSEEVENTF_WHEEL: u32 = 0x0800;
pub const MOUSEEVENTF_ABSOLUTE: u32 = 0x8000;
pub const KEYEVENTF_KEYUP: u32 = 0x0002;

pub const VK_BACK: u16 = 0x08;
pub const VK_TAB: u16 = 0x09;
pub const VK_RETURN: u16 = 0x0D;
pub const VK_SHIFT: u16 = 0x10;
pub const VK_CONTROL: u16 = 0x11;
pub const VK_MENU: u16 = 0x12;
pub const VK_PAUSE: u16 = 0x13;
pub const VK_CAPITAL: u16 = 0x14;
pub const VK_ESCAPE: u16 = 0x1B;
pub const VK_SPACE: u16 = 0x20;
pub const VK_PRIOR: u16 = 0x21;
pub const VK_NEXT: u16 = 0x22;
pub const VK_END: u16 = 0x23;
pub const VK_HOME: u16 = 0x24;
pub const VK_LEFT: u16 = 0x25;
pub const VK_UP: u16 = 0x26;
pub const VK_RIGHT: u16 = 0x27;
pub const VK_DOWN: u16 = 0x28;
pub const VK_SNAPSHOT: u16 = 0x2C;
pub const VK_INSERT: u16 = 0x2D;
pub const VK_DELETE: u16 = 0x2E;
pub const VK_F1: u16 = 0x70;
pub const VK_F2: u16 = 0x71;
pub const VK_F3: u16 = 0x72;
pub const VK_F4: u16 = 0x73;
pub const VK_F5: u16 = 0x74;
pub const VK_F6: u16 = 0x75;
pub const VK_F7: u16 = 0x76;
pub const VK_F8: u16 = 0x77;
pub const VK_F9: u16 = 0x78;
pub const VK_F10: u16 = 0x79;
pub const VK_F11: u16 = 0x7A;
pub const VK_F12: u16 = 0x7B;
pub const VK_NUMLOCK: u16 = 0x90;
pub const VK_SCROLL: u16 = 0x91;
pub const VK_OEM_1: u16 = 0xBA;
pub const VK_OEM_PLUS: u16 = 0xBB;
pub const VK_OEM_COMMA: u16 = 0xBC;
pub const VK_OEM_MINUS: u16 = 0xBD;
pub const VK_OEM_PERIOD: u16 = 0xBE;
pub const VK_OEM_2: u16 = 0xBF;
pub const VK_OEM_3: u16 = 0xC0;
pub const VK_OEM_4: u16 = 0xDB;
pub const VK_OEM_5: u16 = 0xDC;
pub const VK_OEM_6: u16 = 0xDD;
pub const VK_OEM_7: u16 = 0xDE;

/// One Win32 `INPUT` record, with the fields that the agent sets.
/// Fields it leaves zeroed (`time`, `dwExtraInfo`, `wScan`) are not carried.
#[derive(Clone, Copy, Debug, PartialEq, Eq, Structural)]
pub enum InputRecord {
    /// `INPUT_MOUSE` with a `MOUSEINPUT`.
    Mouse { dx: i32, dy: i32, mouse_data: u32, flags: u32 },
    /// `INPUT_KEYBOARD` with a `KEYBDINPUT`.
    Keyboard { vk: u16, flags: u32 },
}

impl InputRecord {
    /// The `INPUT::type` tag of this record.
    pub fn input_type(&self) -> (t: u32)
        ensures
            t == (if self is Mouse { INPUT_MOUSE } else { INPUT_KEYBOARD }),
    {
        match self {
            InputRecord::Mouse { .. } => INPUT_MOUSE,
            InputRecord::Keyboard { .. } => INPUT_KEYBOARD,
        }
    }
}

/// The (press, release) flags of a mouse button: 2 is the right button,
/// 1 the middle one, anything else the left one.
pub open spec fn button_flags(button: u32) -> (u32, u32) {
    if button == 2 {
        (MOUSEEVENTF_RIGHTDOWN, MOUSEEVENTF_RIGHTUP)
    } else if button == 1 {
        (MOUSEEVENTF_MIDDLEDOWN, MOUSEEVENTF_MIDDLEUP)
    } else {
        (MOUSEEVENTF_LEFTDOWN, MOUSEEVENTF_LEFTUP)
    }
}

/// The largest normalized absolute coordinate.
pub const NORMALIZED_MAX: i64 = 65535;

/// Win32 reads an absolute mouse coordinate on a 0..=65535 scale spanning
/// the screen, and puts normalized value `n` on pixel `n * extent / 65536`.
/// The normalized value for pixel `v` of an axis of `extent` pixels is the
/// smallest one that lands on `v`; off-screen pixels go to the nearest edge.
pub open spec fn normalized(v: int, extent: int) -> int {
    if v <= 0 {
        0
    } else if (v * 65536 + extent - 1) / extent > 65535 {
        65535
    } else {
        (v * 65536 + extent - 1) / extent
    }
}

/// Pixel `v` of an axis of `extent` pixels on the 0..=65535 scale.
fn normalize(v: i32, extent: i32) -> (n: i32)
    requires
        extent > 0,
    ensures
        n == normalized(v as int, extent as int),
{
    if v <= 0 {
        return 0;
    }
    assert(0 < v * 65536 + extent - 1 <= 0x7FFF_FFFF * 65536 + 0x7FFF_FFFF) by (nonlinear_arith)
        requires
            0 < v <= 0x7FFF_FFFF,
            0 < extent <= 0x7FFF_FFFF,
    ;
    let scaled: i64 = (v as i64 * 65536 + extent as i64 - 1) / extent as i64;
    if scaled > NORMALIZED_MAX {
        65535
    } else {
        scaled as i32
    }
}

/// Pointer move to pixel (x, y) of a `screen_width` by `screen_height`
/// screen, as an absolute move on the normalized scale.
pub fn mouse_move(x: i32, y: i32, screen_width: i32, screen_height: i32) -> (r: InputRecord)
    requires
        screen_width > 0,
        screen_height > 0,
    ensures
        r == (InputRecord::Mouse {
            dx: normalized(x as int, screen_width as int) as i32,
            dy: normalized(y as int, screen_height as int) as i32,
            mouse_data: 0,
            flags: MOUSEEVENTF_MOVE | MOUSEEVENTF_ABSOLUTE,
        }),
{
    let dx = normalize(x, screen_width);
    let dy = normalize(y, screen_height);
    InputRecord::Mouse { dx, dy, mouse_data: 0, flags: MOUSEEVENTF_MOVE | MOUSEEVENTF_ABSOLUTE }
}

/// An on-screen pixel comes back: for a screen of at most 65536 pixels a
/// side, the normalized value of pixel `v` is mapped by Win32 to `v` again.
pub proof fn law_move_lands_on_pixel(v: int, extent: int)
    requires
        0 <= v < extent <= 65536,
    ensures
        0 <= normalized(v, extent) <= 65535,
        normalized(v, extent) * extent / 65536 == v,
{
    if v > 0 {
        let n = (v * 65536 + extent - 1) / extent;
        assert(n * extent <= v * 65536 + extent - 1 && v * 65536 + extent - 1 < n * extent + extent) by (nonlinear_arith)
            requires
                n == (v * 65536 + extent - 1) / extent,
                extent > 0,
                v > 0,
        ;
        assert(n <= 65535) by (nonlinear_arith)
            requires
                n * extent <= v * 65536 + extent - 1,
                v <= extent - 1,
                extent <= 65536,
                extent > 0,
        ;
        assert(n * extent / 65536 == v) by (nonlinear_arith)
            requires
                v * 65536 <= n * extent,
                n * extent < v * 65536 + 65536,
        ;
    }
}

/// Press (`down`) or release a mouse button at the current position.
pub fn mouse_click_button(button: u32, down: bool) -> (r: InputRecord)
    ensures
        r == (InputRecord::Mouse {
            dx: 0,
            dy: 0,
            mouse_data: 0,
            flags: if down { button_flags(button).0 } else { button_flags(button).1 },
        }),
{
    let (down_flag, up_flag) = if button == 2 {
        (MOUSEEVENTF_RIGHTDOWN, MOUSEEVENTF_RIGHTUP)
    } else if button == 1 {
        (MOUSEEVENTF_MIDDLEDOWN, MOUSEEVENTF_MIDDLEUP)
    } else {
        (MOUSEEVENTF_LEFTDOWN, MOUSEEVENTF_LEFTUP)
    };
    InputRecord::Mouse {
        dx: 0,
        dy: 0,
        mouse_data: 0,
        flags: if down { down_flag } else { up_flag },
    }
}

/// Vertical wheel motion by `dy`; the horizontal amount is not used.
/// The wheel delta is carried in `mouseData` as the two's-complement bits of `dy`.
pub fn mouse_scroll(_dx: i32, dy: i32) -> (r: InputRecord)
    ensures
        r == (InputRecord::Mouse { dx: 0, dy: 0, mouse_data: dy as u32, flags: MOUSEEVENTF_WHEEL }),
{
    InputRecord::Mouse { dx: 0, dy: 0, mouse_data: dy as u32, flags: MOUSEEVENTF_WHEEL }
}

/// Key press (`down`) or release for a named key; `None` for a key without a code.
pub fn key_press(key: &str, down: bool) -> (r: Option<InputRecord>)
    ensures
        r == (match vk_code(key@) {
            Some(vk) => Some(InputRecord::Keyboard { vk, flags: if down { 0 } else { KEYEVENTF_KEYUP } }),
            None => None,
        }),
{
    match char_to_vk(key) {
        Some(vk) => {
            let flags: u32 = if down { 0 } else { KEYEVENTF_KEYUP };
            Some(InputRecord::Keyboard { vk, flags })
        },
        None => None,
    }
}

/// A single character in `lo..=hi`.
pub open spec fn single_char_in(key: Seq<char>, lo: char, hi: char) -> bool {
    key.len() == 1 && lo <= key[0] <= hi
}

/// The Windows virtual-key code of a key name sent by the viewer.
pub open spec fn vk_code(key: Seq<char>) -> Option<u16> {
    if key == "ENTER"@ || key == "\r"@ { Some(VK_RETURN) }
    else if key == "BACKSPACE"@ || key == "\u{8}"@ { Some(VK_BACK) }
    else if key == "TAB"@ || key == "\t"@ { Some(VK_TAB) }
    else if key == "ESCAPE"@ { Some(VK_ESCAPE) }
    else if key == "SPACE"@ || key == " "@ { Some(VK_SPACE) }
    else if key == "DELETE"@ { Some(VK_DELETE) }
    else if key == "INSERT"@ { Some(VK_INSERT) }
    else if key == "SHIFT"@ { Some(VK_SHIFT) }
    else if key == "CONTROL"@ || key == "CTRL"@ { Some(VK_CONTROL) }
    else if key == "ALT"@ { Some(VK_MENU) }
    else if key == "CAPSLOCK"@ { Some(VK_CAPITAL) }
    else if key == "NUMLOCK"@ { Some(VK_NUMLOCK) }
    else if key == "SCROLLLOCK"@ { Some(VK_SCROLL) }
    else if key == "PRINTSCREEN"@ { Some(VK_SNAPSHOT) }
    else if key == "PAUSE"@ { Some(VK_PAUSE) }
    else if key == "UP"@ { Some(VK_UP) }
    else if key == "DOWN"@ { Some(VK_DOWN) }
    else if key == "LEFT"@ { Some(VK_LEFT) }
    else if key == "RIGHT"@ { Some(VK_RIGHT) }
    else if key == "HOME"@ { Some(VK_HOME) }
    else if key == "END"@ { Some(VK_END) }
    else if key == "PAGEUP"@ { Some(VK_PRIOR) }
    else if key == "PAGEDOWN"@ { Some(VK_NEXT) }
    else if key == "F1"@ { Some(VK_F1) }
    else if key == "F2"@ { Some(VK_F2) }
    else if key == "F3"@ { Some(VK_F3) }
    else if key == "F4"@ { Some(VK_F4) }
    else if key == "F5"@ { Some(VK_F5) }
    else if key == "F6"@ { Some(VK_F6) }
    else if key == "F7"@ { Some(VK_F7) }
    else if key == "F8"@ { Some(VK_F8) }
    else if key == "F9"@ { Some(VK_F9) }
    else if key == "F10"@ { Some(VK_F10) }
    else if key == "F11"@ { Some(VK_F11) }
    else if key == "F12"@ { Some(VK_F12) }
    else if key == ","@ || key == "<"@ { Some(VK_OEM_COMMA) }
    else if key == "."@ || key == ">"@ { Some(VK_OEM_PERIOD) }
    else if key == ";"@ || key == ":"@ { Some(VK_OEM_1) }
    else if key == "'"@ || key == "\""@ { Some(VK_OEM_7) }
    else if key == "["@ || key == "{"@ { Some(VK_OEM_4) }
    else if key == "]"@ || key == "}"@ { Some(VK_OEM_6) }
    else if key == "\\"@ || key == "|"@ { Some(VK_OEM_5) }
    else if key == "`"@ || key == "~"@ { Some(VK_OEM_3) }
    else if key == "-"@ || key == "_"@ { Some(VK_OEM_MINUS) }
    else if key == "="@ || key == "+"@ { Some(VK_OEM_PLUS) }
    else if key == "/"@ || key == "?"@ { Some(VK_OEM_2) }
    else if single_char_in(key, 'A', 'Z') { Some(key[0] as u16) }
    else if single_char_in(key, 'a', 'z') { Some((key[0] as u16 - 32) as u16) }
    else if single_char_in(key, '0', '9') { Some(key[0] as u16) }
    else { None }
}

/// Is `key` a single character in `lo..=hi`?
fn is_single_char_in(key: &str, lo: char, hi: char) -> (r: Option<char>)
    ensures
        r is Some <==> single_char_in(key@, lo, hi),
        r matches Some(c) ==> c == key@[0],
{
    if key.unicode_len() == 1 {
        let c = key.get_char(0);
        if lo <= c && c <= hi {
            return Some(c);
        }
    }
    None
}

/// Maps a key name to its Windows virtual-key code.
pub fn char_to_vk(key: &str) -> (r: Option<u16>)
    ensures
        r == vk_code(key@),
{
    if str_eq(key, "ENTER") || str_eq(key, "\r") { return Some(VK_RETURN); }
    if str_eq(key, "BACKSPACE") || str_eq(key, "\u{8}") { return Some(VK_BACK); }
    if str_eq(key, "TAB") || str_eq(key, "\t") { return Some(VK_TAB); }
    if str_eq(key, "ESCAPE") { return Some(VK_ESCAPE); }
    if str_eq(key, "SPACE") || str_eq(key, " ") { return Some(VK_SPACE); }
    if str_eq(key, "DELETE") { return Some(VK_DELETE); }
    if str_eq(key, "INSERT") { return Some(VK_INSERT); }
    if str_eq(key, "SHIFT") { return Some(VK_SHIFT); }
    if str_eq(key, "CONTROL") || str_eq(key, "CTRL") { return Some(VK_CONTROL); }
    if str_eq(key, "ALT") { return Some(VK_MENU); }
    if str_eq(key, "CAPSLOCK") { return Some(VK_CAPITAL); }
    if str_eq(key, "NUMLOCK") { return Some(VK_NUMLOCK); }
    if str_eq(key, "SCROLLLOCK") { return Some(VK_SCROLL); }
    if str_eq(key, "PRINTSCREEN") { return Some(VK_SNAPSHOT); }
    if str_eq(key, "PAUSE") { return Some(VK_PAUSE); }
    if str_eq(key, "UP") { return Some(VK_UP); }
    if str_eq(key, "DOWN") { return Some(VK_DOWN); }
    if str_eq(key, "LEFT") { return Some(VK_LEFT); }
    if str_eq(key, "RIGHT") { return Some(VK_RIGHT); }
    if str_eq(key, "HOME") { return Some(VK_HOME); }
    if str_eq(key, "END") { return Some(VK_END); }
    if str_eq(key, "PAGEUP") { return Some(VK_PRIOR); }
    if str_eq(key, "PAGEDOWN") { return Some(VK_NEXT); }
    if str_eq(key, "F1") { return Some(VK_F1); }
    if str_eq(key, "F2") { return Some(VK_F2); }
    if str_eq(key, "F3") { return Some(VK_F3); }
    if str_eq(key, "F4") { return Some(VK_F4); }
    if str_eq(key, "F5") { return Some(VK_F5); }
    if str_eq(key, "F6") { return Some(VK_F6); }
    if str_eq(key, "F7") { return Some(VK_F7); }
    if str_eq(key, "F8") { return Some(VK_F8); }
    if str_eq(key, "F9") { return Some(VK_F9); }
    if str_eq(key, "F10") { return Some(VK_F10); }
    if str_eq(key, "F11") { return Some(VK_F11); }
    if str_eq(key, "F12") { return Some(VK_F12); }
    if str_eq(key, ",") || str_eq(key, "<") { return Some(VK_OEM_COMMA); }
    if str_eq(key, ".") || str_eq(key, ">") { return Some(VK_OEM_PERIOD); }
    if str_eq(key, ";") || str_eq(key, ":") { return Some(VK_OEM_1); }
    if str_eq(key, "'") || str_eq(key, "\"") { return Some(VK_OEM_7); }
    if str_eq(key, "[") || str_eq(key, "{") { return Some(VK_OEM_4); }
    if str_eq(key, "]") || str_eq(key, "}") { return Some(VK_OEM_6); }
    if str_eq(key, "\\") || str_eq(key, "|") { return Some(VK_OEM_5); }
    if str_eq(key, "`") || str_eq(key, "~") { return Some(VK_OEM_3); }
    if str_eq(key, "-") || str_eq(key, "_") { return Some(VK_OEM_MINUS); }
    if str_eq(key, "=") || str_eq(key, "+") { return Some(VK_OEM_PLUS); }
    if str_eq(key, "/") || str_eq(key, "?") { return Some(VK_OEM_2); }
    if let Some(c) = is_single_char_in(key, 'A', 'Z') {
        return Some((c as u32) as u16);
    }
    if let Some(c) = is_single_char_in(key, 'a', 'z') {
        return Some(((c as u32) - 32) as u16);
    }
    if let Some(c) = is_single_char_in(key, '0', '9') {
        return Some((c as u32) as u16);
    }
    None
}

/// Letter keys do not depend on case: a lower-case letter has the code of
/// its upper-case form.
pub proof fn law_letter_case_insensitive(c: char)
    requires
        'a' <= c <= 'z',
    ensures
        vk_code(seq![c]) == vk_code(seq![((c as u32) - 32) as char]),
        vk_code(seq![c]) is Some,
{
    let u = ((c as u32) - 32) as char;
    assert(u as u32 == (c as u32) - 32);
    assert('A' <= u <= 'Z');
    assert(seq![u][0] == u);
    assert(single_char_in(seq![u], 'A', 'Z'));
    reveal_strlit("ENTER");
    reveal_strlit("\r");
    reveal_strlit("BACKSPACE");
    reveal_strlit("\u{8}");
    reveal_strlit("TAB");
    reveal_strlit("\t");
    reveal_strlit("ESCAPE");
    reveal_strlit("SPACE");
    reveal_strlit(" ");
    reveal_strlit("DELETE");
    reveal_strlit("INSERT");
    reveal_strlit("SHIFT");
    reveal_strlit("CONTROL");
    reveal_strlit("CTRL");
    reveal_strlit("ALT");
    reveal_strlit("CAPSLOCK");
    reveal_strlit("NUMLOCK");
    reveal_strlit("SCROLLLOCK");
    reveal_strlit("PRINTSCREEN");
    reveal_strlit("PAUSE");
    reveal_strlit("UP");
    reveal_strlit("DOWN");
    reveal_strlit("LEFT");
    reveal_strlit("RIGHT");
    reveal_strlit("HOME");
    reveal_strlit("END");
    reveal_strlit("PAGEUP");
    reveal_strlit("PAGEDOWN");
    reveal_strlit("F1");
    reveal_strlit("F2");
    reveal_strlit("F3");
    reveal_strlit("F4");
    reveal_strlit("F5");
    reveal_strlit("F6");
    reveal_strlit("F7");
    reveal_strlit("F8");
    reveal_strlit("F9");
    reveal_strlit("F10");
    reveal_strlit("F11");
    reveal_strlit("F12");
    reveal_strlit(",");
    reveal_strlit("<");
    reveal_strlit(".");
    reveal_strlit(">");
    reveal_strlit(";");
    reveal_strlit(":");
    reveal_strlit("'");
    reveal_strlit("\"");
    reveal_strlit("[");
    reveal_strlit("{");
    reveal_strlit("]");
    reveal_strlit("}");
    reveal_strlit("\\");
    reveal_strlit("|");
    reveal_strlit("`");
    reveal_strlit("~");
    reveal_strlit("-");
    reveal_strlit("_");
    reveal_strlit("=");
    reveal_strlit("+");
    reveal_strlit("/");
    reveal_strlit("?");
    assert(seq![c][0] == c);
    assert(!single_char_in(seq![c], 'A', 'Z'));
    assert(single_char_in(seq![c], 'a', 'z'));
    assert(vk_code(seq![c]) == Some((c as u16 - 32) as u16));
    assert(vk_code(seq![u]) == Some(u as u16));
    assert(u as u16 == (c as u16 - 32) as u16);
}

} // verus!
