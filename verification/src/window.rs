//! The agent window's decisions: what each window message does, where the
//! window goes, and the text handed to Win32 as UTF-16.
use vstd::prelude::*;
use vstd::string::*;

verus! {

pub const WM_CREATE: u32 = 0x0001;
pub const WM_DESTROY: u32 = 0x0002;
pub const WM_CLOSE: u32 = 0x0010;
pub const WM_COMMAND: u32 = 0x0111;
pub const WM_LBUTTONDBLCLK: u32 = 0x0203;
pub const WM_RBUTTONUP: u32 = 0x0205;
pub const WM_USER: u32 = 0x0400;
pub const WM_APP: u32 = 0x8000;

/// Notifications from the tray icon.
pub const WM_TRAY: u32 = 0x8001;
/// The status text changed.
pub const WM_STATUS: u32 = 0x0400;
/// The PIN changed.
pub const WM_PIN: u32 = 0x0401;
/// Stop the agent.
pub const WM_STOP: u32 = 0x0402;

/// Control id of the PIN label.
pub const ID_PIN: i32 = 101;
/// Control id of the status label.
pub const ID_STATUS: i32 = 102;
/// Control id of the Stop button.
pub const ID_BTN_STOP: i32 = 103;

/// Command id of the tray menu's Show item.
pub const MENU_SHOW: i32 = 1;
/// Command id of the tray menu's Quit item.
pub const MENU_QUIT: i32 = 2;

/// Width of the agent window.
pub const WINDOW_WIDTH: i32 = 320;
/// Height of the agent window.
pub const WINDOW_HEIGHT: i32 = 175;

/// What the window procedure does with a message.
#[derive(Clone, Copy, Debug, PartialEq, Eq, Structural)]
pub enum WindowAction {
    /// Create the labels and the button, add the tray icon, center the window.
    CreateControls,
    /// Remove the tray icon and destroy the window.
    RemoveTrayAndDestroy,
    /// Hide the window (closing only hides it).
    Hide,
    /// Remove the tray icon and end the message loop.
    RemoveTrayAndQuit,
    /// Show the window and bring it to the front.
    ShowAndActivate,
    /// Show the tray icon's menu at the cursor.
    ShowTrayMenu,
    /// Copy the current status text into the status label.
    RefreshStatus,
    /// Copy the current PIN into the PIN label.
    RefreshPin,
    /// Handled; nothing to do.
    Nothing,
    /// Not handled: pass to `DefWindowProcW`.
    Default,
}

/// The low 16 bits of a message parameter.
pub open spec fn low_word(v: u32) -> u32 {
    v % 0x10000
}

fn low_word_of(v: u32) -> (r: u32)
    ensures
        r == low_word(v),
{
    assert(v & 0xFFFF == v % 0x10000) by (bit_vector);
    v & 0xFFFF
}

/// What the window procedure does with message `msg`.
pub open spec fn action_for(msg: u32, wparam: usize, lparam: isize) -> WindowAction {
    if msg == WM_CREATE {
        WindowAction::CreateControls
    } else if msg == WM_COMMAND {
        if low_word(wparam as u32) as i32 == ID_BTN_STOP { WindowAction::RemoveTrayAndDestroy } else { WindowAction::Nothing }
    } else if msg == WM_CLOSE {
        WindowAction::Hide
    } else if msg == WM_DESTROY {
        WindowAction::RemoveTrayAndQuit
    } else if msg == WM_TRAY {
        if low_word(lparam as u32) == WM_LBUTTONDBLCLK {
            WindowAction::ShowAndActivate
        } else if low_word(lparam as u32) == WM_RBUTTONUP {
            WindowAction::ShowTrayMenu
        } else {
            WindowAction::Nothing
        }
    } else if msg == WM_STATUS {
        WindowAction::RefreshStatus
    } else if msg == WM_PIN {
        WindowAction::RefreshPin
    } else if msg == WM_STOP {
        WindowAction::RemoveTrayAndDestroy
    } else {
        WindowAction::Default
    }
}

/// The window procedure's decision for one message.
pub fn window_action(msg: u32, wparam: usize, lparam: isize) -> (a: WindowAction)
    ensures
        a == action_for(msg, wparam, lparam),
{
    if msg == WM_CREATE {
        WindowAction::CreateControls
    } else if msg == WM_COMMAND {
        if low_word_of(wparam as u32) as i32 == ID_BTN_STOP {
            WindowAction::RemoveTrayAndDestroy
        } else {
            WindowAction::Nothing
        }
    } else if msg == WM_CLOSE {
        WindowAction::Hide
    } else if msg == WM_DESTROY {
        WindowAction::RemoveTrayAndQuit
    } else if msg == WM_TRAY {
        let ev: u32 = low_word_of(lparam as u32);
        if ev == WM_LBUTTONDBLCLK {
            WindowAction::ShowAndActivate
        } else if ev == WM_RBUTTONUP {
            WindowAction::ShowTrayMenu
        } else {
            WindowAction::Nothing
        }
    } else if msg == WM_STATUS {
        WindowAction::RefreshStatus
    } else if msg == WM_PIN {
        WindowAction::RefreshPin
    } else if msg == WM_STOP {
        WindowAction::RemoveTrayAndDestroy
    } else {
        WindowAction::Default
    }
}

/// What the tray menu's answer does.
#[derive(Clone, Copy, Debug, PartialEq, Eq, Structural)]
pub enum TrayChoice {
    /// Show the window and bring it to the front.
    Show,
    /// Remove the tray icon and destroy the window.
    Quit,
    /// The menu was dismissed.
    Nothing,
}

/// The effect of the tray menu command `cmd` (0 when dismissed).
pub fn tray_choice(cmd: i32) -> (c: TrayChoice)
    ensures
        c == (if cmd == MENU_SHOW {
            TrayChoice::Show
        } else if cmd == MENU_QUIT {
            TrayChoice::Quit
        } else {
            TrayChoice::Nothing
        }),
{
    if cmd == MENU_SHOW {
        TrayChoice::Show
    } else if cmd == MENU_QUIT {
        TrayChoice::Quit
    } else {
        TrayChoice::Nothing
    }
}

/// Integer division by two rounding toward zero, as Rust's `/` does.
pub open spec fn half_toward_zero(a: int) -> int {
    if a >= 0 { a / 2 } else { -((-a) / 2) }
}

/// The top-left corner that centers a `w` by `h` window in the work area.
pub open spec fn centered_origin(left: i32, top: i32, right: i32, bottom: i32, w: i32, h: i32) -> (int, int) {
    (half_toward_zero(right - left - w) + left, half_toward_zero(bottom - top - h) + top)
}

/// Where the window goes: its top-left corner, its size, and whether it
/// stays above all other windows.
#[derive(Clone, Copy, Debug, PartialEq, Eq, Structural)]
pub struct WindowPlacement {
    pub x: i32,
    pub y: i32,
    pub width: i32,
    pub height: i32,
    pub topmost: bool,
}

/// The placement of the `w` by `h` agent window: centered in the work area,
/// and always on top.
pub fn center_in(left: i32, top: i32, right: i32, bottom: i32, w: i32, h: i32) -> (r: WindowPlacement)
    requires
        i32::MIN <= right - left <= i32::MAX,
        i32::MIN <= right - left - w <= i32::MAX,
        i32::MIN <= half_toward_zero(right - left - w) + left <= i32::MAX,
        i32::MIN <= bottom - top <= i32::MAX,
        i32::MIN <= bottom - top - h <= i32::MAX,
        i32::MIN <= half_toward_zero(bottom - top - h) + top <= i32::MAX,
    ensures
        r.x == centered_origin(left, top, right, bottom, w, h).0,
        r.y == centered_origin(left, top, right, bottom, w, h).1,
        r.width == w,
        r.height == h,
        r.topmost,
{
    let x: i32 = (right - left - w) / 2 + left;
    let y: i32 = (bottom - top - h) / 2 + top;
    WindowPlacement { x, y, width: w, height: h, topmost: true }
}

/// UTF-16 code units of one character.
pub open spec fn utf16_units(c: char) -> Seq<u16> {
    let v: u32 = c as u32;
    if v < 0x10000 {
        seq![v as u16]
    } else {
        seq![(0xD800 + (v - 0x10000) / 0x400) as u16, (0xDC00 + (v - 0x10000) % 0x400) as u16]
    }
}

/// The UTF-16 encoding of a string.
pub open spec fn utf16(s: Seq<char>) -> Seq<u16>
    decreases s.len(),
{
    if s.len() == 0 {
        Seq::empty()
    } else {
        utf16_units(s[0]) + utf16(s.drop_first())
    }
}

proof fn lemma_utf16_push(s: Seq<char>, c: char)
    ensures
        utf16(s.push(c)) == utf16(s) + utf16_units(c),
    decreases s.len(),
{
    if s.len() == 0 {
        let e = s.push(c).drop_first();
        assert(e =~= Seq::<char>::empty());
        assert(utf16(e) == Seq::<u16>::empty());
        assert(s.push(c)[0] == c);
        assert(utf16(s) == Seq::<u16>::empty());
        assert(utf16(s.push(c)) == utf16_units(c) + utf16(e));
        assert(utf16_units(c) + Seq::<u16>::empty() =~= Seq::<u16>::empty() + utf16_units(c));
    } else {
        assert(s.push(c).drop_first() =~= s.drop_first().push(c));
        assert(s.push(c)[0] == s[0]);
        lemma_utf16_push(s.drop_first(), c);
        let a = utf16_units(s[0]);
        let b = utf16(s.drop_first());
        assert(utf16(s.push(c)) == a + (b + utf16_units(c)));
        assert(utf16(s) == a + b);
        assert(a + (b + utf16_units(c)) =~= (a + b) + utf16_units(c));
    }
}

/// The UTF-16 code units of a string.
fn encode_utf16(s: &str) -> (r: Vec<u16>)
    ensures
        r@ == utf16(s@),
{
    let n: usize = s.unicode_len();
    let mut r: Vec<u16> = Vec::new();
    let mut i: usize = 0;
    assert(s@.take(0) =~= Seq::<char>::empty());
    while i < n
        invariant
            n == s@.len(),
            i <= n,
            r@ == utf16(s@.take(i as int)),
        decreases n - i,
    {
        let c = s.get_char(i);
        let v: u32 = c as u32;
        let ghost before = r@;
        if v < 0x10000 {
            r.push(v as u16);
        } else {
            let w: u32 = v - 0x10000;
            r.push((0xD800 + w / 0x400) as u16);
            r.push((0xDC00 + w % 0x400) as u16);
        }
        proof {
            assert(r@ =~= before + utf16_units(c));
            lemma_utf16_push(s@.take(i as int), c);
            assert(s@.take(i + 1) =~= s@.take(i as int).push(c));
        }
        i = i + 1;
    }
    assert(s@.take(n as int) =~= s@);
    r
}

/// A string as the NUL-terminated UTF-16 that Win32 takes.
pub fn wstr(s: &str) -> (r: Vec<u16>)
    ensures
        r@ == utf16(s@).push(0),
{
    let mut units = encode_utf16(s);
    units.push(0);
    units
}

/// Units in the tray icon's tooltip buffer.
pub const TIP_UNITS: usize = 128;

/// The tooltip buffer: the first 127 units of `text` (at most), then zeros.
pub open spec fn tip_buffer(text: Seq<u16>) -> Seq<u16> {
    Seq::new(TIP_UNITS as nat, |i: int| if i < 127 && i < text.len() { text[i] } else { 0u16 })
}

/// Fills the tray icon's tooltip buffer from `text`.
pub fn fill_tip(text: &Vec<u16>) -> (r: Vec<u16>)
    ensures
        r@ == tip_buffer(text@),
{
    let mut r: Vec<u16> = Vec::new();
    let mut i: usize = 0;
    while i < TIP_UNITS
        invariant
            i <= TIP_UNITS,
            r@.len() == i,
            forall|j: int| 0 <= j < i ==> #[trigger] r@[j] == tip_buffer(text@)[j],
        decreases TIP_UNITS - i,
    {
        if i < 127 && i < text.len() {
            r.push(text[i]);
        } else {
            r.push(0);
        }
        i = i + 1;
    }
    assert(r@ =~= tip_buffer(text@));
    r
}

} // verus!
