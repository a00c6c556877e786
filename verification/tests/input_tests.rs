use windows_sys::Win32::UI::Input::KeyboardAndMouse as km;
use xcontrol::input::{
    char_to_vk, key_press, mouse_click_button, mouse_move, mouse_scroll, InputRecord, INPUT_KEYBOARD,
    INPUT_MOUSE, KEYEVENTF_KEYUP, MOUSEEVENTF_ABSOLUTE, MOUSEEVENTF_LEFTDOWN, MOUSEEVENTF_LEFTUP,
    MOUSEEVENTF_MIDDLEDOWN, MOUSEEVENTF_MIDDLEUP, MOUSEEVENTF_MOVE, MOUSEEVENTF_RIGHTDOWN,
    MOUSEEVENTF_RIGHTUP, MOUSEEVENTF_WHEEL,
};

#[test]
fn flag_constants_match_win32() {
    assert_eq!(INPUT_MOUSE, km::INPUT_MOUSE);
    assert_eq!(INPUT_KEYBOARD, km::INPUT_KEYBOARD);
    assert_eq!(MOUSEEVENTF_MOVE, km::MOUSEEVENTF_MOVE);
    assert_eq!(MOUSEEVENTF_ABSOLUTE, km::MOUSEEVENTF_ABSOLUTE);
    assert_eq!(MOUSEEVENTF_LEFTDOWN, km::MOUSEEVENTF_LEFTDOWN);
    assert_eq!(MOUSEEVENTF_LEFTUP, km::MOUSEEVENTF_LEFTUP);
    assert_eq!(MOUSEEVENTF_RIGHTDOWN, km::MOUSEEVENTF_RIGHTDOWN);
    assert_eq!(MOUSEEVENTF_RIGHTUP, km::MOUSEEVENTF_RIGHTUP);
    assert_eq!(MOUSEEVENTF_MIDDLEDOWN, km::MOUSEEVENTF_MIDDLEDOWN);
    assert_eq!(MOUSEEVENTF_MIDDLEUP, km::MOUSEEVENTF_MIDDLEUP);
    assert_eq!(MOUSEEVENTF_WHEEL, km::MOUSEEVENTF_WHEEL);
    assert_eq!(KEYEVENTF_KEYUP, km::KEYEVENTF_KEYUP);
}

#[test]
fn named_keys_match_win32_codes() {
    let cases: &[(&str, u16)] = &[
        ("ENTER", km::VK_RETURN), ("\r", km::VK_RETURN), ("BACKSPACE", km::VK_BACK), ("\u{8}", km::VK_BACK),
        ("TAB", km::VK_TAB), ("\t", km::VK_TAB), ("ESCAPE", km::VK_ESCAPE), ("SPACE", km::VK_SPACE),
        (" ", km::VK_SPACE), ("DELETE", km::VK_DELETE), ("INSERT", km::VK_INSERT), ("SHIFT", km::VK_SHIFT),
        ("CONTROL", km::VK_CONTROL), ("CTRL", km::VK_CONTROL), ("ALT", km::VK_MENU),
        ("CAPSLOCK", km::VK_CAPITAL), ("NUMLOCK", km::VK_NUMLOCK), ("SCROLLLOCK", km::VK_SCROLL),
        ("PRINTSCREEN", km::VK_SNAPSHOT), ("PAUSE", km::VK_PAUSE), ("UP", km::VK_UP), ("DOWN", km::VK_DOWN),
        ("LEFT", km::VK_LEFT), ("RIGHT", km::VK_RIGHT), ("HOME", km::VK_HOME), ("END", km::VK_END),
        ("PAGEUP", km::VK_PRIOR), ("PAGEDOWN", km::VK_NEXT), ("F1", km::VK_F1), ("F2", km::VK_F2),
        ("F3", km::VK_F3), ("F4", km::VK_F4), ("F5", km::VK_F5), ("F6", km::VK_F6), ("F7", km::VK_F7),
        ("F8", km::VK_F8), ("F9", km::VK_F9), ("F10", km::VK_F10), ("F11", km::VK_F11), ("F12", km::VK_F12),
        (",", km::VK_OEM_COMMA), ("<", km::VK_OEM_COMMA), (".", km::VK_OEM_PERIOD), (">", km::VK_OEM_PERIOD),
        (";", km::VK_OEM_1), (":", km::VK_OEM_1), ("'", km::VK_OEM_7), ("\"", km::VK_OEM_7),
        ("[", km::VK_OEM_4), ("{", km::VK_OEM_4), ("]", km::VK_OEM_6), ("}", km::VK_OEM_6),
        ("\\", km::VK_OEM_5), ("|", km::VK_OEM_5), ("`", km::VK_OEM_3), ("~", km::VK_OEM_3),
        ("-", km::VK_OEM_MINUS), ("_", km::VK_OEM_MINUS), ("=", km::VK_OEM_PLUS), ("+", km::VK_OEM_PLUS),
        ("/", km::VK_OEM_2), ("?", km::VK_OEM_2),
    ];
    for (key, vk) in cases {
        assert_eq!(char_to_vk(key), Some(*vk), "key {:?}", key);
    }
}

#[test]
fn letters_and_digits_use_their_ascii_codes() {
    assert_eq!(char_to_vk("A"), Some(0x41));
    assert_eq!(char_to_vk("Z"), Some(0x5A));
    assert_eq!(char_to_vk("a"), Some(0x41));
    assert_eq!(char_to_vk("q"), Some(0x51));
    assert_eq!(char_to_vk("0"), Some(0x30));
    assert_eq!(char_to_vk("9"), Some(0x39));
}

#[test]
fn lower_case_letters_have_the_upper_case_code() {
    for c in 'a'..='z' {
        let lower = c.to_string();
        let upper = c.to_ascii_uppercase().to_string();
        assert_eq!(char_to_vk(&lower), char_to_vk(&upper));
        assert!(char_to_vk(&lower).is_some());
    }
}

#[test]
fn unknown_keys_have_no_code() {
    assert_eq!(char_to_vk(""), None);
    assert_eq!(char_to_vk("enter"), None);
    assert_eq!(char_to_vk("F13"), None);
    assert_eq!(char_to_vk("AB"), None);
    assert_eq!(char_to_vk("é"), None);
    assert_eq!(char_to_vk("!"), None);
}

#[test]
fn mouse_move_is_normalized_absolute() {
    let r = mouse_move(960, 540, 1920, 1080);
    assert_eq!(r, InputRecord::Mouse { dx: 32768, dy: 32768, mouse_data: 0, flags: 0x8001 });
    assert_eq!(r.input_type(), km::INPUT_MOUSE);
    assert_eq!(mouse_move(0, 0, 1920, 1080), InputRecord::Mouse { dx: 0, dy: 0, mouse_data: 0, flags: 0x8001 });
    assert_eq!(mouse_move(1919, 1079, 1920, 1080), InputRecord::Mouse { dx: 65502, dy: 65476, mouse_data: 0, flags: 0x8001 });
    // off-screen positions go to the nearest edge
    assert_eq!(mouse_move(5000, -7, 1920, 1080), InputRecord::Mouse { dx: 65535, dy: 0, mouse_data: 0, flags: 0x8001 });
}

#[test]
fn every_pixel_maps_back_to_itself() {
    for (w, h) in [(1920i32, 1080i32), (1366, 768), (3840, 2160), (1, 1)] {
        for x in 0..w {
            if let InputRecord::Mouse { dx, .. } = mouse_move(x, 0, w, h) {
                assert_eq!((dx as i64 * w as i64) / 65536, x as i64);
            }
        }
        for y in 0..h {
            if let InputRecord::Mouse { dy, .. } = mouse_move(0, y, w, h) {
                assert_eq!((dy as i64 * h as i64) / 65536, y as i64);
            }
        }
    }
}

#[test]
fn click_flags_per_button() {
    assert_eq!(mouse_click_button(0, true), InputRecord::Mouse { dx: 0, dy: 0, mouse_data: 0, flags: km::MOUSEEVENTF_LEFTDOWN });
    assert_eq!(mouse_click_button(0, false), InputRecord::Mouse { dx: 0, dy: 0, mouse_data: 0, flags: km::MOUSEEVENTF_LEFTUP });
    assert_eq!(mouse_click_button(1, true), InputRecord::Mouse { dx: 0, dy: 0, mouse_data: 0, flags: km::MOUSEEVENTF_MIDDLEDOWN });
    assert_eq!(mouse_click_button(1, false), InputRecord::Mouse { dx: 0, dy: 0, mouse_data: 0, flags: km::MOUSEEVENTF_MIDDLEUP });
    assert_eq!(mouse_click_button(2, true), InputRecord::Mouse { dx: 0, dy: 0, mouse_data: 0, flags: km::MOUSEEVENTF_RIGHTDOWN });
    assert_eq!(mouse_click_button(2, false), InputRecord::Mouse { dx: 0, dy: 0, mouse_data: 0, flags: km::MOUSEEVENTF_RIGHTUP });
    assert_eq!(mouse_click_button(7, true), InputRecord::Mouse { dx: 0, dy: 0, mouse_data: 0, flags: km::MOUSEEVENTF_LEFTDOWN });
}

#[test]
fn scroll_carries_twos_complement_delta() {
    assert_eq!(mouse_scroll(5, 120), InputRecord::Mouse { dx: 0, dy: 0, mouse_data: 120, flags: km::MOUSEEVENTF_WHEEL });
    assert_eq!(mouse_scroll(0, -120), InputRecord::Mouse { dx: 0, dy: 0, mouse_data: (-120i32) as u32, flags: km::MOUSEEVENTF_WHEEL });
    assert_eq!(mouse_scroll(0, -1), InputRecord::Mouse { dx: 0, dy: 0, mouse_data: 0xFFFF_FFFF, flags: 0x0800 });
}

#[test]
fn key_press_and_release() {
    assert_eq!(key_press("ENTER", true), Some(InputRecord::Keyboard { vk: 0x0D, flags: 0 }));
    assert_eq!(key_press("a", false), Some(InputRecord::Keyboard { vk: 0x41, flags: km::KEYEVENTF_KEYUP }));
    assert_eq!(key_press("nope", true), None);
    assert_eq!(key_press("ENTER", true).unwrap().input_type(), km::INPUT_KEYBOARD);
}
