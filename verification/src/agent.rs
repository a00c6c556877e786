//! The agent's decisions: its PIN, what the relay's replies mean while it
//! registers, which inputs a viewer message asks for, and the status line
//! shown in its window.
use vstd::prelude::*;
use vstd::string::*;
use vstd::set_lib::{lemma_int_range, lemma_map_size, set_int_range};
use vstd::arithmetic::div_mod::{lemma_fundamental_div_mod, lemma_mod_bound};

use crate::input::{law_move_lands_on_pixel, mouse_click_button, mouse_move, mouse_scroll, key_press, normalized, InputRecord, vk_code};
use crate::draw::DrawLog;
use crate::text::{str_eq, string_push};

verus! {

// ---------------------------------------------------------------- PIN

/// Number of letters in a PIN.
pub const PIN_LEN: usize = 5;
/// Smallest PIN letter.
pub const PIN_FIRST: u8 = 0x41;
/// Largest PIN letter.
pub const PIN_LAST: u8 = 0x48;

/// A well-formed PIN: five letters, each in `A..=H`.
pub open spec fn is_pin(s: Seq<char>) -> bool {
    &&& s.len() == PIN_LEN
    &&& forall|i: int| 0 <= i < s.len() ==> 'A' <= #[trigger] s[i] <= 'H'
}

/// rand's `rngs::ThreadRng`, carried as an opaque handle.
#[verifier::external_type_specification]
#[verifier::external_body]
pub struct ExThreadRng(rand::rngs::ThreadRng);

/// `rand::thread_rng`: a handle to the thread-local generator.
#[verifier::external_body]
fn thread_rng() -> rand::rngs::ThreadRng {
    rand::thread_rng()
}

/// The PIN letter for a base-8 digit.
spec fn pin_letter(d: int) -> char {
    (0x41 + d) as char
}

/// The base-8 digit of a PIN letter.
spec fn letter_digit(c: char) -> int {
    c as int - 0x41
}

/// The PIN whose letters are the base-8 digits of `k`, lowest first.
spec fn pin_of_number(k: int) -> Seq<char> {
    seq![
        pin_letter(k % 8),
        pin_letter((k / 8) % 8),
        pin_letter(((k / 8) / 8) % 8),
        pin_letter((((k / 8) / 8) / 8) % 8),
        pin_letter(((((k / 8) / 8) / 8) / 8) % 8),
    ]
}

/// The number whose base-8 digits are the letters of a PIN.
spec fn number_of_pin(s: Seq<char>) -> int {
    letter_digit(s[0]) + 8 * letter_digit(s[1]) + 64 * letter_digit(s[2]) + 512 * letter_digit(s[3])
        + 4096 * letter_digit(s[4])
}

/// One base-8 digit step.
proof fn lemma_div8(x: int)
    ensures
        x == 8 * (x / 8) + x % 8,
        0 <= x % 8 < 8,
{
    lemma_fundamental_div_mod(x, 8);
    lemma_mod_bound(x, 8);
}

proof fn lemma_digits(k: int)
    requires
        0 <= k < 32768,
    ensures
        k == k % 8 + 8 * ((k / 8) % 8) + 64 * (((k / 8) / 8) % 8) + 512 * ((((k / 8) / 8) / 8) % 8)
            + 4096 * (((((k / 8) / 8) / 8) / 8) % 8),
{
    let k1: int = k / 8;
    let k2: int = k1 / 8;
    let k3: int = k2 / 8;
    let k4: int = k3 / 8;
    let k5: int = k4 / 8;
    lemma_div8(k);
    lemma_div8(k1);
    lemma_div8(k2);
    lemma_div8(k3);
    lemma_div8(k4);
    assert(k == k % 8 + 8 * (k1 % 8) + 64 * (k2 % 8) + 512 * (k3 % 8) + 4096 * (k4 % 8) + 32768 * k5);
    assert(k5 == 0);
}

proof fn lemma_number_digits(d0: int, d1: int, d2: int, d3: int, d4: int)
    requires
        0 <= d0 < 8,
        0 <= d1 < 8,
        0 <= d2 < 8,
        0 <= d3 < 8,
        0 <= d4 < 8,
    ensures
        ({
            let k: int = d0 + 8 * d1 + 64 * d2 + 512 * d3 + 4096 * d4;
            &&& 0 <= k < 32768
            &&& k % 8 == d0
            &&& (k / 8) % 8 == d1
            &&& ((k / 8) / 8) % 8 == d2
            &&& (((k / 8) / 8) / 8) % 8 == d3
            &&& ((((k / 8) / 8) / 8) / 8) % 8 == d4
        }),
{
    let k: int = d0 + 8 * d1 + 64 * d2 + 512 * d3 + 4096 * d4;
    lemma_div_step(k, d0, d1 + 8 * d2 + 64 * d3 + 512 * d4);
    let k1: int = d1 + 8 * d2 + 64 * d3 + 512 * d4;
    lemma_div_step(k1, d1, d2 + 8 * d3 + 64 * d4);
    let k2: int = d2 + 8 * d3 + 64 * d4;
    lemma_div_step(k2, d2, d3 + 8 * d4);
    let k3: int = d3 + 8 * d4;
    lemma_div_step(k3, d3, d4);
    lemma_div_step(d4, d4, 0);
}

/// Dividing `8 * q + r` by 8, for a digit `r`.
proof fn lemma_div_step(x: int, r: int, q: int)
    requires
        x == 8 * q + r,
        0 <= r < 8,
    ensures
        x / 8 == q,
        x % 8 == r,
{
    lemma_div8(x);
}

/// There are 8^5 = 32768 PINs.
pub proof fn law_pin_count()
    ensures
        Set::new(|s: Seq<char>| is_pin(s)).finite(),
        Set::new(|s: Seq<char>| is_pin(s)).len() == 32768,
{
    let nums = set_int_range(0, 32768);
    let pins = Set::new(|s: Seq<char>| is_pin(s));
    let f = |k: int| pin_of_number(k);
    lemma_int_range(0, 32768);
    assert forall|a: int, b: int| nums.contains(a) && nums.contains(b) && #[trigger] f(a) == #[trigger] f(b) implies a == b by {
        assert(f(a)[0] == f(b)[0]);
        assert(f(a)[1] == f(b)[1]);
        assert(f(a)[2] == f(b)[2]);
        assert(f(a)[3] == f(b)[3]);
        assert(f(a)[4] == f(b)[4]);
        lemma_digits(a);
        lemma_digits(b);
    }
    assert forall|s: Seq<char>| #[trigger] pins.contains(s) implies nums.map(f).contains(s) by {
        let k: int = number_of_pin(s);
        assert('A' <= s[0] <= 'H');
        assert('A' <= s[1] <= 'H');
        assert('A' <= s[2] <= 'H');
        assert('A' <= s[3] <= 'H');
        assert('A' <= s[4] <= 'H');
        lemma_number_digits(letter_digit(s[0]), letter_digit(s[1]), letter_digit(s[2]), letter_digit(s[3]), letter_digit(s[4]));
        assert(f(k) =~= s);
        assert(nums.contains(k));
    }
    assert forall|s: Seq<char>| #[trigger] nums.map(f).contains(s) implies pins.contains(s) by {
        let k: int = choose|k: int| nums.contains(k) && s == f(k);
        assert forall|i: int| 0 <= i < s.len() implies 'A' <= #[trigger] s[i] <= 'H' by {
            assert(s[i] == f(k)[i]);
        }
    }
    assert(nums.map(f) =~= pins);
    lemma_map_size(nums, pins, f);
}

/// The text spelled by drawn letter codes, one character per byte.
pub fn pin_from_draws(draws: &Vec<u8>) -> (pin: String)
    ensures
        pin@ == draws@.map_values(|b: u8| b as char),
{
    let mut pin = String::new();
    let mut i: usize = 0;
    while i < draws.len()
        invariant
            i <= draws@.len(),
            pin@ == draws@.take(i as int).map_values(|b: u8| b as char),
        decreases draws@.len() - i,
    {
        let c = draws[i] as char;
        string_push(&mut pin, c);
        i = i + 1;
        assert(pin@ =~= draws@.take(i as int).map_values(|b: u8| b as char));
    }
    assert(draws@.take(draws@.len() as int) =~= draws@);
    pin
}

/// Draws a PIN with the generator: five letter codes drawn one after the
/// other from `A..=H`, each recorded in the returned log, and the PIN spells
/// them in the order drawn (letter i is draw i).
pub fn draw_pin(rng: &mut rand::rngs::ThreadRng) -> (r: (String, DrawLog))
    ensures
        r.1@.len() == PIN_LEN,
        forall|j: int| 0 <= j < PIN_LEN ==> PIN_FIRST <= #[trigger] r.1@[j] <= PIN_LAST,
        r.0@ == r.1@.map_values(|b: u8| b as char),
        is_pin(r.0@),
{
    let mut log = DrawLog::new();
    let mut draws: Vec<u8> = Vec::new();
    let mut i: usize = 0;
    while i < PIN_LEN
        invariant
            i <= PIN_LEN,
            draws@.len() == i,
            draws@ == log@,
            forall|j: int| 0 <= j < i ==> PIN_FIRST <= #[trigger] draws@[j] <= PIN_LAST,
        decreases PIN_LEN - i,
    {
        let b: u8 = log.draw(rng, PIN_FIRST, PIN_LAST);
        draws.push(b);
        i = i + 1;
    }
    let pin = pin_from_draws(&draws);
    assert forall|j: int| 0 <= j < pin@.len() implies 'A' <= #[trigger] pin@[j] <= 'H' by {
        assert(pin@[j] == draws@[j] as char);
    }
    (pin, log)
}

/// A fresh random PIN: five letters, each drawn from `A..=H`.
pub fn gen_pin() -> (pin: String)
    ensures
        is_pin(pin@),
{
    let mut rng = thread_rng();
    let (pin, _log) = draw_pin(&mut rng);
    pin
}

/// Every PIN can come out of the draws, and the draws decide the PIN: each
/// PIN is spelled by exactly one sequence of five letter codes in `A..=H`,
/// so different draws give different PINs.
pub proof fn law_pins_match_draws(pin: Seq<char>, a: Seq<u8>, b: Seq<u8>)
    ensures
        is_pin(pin) ==> ({
            let d = Seq::new(5, |i: int| pin[i] as u8);
            &&& d.len() == PIN_LEN
            &&& forall|i: int| 0 <= i < 5 ==> PIN_FIRST <= #[trigger] d[i] <= PIN_LAST
            &&& d.map_values(|c: u8| c as char) == pin
        }),
        a.len() == PIN_LEN && b.len() == PIN_LEN && a != b ==> a.map_values(|c: u8| c as char) != b.map_values(|c: u8| c as char),
{
    if is_pin(pin) {
        let d = Seq::new(5, |i: int| pin[i] as u8);
        assert forall|i: int| 0 <= i < 5 implies PIN_FIRST <= #[trigger] d[i] <= PIN_LAST && (d[i] as char) == pin[i] by {
            assert('A' <= pin[i] <= 'H');
        }
        assert(d.map_values(|c: u8| c as char) =~= pin);
    }
    if a.len() == PIN_LEN && b.len() == PIN_LEN && a != b {
        assert(exists|i: int| 0 <= i < 5 && a[i] != b[i]) by {
            if forall|i: int| 0 <= i < 5 ==> a[i] == b[i] {
                assert(a =~= b);
            }
        }
        let i = choose|i: int| 0 <= i < 5 && a[i] != b[i];
        assert((a[i] as char) as u8 == a[i]);
        assert((b[i] as char) as u8 == b[i]);
        assert(a.map_values(|c: u8| c as char)[i] != b.map_values(|c: u8| c as char)[i]);
    }
}

// ---------------------------------------------------------------- viewer messages

/// The fields of a JSON text message that the agent reads, each as the
/// agent reads it: a string field only when it is a JSON string, `x`,
/// `y` and `button` only when they are non-negative integers, and `y`
/// once more as a signed integer for scrolling.
#[derive(Clone, Debug)]
pub struct AgentMessage {
    pub msg_type: Option<String>,
    pub event: Option<String>,
    pub button: Option<u64>,
    pub x: Option<u64>,
    pub y: Option<u64>,
    pub scroll_y: Option<i64>,
    pub key: Option<String>,
}

/// An `AgentMessage` with its strings as character sequences.
pub struct AgentMessageView {
    pub msg_type: Option<Seq<char>>,
    pub event: Option<Seq<char>>,
    pub button: Option<u64>,
    pub x: Option<u64>,
    pub y: Option<u64>,
    pub scroll_y: Option<i64>,
    pub key: Option<Seq<char>>,
}

impl View for AgentMessage {
    type V = AgentMessageView;

    open spec fn view(&self) -> AgentMessageView {
        AgentMessageView {
            msg_type: opt_view(self.msg_type),
            event: opt_view(self.event),
            button: self.button,
            x: self.x,
            y: self.y,
            scroll_y: self.scroll_y,
            key: opt_view(self.key),
        }
    }
}

/// The view of an optional string field.
pub open spec fn opt_view(s: Option<String>) -> Option<Seq<char>> {
    match s {
        Some(t) => Some(t@),
        None => None,
    }
}

/// The view of an optional message.
pub open spec fn opt_message_view(m: Option<AgentMessage>) -> Option<AgentMessageView> {
    match m {
        Some(v) => Some(v@),
        None => None,
    }
}

/// Does serde_json parse `text` as a JSON value?
pub uninterp spec fn json_parses(text: Seq<char>) -> bool;

/// The member `key` of the JSON value that `text` parses to, when it is a
/// JSON string.
pub uninterp spec fn json_string_member(text: Seq<char>, key: Seq<char>) -> Option<Seq<char>>;

/// The member `key` of the JSON value that `text` parses to, when it is an
/// integer that fits in `u64`.
pub uninterp spec fn json_u64_member(text: Seq<char>, key: Seq<char>) -> Option<u64>;

/// The member `key` of the JSON value that `text` parses to, when it is an
/// integer that fits in `i64`.
pub uninterp spec fn json_i64_member(text: Seq<char>, key: Seq<char>) -> Option<i64>;

/// serde_json's `from_str::<Value>`: whether `text` is a JSON value. The
/// verdict is named, not stated.
#[verifier::external_body]
fn parses_as_json(text: &str) -> (r: bool)
    ensures
        r == json_parses(text@),
{
    serde_json::from_str::<serde_json::Value>(text).is_ok()
}

/// serde_json's `from_str::<Value>`, `Value::get(key)` and `Value::as_str`:
/// the member `key` of the parsed value when it is a string (`None` when the
/// text does not parse, the value has no such member, or the member is not
/// a string). The result is named, not stated.
#[verifier::external_body]
fn string_member(text: &str, key: &str) -> (r: Option<String>)
    ensures
        opt_view(r) == json_string_member(text@, key@),
{
    let value: serde_json::Value = serde_json::from_str(text).ok()?;
    Some(value.get(key)?.as_str()?.to_string())
}

/// serde_json's `from_str::<Value>`, `Value::get(key)` and `Value::as_u64`:
/// the member `key` of the parsed value when it is an integer in `u64`.
/// The result is named, not stated.
#[verifier::external_body]
fn u64_member(text: &str, key: &str) -> (r: Option<u64>)
    ensures
        r == json_u64_member(text@, key@),
{
    let value: serde_json::Value = serde_json::from_str(text).ok()?;
    value.get(key)?.as_u64()
}

/// serde_json's `from_str::<Value>`, `Value::get(key)` and `Value::as_i64`:
/// the member `key` of the parsed value when it is an integer in `i64`.
/// The result is named, not stated.
#[verifier::external_body]
fn i64_member(text: &str, key: &str) -> (r: Option<i64>)
    ensures
        r == json_i64_member(text@, key@),
{
    let value: serde_json::Value = serde_json::from_str(text).ok()?;
    value.get(key)?.as_i64()
}

/// The message that the agent reads from a text: `None` when the text is
/// not a JSON value; otherwise the fields `type`, `event` and `key` as
/// strings, `button`, `x` and `y` as unsigned integers, and `y` again as a
/// signed integer.
pub open spec fn parsed_agent_message(text: Seq<char>) -> Option<AgentMessageView> {
    if json_parses(text) {
        Some(AgentMessageView {
            msg_type: json_string_member(text, "type"@),
            event: json_string_member(text, "event"@),
            button: json_u64_member(text, "button"@),
            x: json_u64_member(text, "x"@),
            y: json_u64_member(text, "y"@),
            scroll_y: json_i64_member(text, "y"@),
            key: json_string_member(text, "key"@),
        })
    } else {
        None
    }
}

/// Reads the fields that the agent acts on from a text message.
pub fn parse_agent_text(text: &str) -> (r: Option<AgentMessage>)
    ensures
        opt_message_view(r) == parsed_agent_message(text@),
{
    if !parses_as_json(text) {
        return None;
    }
    let m = AgentMessage {
        msg_type: string_member(text, "type"),
        event: string_member(text, "event"),
        button: u64_member(text, "button"),
        x: u64_member(text, "x"),
        y: u64_member(text, "y"),
        scroll_y: i64_member(text, "y"),
        key: string_member(text, "key"),
    };
    let r = Some(m);
    assert(opt_message_view(r) == parsed_agent_message(text@));
    r
}

/// One step of carrying out a viewer's input.
#[derive(Clone, Copy, Debug, PartialEq, Eq, Structural)]
pub enum InputStep {
    /// Hand this record to `SendInput`.
    Send(InputRecord),
    /// Wait this many milliseconds.
    PauseMillis(u64),
}

/// The pause between the press and the release of a click.
pub const CLICK_PAUSE_MILLIS: u64 = 50;

/// The event name, the empty string when absent.
pub open spec fn event_name(msg: AgentMessageView) -> Seq<char> {
    match msg.event {
        Some(e) => e,
        None => Seq::empty(),
    }
}

pub open spec fn msg_button(msg: AgentMessageView) -> u32 {
    (match msg.button { Some(b) => b, None => 0u64 }) as u32
}

pub open spec fn msg_x(msg: AgentMessageView) -> i32 {
    (match msg.x { Some(v) => v, None => 0u64 }) as i32
}

pub open spec fn msg_y(msg: AgentMessageView) -> i32 {
    (match msg.y { Some(v) => v, None => 0u64 }) as i32
}

pub open spec fn msg_scroll(msg: AgentMessageView) -> i32 {
    (match msg.scroll_y { Some(v) => v, None => 0i64 }) as i32
}

pub open spec fn send(r: InputRecord) -> InputStep {
    InputStep::Send(r)
}

pub open spec fn move_record(x: i32, y: i32, screen: ScreenSize) -> InputRecord {
    InputRecord::Mouse {
        dx: normalized(x as int, screen.width as int) as i32,
        dy: normalized(y as int, screen.height as int) as i32,
        mouse_data: 0,
        flags: crate::input::MOUSEEVENTF_MOVE | crate::input::MOUSEEVENTF_ABSOLUTE,
    }
}

/// The size in pixels of the screen that receives the input.
#[derive(Clone, Copy, Debug, PartialEq, Eq, Structural)]
pub struct ScreenSize {
    pub width: i32,
    pub height: i32,
}

/// A screen with at least one pixel each way.
pub open spec fn screen_ok(screen: ScreenSize) -> bool {
    screen.width > 0 && screen.height > 0
}

pub open spec fn button_record(button: u32, down: bool) -> InputRecord {
    InputRecord::Mouse {
        dx: 0,
        dy: 0,
        mouse_data: 0,
        flags: if down { crate::input::button_flags(button).0 } else { crate::input::button_flags(button).1 },
    }
}

/// The key steps for a key event: nothing without a key field or for a key
/// without a code.
pub open spec fn key_steps(key: Option<Seq<char>>, down: bool) -> Seq<InputStep> {
    match key {
        Some(k) => match vk_code(k) {
            Some(vk) => seq![send(InputRecord::Keyboard { vk, flags: if down { 0 } else { crate::input::KEYEVENTF_KEYUP } })],
            None => Seq::empty(),
        },
        None => Seq::empty(),
    }
}

/// What a viewer's input message asks the agent to do.
pub open spec fn input_steps(msg: AgentMessageView, screen: ScreenSize) -> Seq<InputStep> {
    let ev = event_name(msg);
    let b: u32 = msg_button(msg);
    if ev == "mousedown"@ {
        seq![send(move_record(msg_x(msg), msg_y(msg), screen)), send(button_record(b, true))]
    } else if ev == "mouseup"@ {
        seq![send(button_record(b, false))]
    } else if ev == "mousemove"@ {
        seq![send(move_record(msg_x(msg), msg_y(msg), screen))]
    } else if ev == "click"@ {
        seq![
            send(move_record(msg_x(msg), msg_y(msg), screen)),
            send(button_record(b, true)),
            InputStep::PauseMillis(CLICK_PAUSE_MILLIS),
            send(button_record(b, false)),
        ]
    } else if ev == "scroll"@ {
        seq![send(InputRecord::Mouse { dx: 0, dy: 0, mouse_data: msg_scroll(msg) as u32, flags: crate::input::MOUSEEVENTF_WHEEL })]
    } else if ev == "keydown"@ {
        key_steps(msg.key, true)
    } else if ev == "keyup"@ {
        key_steps(msg.key, false)
    } else {
        Seq::empty()
    }
}

fn key_event_steps(key: &Option<String>, down: bool) -> (r: Vec<InputStep>)
    ensures
        r@ == key_steps(opt_view(*key), down),
{
    let mut steps: Vec<InputStep> = Vec::new();
    if let Some(k) = key {
        if let Some(rec) = key_press(k.as_str(), down) {
            steps.push(InputStep::Send(rec));
        }
    }
    assert(steps@ =~= key_steps(opt_view(*key), down));
    steps
}

/// The input steps for a viewer's input message, on a screen of the given
/// size (pointer positions are screen pixels).
pub fn plan_input(msg: &AgentMessage, screen: ScreenSize) -> (steps: Vec<InputStep>)
    requires
        screen_ok(screen),
    ensures
        steps@ == input_steps(msg@, screen),
{
    let event: &str = match &msg.event {
        Some(e) => e.as_str(),
        None => "",
    };
    proof {
        reveal_strlit("");
    }
    assert(event@ == event_name(msg@));
    let button: u32 = match msg.button { Some(b) => b as u32, None => 0 };
    let x: i32 = match msg.x { Some(v) => v as i32, None => 0 };
    let y: i32 = match msg.y { Some(v) => v as i32, None => 0 };
    let mut steps: Vec<InputStep> = Vec::new();
    if str_eq(event, "mousedown") {
        steps.push(InputStep::Send(mouse_move(x, y, screen.width, screen.height)));
        steps.push(InputStep::Send(mouse_click_button(button, true)));
    } else if str_eq(event, "mouseup") {
        steps.push(InputStep::Send(mouse_click_button(button, false)));
    } else if str_eq(event, "mousemove") {
        steps.push(InputStep::Send(mouse_move(x, y, screen.width, screen.height)));
    } else if str_eq(event, "click") {
        steps.push(InputStep::Send(mouse_move(x, y, screen.width, screen.height)));
        steps.push(InputStep::Send(mouse_click_button(button, true)));
        steps.push(InputStep::PauseMillis(CLICK_PAUSE_MILLIS));
        steps.push(InputStep::Send(mouse_click_button(button, false)));
    } else if str_eq(event, "scroll") {
        let dy: i32 = match msg.scroll_y { Some(v) => v as i32, None => 0 };
        steps.push(InputStep::Send(mouse_scroll(0, dy)));
    } else if str_eq(event, "keydown") {
        steps = key_event_steps(&msg.key, true);
    } else if str_eq(event, "keyup") {
        steps = key_event_steps(&msg.key, false);
    }
    assert(steps@ =~= input_steps(msg@, screen));
    steps
}

/// The pointer lands where the viewer pointed: for a `mousemove`,
/// `mousedown` or `click` at an on-screen pixel (x, y) of a screen of at most
/// 65536 pixels a side, the first step is an absolute move whose normalized
/// coordinates Win32 maps back to column x and row y.
pub proof fn law_pointer_lands_on_pixel(msg: AgentMessageView, screen: ScreenSize, x: u64, y: u64)
    requires
        msg.event == Some("mousemove"@) || msg.event == Some("mousedown"@) || msg.event == Some("click"@),
        msg.x == Some(x),
        msg.y == Some(y),
        x < screen.width <= 65536,
        y < screen.height <= 65536,
    ensures
        input_steps(msg, screen).len() >= 1,
        input_steps(msg, screen)[0] matches InputStep::Send(InputRecord::Mouse { dx, dy, mouse_data, flags })
            && dx * screen.width / 65536 == x
            && dy * screen.height / 65536 == y
            && flags == crate::input::MOUSEEVENTF_MOVE | crate::input::MOUSEEVENTF_ABSOLUTE,
{
    reveal_strlit("mousedown");
    reveal_strlit("mouseup");
    reveal_strlit("mousemove");
    reveal_strlit("click");
    assert("mousedown"@.len() == 9);
    assert("mouseup"@.len() == 7);
    assert("mousemove"@.len() == 9);
    assert("click"@.len() == 5);
    assert("mousedown"@[5] != "mousemove"@[5]);
    assert(msg_x(msg) == x);
    assert(msg_y(msg) == y);
    law_move_lands_on_pixel(x as int, screen.width as int);
    law_move_lands_on_pixel(y as int, screen.height as int);
}

/// A scroll passes the viewer's signed delta on unchanged: for every delta
/// `d`, positive or negative, the one step is a wheel record whose data,
/// read as a signed 32-bit value, is `d` (taken to 32 bits).
pub proof fn law_scroll_passes_delta(msg: AgentMessageView, screen: ScreenSize, d: i64)
    requires
        msg.event == Some("scroll"@),
        msg.scroll_y == Some(d),
    ensures
        input_steps(msg, screen).len() == 1,
        input_steps(msg, screen)[0] matches InputStep::Send(InputRecord::Mouse { dx, dy, mouse_data, flags })
            && mouse_data as i32 == d as i32
            && flags == crate::input::MOUSEEVENTF_WHEEL
            && dx == 0 && dy == 0,
        i32::MIN <= d <= i32::MAX ==> (input_steps(msg, screen)[0] matches InputStep::Send(InputRecord::Mouse { mouse_data, .. })
            && mouse_data as i32 == d),
{
    reveal_strlit("mousedown");
    reveal_strlit("mouseup");
    reveal_strlit("mousemove");
    reveal_strlit("click");
    reveal_strlit("scroll");
    assert("mousedown"@.len() == 9);
    assert("mouseup"@.len() == 7);
    assert("mousemove"@.len() == 9);
    assert("click"@.len() == 5);
    assert("scroll"@.len() == 6);
    let v: i32 = d as i32;
    assert(msg_scroll(msg) == v);
    assert((v as u32) as i32 == v) by (bit_vector);
}

/// Is the optional string field present and equal to `lit`?
fn field_is(field: &Option<String>, lit: &str) -> (r: bool)
    ensures
        r == (opt_view(*field) == Some(lit@)),
{
    match field {
        Some(f) => str_eq(f.as_str(), lit),
        None => false,
    }
}

/// What the agent does with a text message from a viewer once it is
/// registered.
pub struct ViewerReaction {
    /// The input steps to carry out, in order.
    pub steps: Vec<InputStep>,
    /// Whether the status line becomes "Connected - viewer active".
    pub viewer_active: bool,
}

/// The input steps for a viewer's message (`None`: not a JSON value): only
/// a message of type `input` acts.
pub open spec fn viewer_steps(msg: Option<AgentMessageView>, screen: ScreenSize) -> Seq<InputStep> {
    match msg {
        Some(m) => if m.msg_type == Some("input"@) { input_steps(m, screen) } else { Seq::empty() },
        None => Seq::empty(),
    }
}

/// Does a viewer's message mark the viewer as active: an `input` message
/// with event `mousedown`?
pub open spec fn viewer_activates(msg: Option<AgentMessageView>) -> bool {
    match msg {
        Some(m) => m.msg_type == Some("input"@) && m.event == Some("mousedown"@),
        None => false,
    }
}

/// Only messages of type `input` act: they are carried out, and a
/// `mousedown` among them marks the viewer as active.
pub fn react_to_viewer_message(msg: &Option<AgentMessage>, screen: ScreenSize) -> (r: ViewerReaction)
    requires
        screen_ok(screen),
    ensures
        r.steps@ == viewer_steps(opt_message_view(*msg), screen),
        r.viewer_active == viewer_activates(opt_message_view(*msg)),
{
    match msg {
        Some(m) => {
            if field_is(&m.msg_type, "input") {
                let steps = plan_input(m, screen);
                let active = field_is(&m.event, "mousedown");
                ViewerReaction { steps, viewer_active: active }
            } else {
                ViewerReaction { steps: Vec::new(), viewer_active: false }
            }
        },
        None => ViewerReaction { steps: Vec::new(), viewer_active: false },
    }
}

/// What the agent does with the text of a viewer's message.
pub fn react_to_viewer_text(text: &str, screen: ScreenSize) -> (r: ViewerReaction)
    requires
        screen_ok(screen),
    ensures
        r.steps@ == viewer_steps(parsed_agent_message(text@), screen),
        r.viewer_active == viewer_activates(parsed_agent_message(text@)),
{
    let msg = parse_agent_text(text);
    react_to_viewer_message(&msg, screen)
}

// ---------------------------------------------------------------- registration

/// Why a session with the relay ended in failure.
#[derive(Clone, Copy, Debug, PartialEq, Eq, Structural)]
pub enum SessionError {
    /// The relay closed the connection, or sent something other than text,
    /// before confirming the registration.
    ConnectionLost,
    /// No confirmation came within the registration time limit.
    RegistrationTimeout,
}

impl SessionError {
    /// The message shown for this error.
    pub fn message(&self) -> (m: String)
        ensures
            m@ == (match *self {
                SessionError::ConnectionLost => "Connection lost"@,
                SessionError::RegistrationTimeout => "Registration timeout"@,
            }),
    {
        match self {
            SessionError::ConnectionLost => String::from_str("Connection lost"),
            SessionError::RegistrationTimeout => String::from_str("Registration timeout"),
        }
    }
}

/// Seconds the agent waits for the relay to confirm its PIN.
pub const REGISTRATION_TIMEOUT_SECS: u64 = 10;

/// What arrives while the agent waits for the relay to confirm its PIN.
#[derive(Clone, Debug)]
pub enum RegistrationEvent {
    /// A text message.
    Text(String),
    /// Any other message (binary, ping, pong, close frame).
    OtherMessage,
    /// The stream ended or failed.
    StreamEnded,
    /// The registration time limit passed.
    TimedOut,
}

/// Where the registration goes after an event.
#[derive(Clone, Copy, Debug, PartialEq, Eq, Structural)]
pub enum RegistrationOutcome {
    /// The relay confirmed the PIN.
    Registered,
    /// Keep waiting.
    KeepWaiting,
    /// Give up on this session.
    Failed(SessionError),
}

/// What a text from the relay means while registering (`None`: not a JSON
/// value): type `registered` confirms, anything else is ignored.
pub open spec fn reply_outcome(msg: Option<AgentMessageView>) -> RegistrationOutcome {
    match msg {
        Some(m) => if m.msg_type == Some("registered"@) {
            RegistrationOutcome::Registered
        } else {
            RegistrationOutcome::KeepWaiting
        },
        None => RegistrationOutcome::KeepWaiting,
    }
}

/// What a parsed text from the relay means while registering.
pub fn registration_reply(msg: &Option<AgentMessage>) -> (r: RegistrationOutcome)
    ensures
        r == reply_outcome(opt_message_view(*msg)),
{
    match msg {
        Some(m) => {
            if field_is(&m.msg_type, "registered") {
                RegistrationOutcome::Registered
            } else {
                RegistrationOutcome::KeepWaiting
            }
        },
        None => RegistrationOutcome::KeepWaiting,
    }
}

/// The registration step: a text of type `registered` confirms, any other
/// text is ignored, anything else ends the session.
pub fn registration_step(event: &RegistrationEvent) -> (r: RegistrationOutcome)
    ensures
        r == (match *event {
            RegistrationEvent::Text(t) => reply_outcome(parsed_agent_message(t@)),
            RegistrationEvent::OtherMessage => RegistrationOutcome::Failed(SessionError::ConnectionLost),
            RegistrationEvent::StreamEnded => RegistrationOutcome::Failed(SessionError::ConnectionLost),
            RegistrationEvent::TimedOut => RegistrationOutcome::Failed(SessionError::RegistrationTimeout),
        }),
{
    match event {
        RegistrationEvent::Text(t) => registration_reply(&parse_agent_text(t.as_str())),
        RegistrationEvent::OtherMessage => RegistrationOutcome::Failed(SessionError::ConnectionLost),
        RegistrationEvent::StreamEnded => RegistrationOutcome::Failed(SessionError::ConnectionLost),
        RegistrationEvent::TimedOut => RegistrationOutcome::Failed(SessionError::RegistrationTimeout),
    }
}

// ---------------------------------------------------------------- status line

/// Seconds the agent waits before connecting again.
pub const RECONNECT_DELAY_SECS: u64 = 5;
/// Milliseconds between two screen captures.
pub const FRAME_INTERVAL_MILLIS: u64 = 100;

/// The agent's status line.
#[derive(Clone, Debug)]
pub enum AgentStatus {
    Starting,
    Connecting,
    /// Connected to the relay, with this PIN.
    Connected(String),
    WaitingForViewer,
    ViewerActive,
    /// A session ended with this error text.
    Disconnected(String),
    /// Connecting failed with this error text.
    Failed(String),
}

/// The text of a status line.
pub open spec fn status_line(s: AgentStatus) -> Seq<char> {
    match s {
        AgentStatus::Starting => "Starting..."@,
        AgentStatus::Connecting => "Connecting..."@,
        AgentStatus::Connected(pin) => "Connected. PIN: "@ + pin@,
        AgentStatus::WaitingForViewer => "Waiting for viewer..."@,
        AgentStatus::ViewerActive => "Connected - viewer active"@,
        AgentStatus::Disconnected(e) => "Disconnected: "@ + e@,
        AgentStatus::Failed(e) => "Failed: "@ + e@ + ". Retrying..."@,
    }
}

impl AgentStatus {
    /// The text shown in the window's status line.
    pub fn text(&self) -> (t: String)
        ensures
            t@ == status_line(*self),
    {
        match self {
            AgentStatus::Starting => String::from_str("Starting..."),
            AgentStatus::Connecting => String::from_str("Connecting..."),
            AgentStatus::Connected(pin) => {
                let mut t = String::from_str("Connected. PIN: ");
                t.append(pin.as_str());
                t
            },
            AgentStatus::WaitingForViewer => String::from_str("Waiting for viewer..."),
            AgentStatus::ViewerActive => String::from_str("Connected - viewer active"),
            AgentStatus::Disconnected(e) => {
                let mut t = String::from_str("Disconnected: ");
                t.append(e.as_str());
                t
            },
            AgentStatus::Failed(e) => {
                let mut t = String::from_str("Failed: ");
                t.append(e.as_str());
                t.append(". Retrying...");
                t
            },
        }
    }
}

/// What happens to the agent's connection with the relay.
#[derive(Clone, Debug)]
pub enum ConnectionEvent {
    /// A connection attempt starts.
    Attempting,
    /// The connection opened.
    Opened,
    /// The connection failed to open, with this error text.
    OpenFailed(String),
    /// A session ended: with this error text, or `None` when it ended
    /// because sending a frame failed.
    SessionEnded(Option<String>),
}

/// The status line after a connection event, or `None` when it stays.
pub fn status_after(event: ConnectionEvent, pin: &String) -> (r: Option<AgentStatus>)
    ensures
        r == (match event {
            ConnectionEvent::Attempting => Some(AgentStatus::Connecting),
            ConnectionEvent::Opened => Some(AgentStatus::Connected(*pin)),
            ConnectionEvent::OpenFailed(e) => Some(AgentStatus::Failed(e)),
            ConnectionEvent::SessionEnded(Some(e)) => Some(AgentStatus::Disconnected(e)),
            ConnectionEvent::SessionEnded(None) => None,
        }),
{
    match event {
        ConnectionEvent::Attempting => Some(AgentStatus::Connecting),
        ConnectionEvent::Opened => Some(AgentStatus::Connected(pin.clone())),
        ConnectionEvent::OpenFailed(e) => Some(AgentStatus::Failed(e)),
        ConnectionEvent::SessionEnded(Some(e)) => Some(AgentStatus::Disconnected(e)),
        ConnectionEvent::SessionEnded(None) => None,
    }
}

} // verus!
