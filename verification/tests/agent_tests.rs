use xcontrol::agent::{
    status_after, ConnectionEvent,
    gen_pin, parse_agent_text, pin_from_draws, plan_input, ScreenSize, react_to_viewer_message, react_to_viewer_text, registration_reply, registration_step, AgentMessage, AgentStatus, InputStep,
    RegistrationEvent, RegistrationOutcome, SessionError,
};
use xcontrol::input::InputRecord;

fn message(msg_type: &str, event: Option<&str>) -> AgentMessage {
    AgentMessage {
        msg_type: Some(msg_type.to_string()),
        event: event.map(|e| e.to_string()),
        button: None,
        x: None,
        y: None,
        scroll_y: None,
        key: None,
    }
}

fn mouse(dx: i32, dy: i32, mouse_data: u32, flags: u32) -> InputStep {
    InputStep::Send(InputRecord::Mouse { dx, dy, mouse_data, flags })
}

const SCREEN: ScreenSize = ScreenSize { width: 1920, height: 1080 };

#[test]
fn pin_spells_the_draws() {
    assert_eq!(pin_from_draws(&vec![0x41, 0x48, 0x43, 0x41, 0x45]), "AHCAE");
    assert_eq!(pin_from_draws(&vec![]), "");
}

#[test]
fn pins_are_five_letters_from_a_to_h() {
    for _ in 0..200 {
        let pin = gen_pin();
        assert_eq!(pin.chars().count(), 5);
        assert!(pin.chars().all(|c| ('A'..='H').contains(&c)), "{}", pin);
    }
}

#[test]
fn mousedown_moves_then_presses() {
    let mut m = message("input", Some("mousedown"));
    m.x = Some(100);
    m.y = Some(200);
    assert_eq!(plan_input(&m, SCREEN), vec![mouse(3414, 12137, 0, 0x8001), mouse(0, 0, 0, 0x0002)]);
}

#[test]
fn mouseup_releases_the_named_button() {
    let mut m = message("input", Some("mouseup"));
    m.button = Some(2);
    assert_eq!(plan_input(&m, SCREEN), vec![mouse(0, 0, 0, 0x0010)]);
}

#[test]
fn mousemove_without_coordinates_goes_to_origin() {
    let m = message("input", Some("mousemove"));
    assert_eq!(plan_input(&m, SCREEN), vec![mouse(0, 0, 0, 0x8001)]);
}

#[test]
fn click_is_move_press_pause_release() {
    let mut m = message("input", Some("click"));
    m.x = Some(5);
    m.y = Some(6);
    m.button = Some(1);
    assert_eq!(
        plan_input(&m, SCREEN),
        vec![mouse(171, 365, 0, 0x8001), mouse(0, 0, 0, 0x0020), InputStep::PauseMillis(50), mouse(0, 0, 0, 0x0040)]
    );
}

#[test]
fn coordinates_are_truncated_to_32_bits() {
    let mut m = message("input", Some("mousemove"));
    m.x = Some(0x1_0000_0005);
    m.y = Some(0xFFFF_FFFF);
    assert_eq!(plan_input(&m, SCREEN), vec![mouse(171, 0, 0, 0x8001)]);
}

#[test]
fn scroll_uses_the_signed_y() {
    let mut m = message("input", Some("scroll"));
    m.scroll_y = Some(-120);
    m.y = None;
    assert_eq!(plan_input(&m, SCREEN), vec![mouse(0, 0, (-120i32) as u32, 0x0800)]);
}

#[test]
fn key_events() {
    let mut m = message("input", Some("keydown"));
    m.key = Some("ENTER".to_string());
    assert_eq!(plan_input(&m, SCREEN), vec![InputStep::Send(InputRecord::Keyboard { vk: 0x0D, flags: 0 })]);
    let mut m = message("input", Some("keyup"));
    m.key = Some("b".to_string());
    assert_eq!(plan_input(&m, SCREEN), vec![InputStep::Send(InputRecord::Keyboard { vk: 0x42, flags: 2 })]);
    let mut m = message("input", Some("keyup"));
    m.key = Some("nothing".to_string());
    assert_eq!(plan_input(&m, SCREEN), vec![]);
    let m = message("input", Some("keydown"));
    assert_eq!(plan_input(&m, SCREEN), vec![]);
}

#[test]
fn unknown_or_missing_events_do_nothing() {
    assert_eq!(plan_input(&message("input", Some("wiggle")), SCREEN), vec![]);
    assert_eq!(plan_input(&message("input", None), SCREEN), vec![]);
}

#[test]
fn only_input_messages_act() {
    let mut m = message("input", Some("mousedown"));
    m.x = Some(1);
    m.y = Some(2);
    let r = react_to_viewer_message(&Some(m.clone()), SCREEN);
    assert_eq!(r.steps, plan_input(&m, SCREEN));
    assert!(r.viewer_active);

    let r = react_to_viewer_message(&Some(message("input", Some("mousemove"))), SCREEN);
    assert_eq!(r.steps.len(), 1);
    assert!(!r.viewer_active);

    let r = react_to_viewer_message(&Some(message("joined", Some("mousedown"))), SCREEN);
    assert!(r.steps.is_empty());
    assert!(!r.viewer_active);

    let r = react_to_viewer_message(&None, SCREEN);
    assert!(r.steps.is_empty());
    assert!(!r.viewer_active);
}

fn text(t: &str) -> RegistrationEvent {
    RegistrationEvent::Text(t.to_string())
}

#[test]
fn registration_waits_for_registered() {
    assert_eq!(registration_step(&text(r#"{"type":"registered","pin":"ABCDE"}"#)), RegistrationOutcome::Registered);
    assert_eq!(registration_step(&text(r#"{"type":"error","msg":"PIN already in use"}"#)), RegistrationOutcome::KeepWaiting);
    assert_eq!(registration_step(&text("not json")), RegistrationOutcome::KeepWaiting);
    assert_eq!(registration_step(&text(r#"{"type":7}"#)), RegistrationOutcome::KeepWaiting);
    assert_eq!(registration_reply(&Some(message("registered", None))), RegistrationOutcome::Registered);
    assert_eq!(registration_reply(&None), RegistrationOutcome::KeepWaiting);
    assert_eq!(
        registration_step(&RegistrationEvent::OtherMessage),
        RegistrationOutcome::Failed(SessionError::ConnectionLost)
    );
    assert_eq!(
        registration_step(&RegistrationEvent::StreamEnded),
        RegistrationOutcome::Failed(SessionError::ConnectionLost)
    );
    assert_eq!(
        registration_step(&RegistrationEvent::TimedOut),
        RegistrationOutcome::Failed(SessionError::RegistrationTimeout)
    );
}

#[test]
fn session_error_messages() {
    assert_eq!(SessionError::ConnectionLost.message(), "Connection lost");
    assert_eq!(SessionError::RegistrationTimeout.message(), "Registration timeout");
}

#[test]
fn status_lines() {
    assert_eq!(AgentStatus::Starting.text(), "Starting...");
    assert_eq!(AgentStatus::Connecting.text(), "Connecting...");
    assert_eq!(AgentStatus::Connected("ABCDE".to_string()).text(), "Connected. PIN: ABCDE");
    assert_eq!(AgentStatus::WaitingForViewer.text(), "Waiting for viewer...");
    assert_eq!(AgentStatus::ViewerActive.text(), "Connected - viewer active");
    assert_eq!(AgentStatus::Disconnected("Connection lost".to_string()).text(), "Disconnected: Connection lost");
    assert_eq!(AgentStatus::Failed("refused".to_string()).text(), "Failed: refused. Retrying...");
}

#[test]
fn json_fields_are_read_by_kind() {
    let m = parse_agent_text(r#"{"type":"input","event":"scroll","x":100,"y":-5,"button":2,"key":7}"#).unwrap();
    assert_eq!(m.msg_type.as_deref(), Some("input"));
    assert_eq!(m.event.as_deref(), Some("scroll"));
    assert_eq!(m.x, Some(100));
    assert_eq!(m.y, None);
    assert_eq!(m.scroll_y, Some(-5));
    assert_eq!(m.button, Some(2));
    assert_eq!(m.key, None);
    let m = parse_agent_text(r#"{"x":1.5,"y":7,"key":"ENTER"}"#).unwrap();
    assert_eq!(m.msg_type, None);
    assert_eq!(m.x, None);
    assert_eq!(m.y, Some(7));
    assert_eq!(m.scroll_y, Some(7));
    assert_eq!(m.key.as_deref(), Some("ENTER"));
    let m = parse_agent_text("[1, 2]").unwrap();
    assert_eq!(m.msg_type, None);
    assert!(parse_agent_text("{not json").is_none());
    assert!(parse_agent_text("").is_none());
}

#[test]
fn viewer_text_is_parsed_and_acted_on() {
    let r = react_to_viewer_text(r#"{"type":"input","event":"mousedown","x":960,"y":540}"#, SCREEN);
    assert_eq!(r.steps, vec![mouse(32768, 32768, 0, 0x8001), mouse(0, 0, 0, 0x0002)]);
    assert!(r.viewer_active);
    let r = react_to_viewer_text(r#"{"type":"input","event":"keydown","key":"a"}"#, SCREEN);
    assert_eq!(r.steps, vec![InputStep::Send(InputRecord::Keyboard { vk: 0x41, flags: 0 })]);
    assert!(!r.viewer_active);
    let r = react_to_viewer_text("garbage", SCREEN);
    assert!(r.steps.is_empty() && !r.viewer_active);
}

#[test]
fn connection_events_set_the_status() {
    let pin = "ABCDE".to_string();
    let t = |e: ConnectionEvent| status_after(e, &pin).map(|s| s.text());
    assert_eq!(t(ConnectionEvent::Attempting).as_deref(), Some("Connecting..."));
    assert_eq!(t(ConnectionEvent::Opened).as_deref(), Some("Connected. PIN: ABCDE"));
    assert_eq!(t(ConnectionEvent::OpenFailed("refused".into())).as_deref(), Some("Failed: refused. Retrying..."));
    assert_eq!(t(ConnectionEvent::SessionEnded(Some("Connection lost".into()))).as_deref(), Some("Disconnected: Connection lost"));
    assert_eq!(t(ConnectionEvent::SessionEnded(None)), None);
}
