use xcontrol::relay::{Delivery, RelayError, Reply, RoomTable, ServerMsg, Session};

fn msg(msg_type: &str, pin: Option<&str>) -> ServerMsg {
    ServerMsg {
        msg_type: msg_type.to_string(),
        pin: pin.map(|p| p.to_string()),
        event: None,
        x: None,
        y: None,
        button: None,
        key: None,
        pressed: None,
        dx: None,
        dy: None,
    }
}

fn only(out: &[Delivery]) -> (u64, &Reply) {
    assert_eq!(out.len(), 1);
    (out[0].to, &out[0].reply)
}

#[test]
fn register_then_join_then_route() {
    let mut rooms = RoomTable::new();
    let mut agent = Session::new(1);
    let mut viewer = Session::new(2);

    let out = rooms.on_text(&mut agent, &msg("register", Some("ABCDE")));
    assert!(matches!(only(&out), (1, Reply::Registered(p)) if p == "ABCDE"));
    assert!(agent.is_agent());
    assert_eq!(agent.registered_pin.as_deref(), Some("ABCDE"));
    assert_eq!(agent.joined_pin, None);

    let out = rooms.on_text(&mut viewer, &msg("join", Some("ABCDE")));
    assert!(matches!(only(&out), (2, Reply::Joined(p)) if p == "ABCDE"));
    assert!(!viewer.is_agent());
    assert_eq!(viewer.joined_pin.as_deref(), Some("ABCDE"));

    // frames from the agent fan out to the viewers
    assert_eq!(rooms.frame_recipients(&agent), vec![2]);
    // input from the viewer goes to the agent
    let out = rooms.on_text(&mut viewer, &msg("input", None));
    assert!(matches!(only(&out), (1, Reply::ForwardText)));
}

#[test]
fn duplicate_pin_is_refused() {
    let mut rooms = RoomTable::new();
    let mut a = Session::new(1);
    let mut b = Session::new(2);
    rooms.on_text(&mut a, &msg("register", Some("AAAAA")));
    let out = rooms.on_text(&mut b, &msg("register", Some("AAAAA")));
    assert!(matches!(only(&out), (2, Reply::Error(RelayError::PinInUse))));
    assert!(!b.is_agent());
    assert_eq!(b.registered_pin, None);
    // the room still belongs to the first agent
    let mut v = Session::new(3);
    rooms.on_text(&mut v, &msg("join", Some("AAAAA")));
    let out = rooms.on_text(&mut v, &msg("input", None));
    assert!(matches!(only(&out), (1, Reply::ForwardText)));
}

#[test]
fn join_of_unknown_pin_is_refused() {
    let mut rooms = RoomTable::new();
    let mut v = Session::new(9);
    let out = rooms.on_text(&mut v, &msg("join", Some("HHHHH")));
    assert!(matches!(only(&out), (9, Reply::Error(RelayError::RoomNotFound))));
    assert_eq!(v.joined_pin, None);
    assert!(rooms.on_text(&mut v, &msg("input", None)).is_empty());
}

#[test]
fn error_messages() {
    assert_eq!(RelayError::PinInUse.message(), "PIN already in use");
    assert_eq!(RelayError::RoomNotFound.message(), "Room not found");
}

#[test]
fn messages_without_pin_or_of_other_types_are_ignored() {
    let mut rooms = RoomTable::new();
    let mut s = Session::new(1);
    assert!(rooms.on_text(&mut s, &msg("register", None)).is_empty());
    assert!(rooms.on_text(&mut s, &msg("join", None)).is_empty());
    assert!(rooms.on_text(&mut s, &msg("hello", Some("ABCDE"))).is_empty());
    assert!(rooms.on_text(&mut s, &msg("input", None)).is_empty());
    assert_eq!(s.registered_pin, None);
    assert_eq!(s.joined_pin, None);
    assert!(rooms.frame_recipients(&s).is_empty());
}

#[test]
fn frames_reach_viewers_in_join_order() {
    let mut rooms = RoomTable::new();
    let mut agent = Session::new(10);
    rooms.on_text(&mut agent, &msg("register", Some("BBBBB")));
    for id in [13u64, 11, 12] {
        let mut v = Session::new(id);
        rooms.on_text(&mut v, &msg("join", Some("BBBBB")));
    }
    assert_eq!(rooms.frame_recipients(&agent), vec![13, 11, 12]);
}

#[test]
fn agent_leaving_removes_room() {
    let mut rooms = RoomTable::new();
    let mut agent = Session::new(1);
    let mut viewer = Session::new(2);
    rooms.on_text(&mut agent, &msg("register", Some("CCCCC")));
    rooms.on_text(&mut viewer, &msg("join", Some("CCCCC")));
    rooms.on_disconnect(&agent, &vec![]);
    assert!(rooms.on_text(&mut viewer, &msg("input", None)).is_empty());
    let mut late = Session::new(3);
    let out = rooms.on_text(&mut late, &msg("join", Some("CCCCC")));
    assert!(matches!(only(&out), (3, Reply::Error(RelayError::RoomNotFound))));
    // the PIN is free again
    let mut again = Session::new(4);
    let out = rooms.on_text(&mut again, &msg("register", Some("CCCCC")));
    assert!(matches!(only(&out), (4, Reply::Registered(_))));
}

#[test]
fn viewer_leaving_keeps_open_viewers() {
    let mut rooms = RoomTable::new();
    let mut agent = Session::new(1);
    rooms.on_text(&mut agent, &msg("register", Some("DDDDD")));
    let mut viewers = Vec::new();
    for id in 2..=5u64 {
        let mut v = Session::new(id);
        rooms.on_text(&mut v, &msg("join", Some("DDDDD")));
        viewers.push(v);
    }
    // viewer 3 leaves while 2 and 5 are already closed
    assert_eq!(rooms.joined_viewers(&viewers[1]), vec![2, 3, 4, 5]);
    rooms.on_disconnect(&viewers[1], &vec![2, 5]);
    // the leaving viewer stays until its own connection is reported closed
    assert_eq!(rooms.frame_recipients(&agent), vec![3, 4]);
    rooms.on_disconnect(&viewers[1], &vec![3]);
    assert_eq!(rooms.frame_recipients(&agent), vec![4]);
    let out = rooms.on_text(&mut viewers[2], &msg("input", None));
    assert!(matches!(only(&out), (1, Reply::ForwardText)));
}

#[test]
fn rooms_are_independent() {
    let mut rooms = RoomTable::new();
    let mut a1 = Session::new(1);
    let mut a2 = Session::new(2);
    rooms.on_text(&mut a1, &msg("register", Some("AAAAA")));
    rooms.on_text(&mut a2, &msg("register", Some("BBBBB")));
    let mut v = Session::new(3);
    rooms.on_text(&mut v, &msg("join", Some("BBBBB")));
    assert!(rooms.frame_recipients(&a1).is_empty());
    assert_eq!(rooms.frame_recipients(&a2), vec![3]);
    rooms.on_disconnect(&a1, &vec![]);
    assert_eq!(rooms.frame_recipients(&a2), vec![3]);
}

#[test]
fn viewer_frames_go_nowhere() {
    let mut rooms = RoomTable::new();
    let mut agent = Session::new(1);
    let mut viewer = Session::new(2);
    rooms.on_text(&mut agent, &msg("register", Some("EEEEE")));
    rooms.on_text(&mut viewer, &msg("join", Some("EEEEE")));
    assert!(rooms.frame_recipients(&viewer).is_empty());
    assert_eq!(rooms.frame_recipients(&agent), vec![2]);
}

#[test]
fn agent_that_joined_elsewhere_removes_its_own_room() {
    let mut rooms = RoomTable::new();
    let mut a = Session::new(1);
    let mut b = Session::new(2);
    rooms.on_text(&mut a, &msg("register", Some("AAAAA")));
    rooms.on_text(&mut b, &msg("register", Some("BBBBB")));
    rooms.on_text(&mut a, &msg("join", Some("BBBBB")));
    rooms.on_disconnect(&a, &vec![]);
    // AAAAA is gone and free again; BBBBB stays (its viewer 1 was not reported closed)
    let mut c = Session::new(3);
    let out = rooms.on_text(&mut c, &msg("register", Some("AAAAA")));
    assert!(matches!(only(&out), (3, Reply::Registered(_))));
    let mut d = Session::new(4);
    let out = rooms.on_text(&mut d, &msg("join", Some("BBBBB")));
    assert!(matches!(only(&out), (4, Reply::Joined(_))));
    assert_eq!(rooms.frame_recipients(&b), vec![1, 4]);
}

#[test]
fn an_agent_that_registered_twice_loses_both_rooms() {
    let mut rooms = RoomTable::new();
    let mut a = Session::new(1);
    rooms.on_text(&mut a, &msg("register", Some("AAAAA")));
    rooms.on_text(&mut a, &msg("register", Some("BBBBB")));
    rooms.on_disconnect(&a, &vec![]);
    let mut v = Session::new(2);
    let out = rooms.on_text(&mut v, &msg("join", Some("AAAAA")));
    assert!(matches!(only(&out), (2, Reply::Error(RelayError::RoomNotFound))));
    let out = rooms.on_text(&mut v, &msg("join", Some("BBBBB")));
    assert!(matches!(only(&out), (2, Reply::Error(RelayError::RoomNotFound))));
}
