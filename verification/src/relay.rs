//! The relay's rooms: which agent registered which PIN, which viewers
//! joined it, and where each message that a connection sends goes.
//!
//! Connections are named by integers that the caller hands out; delivering
//! a message to a connection is left to the caller.
use vstd::prelude::*;

use crate::text::str_eq;

verus! {

/// The fields of a message to the relay; only `msg_type` and `pin` decide
/// anything, the others are carried so that a message parses as it did.
#[derive(Clone, Debug)]
pub struct ServerMsg {
    pub msg_type: String,
    pub pin: Option<String>,
    pub event: Option<String>,
    pub x: Option<u32>,
    pub y: Option<u32>,
    pub button: Option<u32>,
    pub key: Option<String>,
    pub pressed: Option<bool>,
    pub dx: Option<i32>,
    pub dy: Option<i32>,
}

/// One room: its PIN, the connection of its agent, and its viewers in the
/// order in which they joined.
struct Room {
    pin: String,
    agent: Option<u64>,
    viewers: Vec<u64>,
}

/// The rooms, keyed by PIN: a PIN names at most one room.
pub struct RoomTable {
    rooms: Vec<Room>,
}

/// What a room holds: its agent and its viewers.
pub type RoomState = (Option<u64>, Seq<u64>);

/// The rooms as a map from PIN to room.
pub type RoomMap = Map<Seq<char>, RoomState>;

spec fn room_model(r: Room) -> RoomState {
    (r.agent, r.viewers@)
}

spec fn has_pin(rooms: Seq<Room>, i: int, k: Seq<char>) -> bool {
    0 <= i < rooms.len() && rooms[i].pin@ == k
}

spec fn index_of_pin(rooms: Seq<Room>, k: Seq<char>) -> int {
    choose|i: int| has_pin(rooms, i, k)
}

spec fn table_map(rooms: Seq<Room>) -> RoomMap {
    Map::new(
        |k: Seq<char>| exists|i: int| #[trigger] has_pin(rooms, i, k),
        |k: Seq<char>| room_model(rooms[index_of_pin(rooms, k)]),
    )
}

spec fn pins_unique(rooms: Seq<Room>) -> bool {
    forall|i: int, j: int|
        0 <= i < rooms.len() && 0 <= j < rooms.len() && #[trigger] rooms[i].pin@ == #[trigger] rooms[j].pin@
            ==> i == j
}

proof fn lemma_lookup(rooms: Seq<Room>, i: int)
    requires
        pins_unique(rooms),
        0 <= i < rooms.len(),
    ensures
        table_map(rooms).contains_key(rooms[i].pin@),
        table_map(rooms)[rooms[i].pin@] == room_model(rooms[i]),
{
    let k = rooms[i].pin@;
    assert(has_pin(rooms, i, k));
    let j: int = index_of_pin(rooms, k);
    assert(has_pin(rooms, j, k));
}

proof fn lemma_absent(rooms: Seq<Room>, k: Seq<char>)
    requires
        forall|i: int| 0 <= i < rooms.len() ==> rooms[i].pin@ != k,
    ensures
        !table_map(rooms).contains_key(k),
{
}

proof fn lemma_push(rooms: Seq<Room>, r: Room)
    requires
        pins_unique(rooms),
        !table_map(rooms).contains_key(r.pin@),
    ensures
        pins_unique(rooms.push(r)),
        table_map(rooms.push(r)) =~= table_map(rooms).insert(r.pin@, room_model(r)),
{
    let s = rooms.push(r);
    assert forall|i: int| 0 <= i < rooms.len() implies rooms[i].pin@ != r.pin@ by {
        assert(has_pin(rooms, i, rooms[i].pin@));
    }
    assert(pins_unique(s));
    assert forall|k: Seq<char>| #[trigger] table_map(s).contains_key(k)
        == table_map(rooms).insert(r.pin@, room_model(r)).contains_key(k) by {
        if table_map(s).contains_key(k) {
            let i: int = choose|i: int| #[trigger] has_pin(s, i, k);
            if i < rooms.len() {
                assert(has_pin(rooms, i, k));
            }
        }
        if table_map(rooms).contains_key(k) {
            let i: int = choose|i: int| #[trigger] has_pin(rooms, i, k);
            assert(has_pin(s, i, k));
        }
        if k == r.pin@ {
            assert(has_pin(s, rooms.len() as int, k));
        }
    }
    assert forall|k: Seq<char>| #[trigger] table_map(s).contains_key(k) implies table_map(s)[k]
        == table_map(rooms).insert(r.pin@, room_model(r))[k] by {
        let i: int = index_of_pin(s, k);
        assert(has_pin(s, i, k));
        if k == r.pin@ {
            assert(i == rooms.len());
        } else {
            assert(has_pin(rooms, i, k));
            lemma_lookup(rooms, i);
        }
    }
}

proof fn lemma_update(rooms: Seq<Room>, i: int, r: Room)
    requires
        pins_unique(rooms),
        0 <= i < rooms.len(),
        r.pin@ == rooms[i].pin@,
    ensures
        pins_unique(rooms.update(i, r)),
        table_map(rooms.update(i, r)) =~= table_map(rooms).insert(r.pin@, room_model(r)),
{
    let s = rooms.update(i, r);
    assert(pins_unique(s)) by {
        assert forall|a: int, b: int|
            0 <= a < s.len() && 0 <= b < s.len() && #[trigger] s[a].pin@ == #[trigger] s[b].pin@ implies a == b by {
            assert(s[a].pin@ == rooms[a].pin@);
            assert(s[b].pin@ == rooms[b].pin@);
        }
    }
    assert forall|k: Seq<char>| #[trigger] table_map(s).contains_key(k)
        == table_map(rooms).contains_key(k) by {
        if table_map(s).contains_key(k) {
            let j: int = choose|j: int| #[trigger] has_pin(s, j, k);
            assert(has_pin(rooms, j, k));
        }
        if table_map(rooms).contains_key(k) {
            let j: int = choose|j: int| #[trigger] has_pin(rooms, j, k);
            assert(has_pin(s, j, k));
        }
    }
    lemma_lookup(rooms, i);
    assert forall|k: Seq<char>| #[trigger] table_map(s).contains_key(k) implies table_map(s)[k]
        == table_map(rooms).insert(r.pin@, room_model(r))[k] by {
        let j: int = index_of_pin(s, k);
        assert(has_pin(s, j, k));
        if k == r.pin@ {
            lemma_lookup(s, i);
        } else {
            assert(has_pin(rooms, j, k));
            lemma_lookup(rooms, j);
        }
    }
}

proof fn lemma_remove(rooms: Seq<Room>, i: int)
    requires
        pins_unique(rooms),
        0 <= i < rooms.len(),
    ensures
        pins_unique(rooms.remove(i)),
        table_map(rooms.remove(i)) =~= table_map(rooms).remove(rooms[i].pin@),
{
    let s = rooms.remove(i);
    let p = rooms[i].pin@;
    assert forall|j: int| 0 <= j < s.len() implies #[trigger] s[j] == rooms[if j < i { j } else { j + 1 }] by {}
    assert(pins_unique(s)) by {
        assert forall|a: int, b: int|
            0 <= a < s.len() && 0 <= b < s.len() && #[trigger] s[a].pin@ == #[trigger] s[b].pin@ implies a == b by {
            let a2 = if a < i { a } else { a + 1 };
            let b2 = if b < i { b } else { b + 1 };
            assert(s[a] == rooms[a2]);
            assert(s[b] == rooms[b2]);
        }
    }
    assert forall|k: Seq<char>| #[trigger] table_map(s).contains_key(k)
        == table_map(rooms).remove(p).contains_key(k) by {
        if table_map(s).contains_key(k) {
            let j: int = choose|j: int| #[trigger] has_pin(s, j, k);
            let j2 = if j < i { j } else { j + 1 };
            assert(s[j] == rooms[j2]);
            assert(has_pin(rooms, j2, k));
            assert(j2 != i);
        }
        if table_map(rooms).contains_key(k) && k != p {
            let j: int = choose|j: int| #[trigger] has_pin(rooms, j, k);
            assert(j != i);
            let j2 = if j < i { j } else { j - 1 };
            assert(s[j2] == rooms[j]);
            assert(has_pin(s, j2, k));
        }
    }
    assert forall|k: Seq<char>| #[trigger] table_map(s).contains_key(k) implies table_map(s)[k]
        == table_map(rooms).remove(p)[k] by {
        let j: int = index_of_pin(s, k);
        assert(has_pin(s, j, k));
        let j2 = if j < i { j } else { j + 1 };
        assert(s[j] == rooms[j2]);
        lemma_lookup(s, j);
        lemma_lookup(rooms, j2);
    }
}

impl View for RoomTable {
    type V = RoomMap;

    closed spec fn view(&self) -> RoomMap {
        table_map(self.rooms@)
    }
}

impl RoomTable {
    /// The table's invariant: no PIN names two rooms.
    pub closed spec fn wf(&self) -> bool {
        pins_unique(self.rooms@)
    }

    /// An empty table.
    pub fn new() -> (t: RoomTable)
        ensures
            t.wf(),
            t@ == RoomMap::empty(),
    {
        let t = RoomTable { rooms: Vec::new() };
        assert(t@ =~= RoomMap::empty());
        t
    }

    fn find(&self, pin: &String) -> (r: Option<usize>)
        requires
            self.wf(),
        ensures
            match r {
                Some(i) => i < self.rooms@.len() && self.rooms@[i as int].pin@ == pin@
                    && self@.contains_key(pin@) && self@[pin@] == room_model(self.rooms@[i as int]),
                None => !self@.contains_key(pin@),
            },
    {
        let mut i: usize = 0;
        while i < self.rooms.len()
            invariant
                self.wf(),
                i <= self.rooms@.len(),
                forall|j: int| 0 <= j < i ==> self.rooms@[j].pin@ != pin@,
            decreases self.rooms@.len() - i,
        {
            if self.rooms[i].pin == *pin {
                proof {
                    lemma_lookup(self.rooms@, i as int);
                }
                return Some(i);
            }
            i = i + 1;
        }
        proof {
            lemma_absent(self.rooms@, pin@);
        }
        None
    }
}

// ---------------------------------------------------------------- transitions

/// A registration takes a free PIN for the registering connection's room;
/// a PIN in use leaves the rooms as they are.
pub open spec fn after_register(rooms: RoomMap, conn: u64, pin: Seq<char>) -> RoomMap {
    if rooms.contains_key(pin) {
        rooms
    } else {
        rooms.insert(pin, (Some(conn), Seq::empty()))
    }
}

/// A join adds the connection to the viewers of the room with that PIN,
/// if there is one.
pub open spec fn after_join(rooms: RoomMap, conn: u64, pin: Seq<char>) -> RoomMap {
    if rooms.contains_key(pin) {
        rooms.insert(pin, (rooms[pin].0, rooms[pin].1.push(conn)))
    } else {
        rooms
    }
}

/// Where an input message from a viewer of room `joined` goes: to the
/// room's agent.
pub open spec fn input_target(rooms: RoomMap, joined: Option<Seq<char>>) -> Option<u64> {
    match joined {
        Some(p) => if rooms.contains_key(p) { rooms[p].0 } else { None },
        None => None,
    }
}

/// Where a frame from connection `conn`, which registered `registered`,
/// goes: to every viewer of that room, in the order in which they joined,
/// while `conn` is the room's agent; nowhere otherwise.
pub open spec fn frame_targets(rooms: RoomMap, conn: u64, registered: Option<Seq<char>>) -> Seq<u64> {
    match registered {
        Some(p) => if rooms.contains_key(p) && rooms[p].0 == Some(conn) { rooms[p].1 } else { Seq::empty() },
        None => Seq::empty(),
    }
}

/// The viewers whose connection is not among `closed`, in their order.
pub open spec fn keep_open(viewers: Seq<u64>, closed: Seq<u64>) -> Seq<u64> {
    viewers.filter(not_in(closed))
}

/// The predicate "not among `closed`".
pub open spec fn not_in(closed: Seq<u64>) -> spec_fn(u64) -> bool {
    |v: u64| !closed.contains(v)
}

/// The rooms whose agent is not `conn`.
pub open spec fn without_agent(rooms: RoomMap, conn: u64) -> RoomMap {
    Map::new(|k: Seq<char>| rooms.contains_key(k) && rooms[k].0 != Some(conn), |k: Seq<char>| rooms[k])
}

/// When connection `conn` ends: every room it is the agent of goes; the
/// room it last joined, if it remains, keeps only the viewers whose
/// connections are not among `closed` (the leaving connection stays unless
/// it is reported closed).
pub open spec fn after_disconnect(
    rooms: RoomMap,
    conn: u64,
    joined: Option<Seq<char>>,
    closed: Seq<u64>,
) -> RoomMap {
    let rest = without_agent(rooms, conn);
    match joined {
        Some(p) => if rest.contains_key(p) {
            rest.insert(p, (rest[p].0, keep_open(rest[p].1, closed)))
        } else {
            rest
        },
        None => rest,
    }
}

/// The PIN that a message registers, if it is a registration with a PIN.
pub open spec fn registers(msg: ServerMsg) -> Option<Seq<char>> {
    if msg.msg_type@ == "register"@ { opt_pin(msg.pin) } else { None }
}

/// The PIN that a message joins, if it is a join with a PIN.
pub open spec fn joins(msg: ServerMsg) -> Option<Seq<char>> {
    if msg.msg_type@ == "join"@ { opt_pin(msg.pin) } else { None }
}

/// Is this an input message?
pub open spec fn is_input(msg: ServerMsg) -> bool {
    msg.msg_type@ == "input"@
}

pub open spec fn opt_pin(p: Option<String>) -> Option<Seq<char>> {
    match p {
        Some(s) => Some(s@),
        None => None,
    }
}

/// A connection's own state: its name, the PIN it last registered (as an
/// agent), and the PIN it last joined (as a viewer).
#[derive(Clone, Debug)]
pub struct Session {
    pub conn: u64,
    pub registered_pin: Option<String>,
    pub joined_pin: Option<String>,
}

impl Session {
    /// A fresh connection.
    pub fn new(conn: u64) -> (s: Session)
        ensures
            s.conn == conn,
            s.registered_pin is None,
            s.joined_pin is None,
    {
        Session { conn, registered_pin: None, joined_pin: None }
    }

    /// Did this connection register a PIN?
    pub fn is_agent(&self) -> (r: bool)
        ensures
            r == self.registered_pin is Some,
    {
        self.registered_pin.is_some()
    }
}

/// Why the relay refused a request.
#[derive(Clone, Copy, Debug, PartialEq, Eq, Structural)]
pub enum RelayError {
    /// Another agent holds the PIN.
    PinInUse,
    /// No room has the PIN.
    RoomNotFound,
}

impl RelayError {
    /// The `msg` of the error reply.
    pub fn message(&self) -> (m: String)
        ensures
            m@ == (match *self {
                RelayError::PinInUse => "PIN already in use"@,
                RelayError::RoomNotFound => "Room not found"@,
            }),
    {
        match self {
            RelayError::PinInUse => String::from_str("PIN already in use"),
            RelayError::RoomNotFound => String::from_str("Room not found"),
        }
    }
}

/// What the relay sends.
#[derive(Clone, Debug)]
pub enum Reply {
    /// `{"type":"registered","pin":..}`
    Registered(String),
    /// `{"type":"joined","pin":..}`
    Joined(String),
    /// `{"type":"error","msg":..}`
    Error(RelayError),
    /// The text message just received, unchanged.
    ForwardText,
}

/// A message for one connection.
#[derive(Clone, Debug)]
pub struct Delivery {
    pub to: u64,
    pub reply: Reply,
}

fn copy_ids(v: &Vec<u64>) -> (r: Vec<u64>)
    ensures
        r@ == v@,
{
    let mut r: Vec<u64> = Vec::new();
    let mut i: usize = 0;
    while i < v.len()
        invariant
            i <= v@.len(),
            r@ == v@.take(i as int),
        decreases v@.len() - i,
    {
        r.push(v[i]);
        i = i + 1;
        assert(r@ =~= v@.take(i as int));
    }
    assert(v@.take(v@.len() as int) =~= v@);
    r
}

fn ids_contain(v: &Vec<u64>, x: u64) -> (r: bool)
    ensures
        r == v@.contains(x),
{
    let mut i: usize = 0;
    while i < v.len()
        invariant
            i <= v@.len(),
            forall|j: int| 0 <= j < i ==> v@[j] != x,
        decreases v@.len() - i,
    {
        if v[i] == x {
            assert(v@[i as int] == x);
            return true;
        }
        i = i + 1;
    }
    false
}

/// The viewers whose connections are not among `closed`.
fn retain_open(viewers: &Vec<u64>, closed: &Vec<u64>) -> (r: Vec<u64>)
    ensures
        r@ == keep_open(viewers@, closed@),
{
    let ghost pred = not_in(closed@);
    let mut r: Vec<u64> = Vec::new();
    let mut i: usize = 0;
    assert(viewers@.take(0).filter(pred) =~= Seq::<u64>::empty()) by {
        reveal(Seq::filter);
    }
    while i < viewers.len()
        invariant
            i <= viewers@.len(),
            pred == not_in(closed@),
            r@ == viewers@.take(i as int).filter(pred),
        decreases viewers@.len() - i,
    {
        let v: u64 = viewers[i];
        let is_closed = ids_contain(closed, v);
        if !is_closed {
            r.push(v);
        }
        proof {
            let t = viewers@.take(i + 1);
            assert(t.drop_last() =~= viewers@.take(i as int));
            assert(t.last() == v);
            reveal(Seq::filter);
        }
        i = i + 1;
    }
    assert(viewers@.take(viewers@.len() as int) =~= viewers@);
    r
}

/// The room of a PIN, if the PIN is given and names a room.
spec fn room_index_ok(table: RoomTable, pin: Option<Seq<char>>, r: Option<usize>) -> bool {
    match r {
        Some(i) => i < table.rooms@.len() && pin is Some && table.rooms@[i as int].pin@ == pin->0
            && table@.contains_key(pin->0) && table@[pin->0] == room_model(table.rooms@[i as int]),
        None => match pin {
            Some(p) => !table@.contains_key(p),
            None => true,
        },
    }
}

impl RoomTable {
    /// The room of an optional PIN, if it names one.
    fn room_of(&self, pin: &Option<String>) -> (r: Option<usize>)
        requires
            self.wf(),
        ensures
            room_index_ok(*self, opt_pin(*pin), r),
    {
        match pin {
            Some(p) => self.find(p),
            None => None,
        }
    }

    fn insert_room(&mut self, pin: &String, conn: u64)
        requires
            old(self).wf(),
            !old(self)@.contains_key(pin@),
        ensures
            final(self).wf(),
            final(self)@ == old(self)@.insert(pin@, (Some(conn), Seq::<u64>::empty())),
    {
        let room = Room { pin: pin.clone(), agent: Some(conn), viewers: Vec::new() };
        proof {
            lemma_push(self.rooms@, room);
            assert(room_model(room) =~= (Some(conn), Seq::<u64>::empty()));
        }
        self.rooms.push(room);
    }

    /// Replaces the viewers of room `i`.
    fn set_viewers(&mut self, i: usize, viewers: Vec<u64>)
        requires
            old(self).wf(),
            i < old(self).rooms@.len(),
        ensures
            final(self).wf(),
            final(self).rooms@.len() == old(self).rooms@.len(),
            final(self)@ == old(self)@.insert(
                old(self).rooms@[i as int].pin@,
                (old(self).rooms@[i as int].agent, viewers@),
            ),
    {
        let ghost before = self.rooms@;
        let mut room = self.rooms.remove(i);
        room.viewers = viewers;
        proof {
            lemma_update(before, i as int, room);
        }
        self.rooms.insert(i, room);
        assert(self.rooms@ =~= before.update(i as int, room));
    }

    fn remove_room(&mut self, i: usize)
        requires
            old(self).wf(),
            i < old(self).rooms@.len(),
        ensures
            final(self).wf(),
            final(self)@ == old(self)@.remove(old(self).rooms@[i as int].pin@),
            final(self).rooms@ == old(self).rooms@.remove(i as int),
    {
        proof {
            lemma_remove(self.rooms@, i as int);
        }
        let _ = self.rooms.remove(i);
    }

    /// Removes every room whose agent is `conn`.
    fn remove_rooms_of(&mut self, conn: u64)
        requires
            old(self).wf(),
        ensures
            final(self).wf(),
            final(self)@ == without_agent(old(self)@, conn),
    {
        let mut i: usize = 0;
        while i < self.rooms.len()
            invariant
                self.wf(),
                i <= self.rooms@.len(),
                forall|j: int| 0 <= j < i ==> self.rooms@[j].agent != Some(conn),
                without_agent(self@, conn) == without_agent(old(self)@, conn),
            decreases self.rooms@.len() - i,
        {
            if self.rooms[i].agent == Some(conn) {
                let ghost before = self@;
                proof {
                    lemma_lookup(self.rooms@, i as int);
                }
                let ghost rs = self.rooms@;
                self.remove_room(i);
                assert(forall|j: int| 0 <= j < i ==> self.rooms@[j] == rs[j]);
                assert(without_agent(self@, conn) =~= without_agent(before, conn));
            } else {
                i = i + 1;
            }
        }
        assert forall|k: Seq<char>| #[trigger] self@.contains_key(k) implies self@[k].0 != Some(conn) by {
            let j = choose|j: int| #[trigger] has_pin(self.rooms@, j, k);
            lemma_lookup(self.rooms@, j);
        }
        assert(without_agent(self@, conn) =~= self@);
    }

    /// Handles a text message that parsed, from the connection of `session`.
    ///
    /// A registration with a PIN takes the PIN if it is free, makes the
    /// connection that room's agent and confirms; if the PIN is in use it
    /// is refused. A join with a PIN adds the connection to that room's
    /// viewers and confirms; without such a room it is refused. An input
    /// message goes, unchanged, to the agent of the room the connection
    /// joined. Anything else is ignored.
    pub fn on_text(&mut self, session: &mut Session, msg: &ServerMsg) -> (out: Vec<Delivery>)
        requires
            old(self).wf(),
        ensures
            final(self).wf(),
            registers(*msg) matches Some(p) ==> final(self)@ == after_register(old(self)@, old(session).conn, p),
            registers(*msg) matches Some(p) && old(self)@.contains_key(p) ==> *final(session) == *old(session)
                && out@ == seq![(Delivery { to: old(session).conn, reply: Reply::Error(RelayError::PinInUse) })],
            registers(*msg) matches Some(p) && !old(self)@.contains_key(p) ==>
                *final(session) == (Session { conn: old(session).conn, registered_pin: msg.pin, joined_pin: old(session).joined_pin })
                && out@ == seq![(Delivery { to: old(session).conn, reply: Reply::Registered(msg.pin->0) })],
            joins(*msg) matches Some(p) ==> final(self)@ == after_join(old(self)@, old(session).conn, p),
            joins(*msg) matches Some(p) && old(self)@.contains_key(p) ==>
                *final(session) == (Session { conn: old(session).conn, registered_pin: old(session).registered_pin, joined_pin: msg.pin })
                && out@ == seq![(Delivery { to: old(session).conn, reply: Reply::Joined(msg.pin->0) })],
            joins(*msg) matches Some(p) && !old(self)@.contains_key(p) ==> *final(session) == *old(session)
                && out@ == seq![(Delivery { to: old(session).conn, reply: Reply::Error(RelayError::RoomNotFound) })],
            registers(*msg) is None && joins(*msg) is None ==> {
                &&& final(self)@ == old(self)@
                &&& *final(session) == *old(session)
                &&& out@ == (if is_input(*msg) {
                    match input_target(old(self)@, opt_pin(old(session).joined_pin)) {
                        Some(a) => seq![(Delivery { to: a, reply: Reply::ForwardText })],
                        None => Seq::<Delivery>::empty(),
                    }
                } else {
                    Seq::<Delivery>::empty()
                })
            },
    {
        proof {
            reveal_strlit("register");
            reveal_strlit("join");
            reveal_strlit("input");
            assert("register"@.len() == 8);
            assert("join"@.len() == 4);
            assert("input"@.len() == 5);
        }
        let conn: u64 = session.conn;
        let mut out: Vec<Delivery> = Vec::new();
        if str_eq(msg.msg_type.as_str(), "register") {
            if let Some(pin) = &msg.pin {
                match self.find(pin) {
                    Some(_) => {
                        out.push(Delivery { to: conn, reply: Reply::Error(RelayError::PinInUse) });
                    },
                    None => {
                        self.insert_room(pin, conn);
                        session.registered_pin = Some(pin.clone());
                        out.push(Delivery { to: conn, reply: Reply::Registered(pin.clone()) });
                    },
                }
            }
        } else if str_eq(msg.msg_type.as_str(), "join") {
            if let Some(pin) = &msg.pin {
                match self.find(pin) {
                    Some(i) => {
                        let mut viewers = copy_ids(&self.rooms[i].viewers);
                        viewers.push(conn);
                        self.set_viewers(i, viewers);
                        session.joined_pin = Some(pin.clone());
                        out.push(Delivery { to: conn, reply: Reply::Joined(pin.clone()) });
                    },
                    None => {
                        out.push(Delivery { to: conn, reply: Reply::Error(RelayError::RoomNotFound) });
                    },
                }
            }
        } else if str_eq(msg.msg_type.as_str(), "input") {
            if let Some(i) = self.room_of(&session.joined_pin) {
                if let Some(agent) = self.rooms[i].agent {
                    out.push(Delivery { to: agent, reply: Reply::ForwardText });
                }
            }
        }
        out
    }

    /// The connections that a binary frame from the connection of `session`
    /// goes to: the viewers of the room it registered, in the order in which
    /// they joined, while it is that room's agent; none otherwise.
    pub fn frame_recipients(&self, session: &Session) -> (r: Vec<u64>)
        requires
            self.wf(),
        ensures
            r@ == frame_targets(self@, session.conn, opt_pin(session.registered_pin)),
    {
        match self.room_of(&session.registered_pin) {
            Some(i) => {
                if self.rooms[i].agent == Some(session.conn) {
                    copy_ids(&self.rooms[i].viewers)
                } else {
                    Vec::new()
                }
            },
            None => Vec::new(),
        }
    }

    /// The viewers of the room that the connection of `session` last
    /// joined, in the order in which they joined; none if there is no such
    /// room.
    pub fn joined_viewers(&self, session: &Session) -> (r: Vec<u64>)
        requires
            self.wf(),
        ensures
            r@ == (match opt_pin(session.joined_pin) {
                Some(p) => if self@.contains_key(p) { self@[p].1 } else { Seq::<u64>::empty() },
                None => Seq::<u64>::empty(),
            }),
    {
        match self.room_of(&session.joined_pin) {
            Some(i) => copy_ids(&self.rooms[i].viewers),
            None => Vec::new(),
        }
    }

    /// When the connection of `session` ends: every room it is the agent of
    /// goes; the room it last joined, if it remains, keeps only the viewers
    /// whose connections are not among `closed`.
    pub fn on_disconnect(&mut self, session: &Session, closed: &Vec<u64>)
        requires
            old(self).wf(),
        ensures
            final(self).wf(),
            final(self)@ == after_disconnect(old(self)@, session.conn, opt_pin(session.joined_pin), closed@),
    {
        self.remove_rooms_of(session.conn);
        match self.room_of(&session.joined_pin) {
            Some(i) => {
                let kept = retain_open(&self.rooms[i].viewers, closed);
                self.set_viewers(i, kept);
            },
            None => {},
        }
    }
}

// ---------------------------------------------------------------- laws

/// A PIN has one agent at a time: registering a PIN in use changes no room.
pub proof fn law_pin_in_use_keeps_rooms(rooms: RoomMap, conn: u64, pin: Seq<char>)
    requires
        rooms.contains_key(pin),
    ensures
        after_register(rooms, conn, pin) == rooms,
{
}

/// A join without a room of that PIN creates no room.
pub proof fn law_join_needs_room(rooms: RoomMap, conn: u64, pin: Seq<char>)
    requires
        !rooms.contains_key(pin),
    ensures
        after_join(rooms, conn, pin) == rooms,
{
}

/// Once a viewer joins a room, the frames of the room's agent reach it after
/// the viewers who joined before, and input from it reaches that agent.
pub proof fn law_joined_viewer_is_served(rooms: RoomMap, agent: u64, viewer: u64, pin: Seq<char>)
    requires
        rooms.contains_key(pin),
        rooms[pin].0 == Some(agent),
    ensures
        frame_targets(after_join(rooms, viewer, pin), agent, Some(pin)) == frame_targets(rooms, agent, Some(pin)).push(viewer),
        input_target(after_join(rooms, viewer, pin), Some(pin)) == Some(agent),
{
}

/// An agent that registers a free PIN is the one that a viewer joining
/// that PIN reaches, and that viewer alone receives the agent's frames.
pub proof fn law_register_then_join(rooms: RoomMap, agent: u64, viewer: u64, pin: Seq<char>)
    requires
        !rooms.contains_key(pin),
    ensures
        input_target(after_join(after_register(rooms, agent, pin), viewer, pin), Some(pin)) == Some(agent),
        frame_targets(after_join(after_register(rooms, agent, pin), viewer, pin), agent, Some(pin)) == seq![viewer],
{
    assert(Seq::<u64>::empty().push(viewer) =~= seq![viewer]);
}

/// Only a room's agent has frames forwarded: a connection's frames reach
/// someone only through a room whose agent it is.
pub proof fn law_only_agents_send_frames(rooms: RoomMap, conn: u64, registered: Option<Seq<char>>)
    ensures
        frame_targets(rooms, conn, registered).len() > 0 ==> {
            &&& registered is Some
            &&& rooms.contains_key(registered->0)
            &&& rooms[registered->0].0 == Some(conn)
        },
        frame_targets(rooms, conn, None) == Seq::<u64>::empty(),
{
}

/// When an agent's connection ends, every room it is the agent of is gone,
/// and every room of another agent remains.
pub proof fn law_agent_leaving_removes_room(
    rooms: RoomMap,
    conn: u64,
    pin: Seq<char>,
    joined: Option<Seq<char>>,
    closed: Seq<u64>,
)
    requires
        rooms.contains_key(pin),
    ensures
        rooms[pin].0 == Some(conn) ==> !after_disconnect(rooms, conn, joined, closed).contains_key(pin),
        rooms[pin].0 != Some(conn) ==> after_disconnect(rooms, conn, joined, closed).contains_key(pin),
        rooms[pin].0 != Some(conn) ==> after_disconnect(rooms, conn, joined, closed)[pin].0 == rooms[pin].0,
{
}

/// When a viewer's connection ends, the room it joined stays with the same
/// agent, and keeps exactly the viewers whose connections are not among
/// `closed`.
pub proof fn law_viewer_leaving_keeps_room(rooms: RoomMap, conn: u64, pin: Seq<char>, closed: Seq<u64>)
    requires
        rooms.contains_key(pin),
        rooms[pin].0 != Some(conn),
    ensures
        after_disconnect(rooms, conn, Some(pin), closed).contains_key(pin),
        after_disconnect(rooms, conn, Some(pin), closed)[pin].0 == rooms[pin].0,
        forall|v: u64|
            #[trigger] after_disconnect(rooms, conn, Some(pin), closed)[pin].1.contains(v)
                <==> (rooms[pin].1.contains(v) && !closed.contains(v)),
{
    let viewers = rooms[pin].1;
    let pred = not_in(closed);
    let rest = without_agent(rooms, conn);
    assert(rest.contains_key(pin));
    assert(rest[pin] == rooms[pin]);
    assert forall|v: u64|
        #[trigger] keep_open(viewers, closed).contains(v) <==> (viewers.contains(v) && !closed.contains(v)) by {
        if viewers.contains(v) && !closed.contains(v) {
            let i = choose|i: int| 0 <= i < viewers.len() && viewers[i] == v;
            viewers.lemma_filter_contains(pred, i);
        }
        if keep_open(viewers, closed).contains(v) {
            let f = viewers.filter(pred);
            let i = choose|i: int| 0 <= i < f.len() && f[i] == v;
            viewers.lemma_filter_pred(pred, i);
            viewers.lemma_filter_contains_rev(pred, v);
        }
    }
}

/// A request changes no room but the one it names, and a connection's end
/// changes no room but its own and the one it joined.
pub proof fn law_other_rooms_unchanged(
    rooms: RoomMap,
    conn: u64,
    pin: Seq<char>,
    other: Seq<char>,
    closed: Seq<u64>,
)
    requires
        other != pin,
        rooms.contains_key(other) ==> rooms[other].0 != Some(conn),
    ensures
        after_register(rooms, conn, pin).contains_key(other) == rooms.contains_key(other),
        after_join(rooms, conn, pin).contains_key(other) == rooms.contains_key(other),
        after_disconnect(rooms, conn, Some(pin), closed).contains_key(other) == rooms.contains_key(other),
        rooms.contains_key(other) ==> {
            &&& after_register(rooms, conn, pin)[other] == rooms[other]
            &&& after_join(rooms, conn, pin)[other] == rooms[other]
            &&& after_disconnect(rooms, conn, Some(pin), closed)[other] == rooms[other]
        },
{
}

/// A change to the rooms: a connection registers a PIN, joins a PIN, or
/// ends (with the PIN it last joined and the connections found closed).
pub enum RoomEvent {
    Register(u64, Seq<char>),
    Join(u64, Seq<char>),
    Leave(u64, Option<Seq<char>>, Seq<u64>),
}

/// The rooms after an event.
pub open spec fn apply_event(rooms: RoomMap, e: RoomEvent) -> RoomMap {
    match e {
        RoomEvent::Register(c, p) => after_register(rooms, c, p),
        RoomEvent::Join(c, p) => after_join(rooms, c, p),
        RoomEvent::Leave(c, joined, closed) => after_disconnect(rooms, c, joined, closed),
    }
}

/// The rooms after a sequence of events, in order.
pub open spec fn apply_events(rooms: RoomMap, events: Seq<RoomEvent>) -> RoomMap
    decreases events.len(),
{
    if events.len() == 0 {
        rooms
    } else {
        apply_event(apply_events(rooms, events.drop_last()), events.last())
    }
}

/// No event changes the agent of a room that it leaves in place, and a room
/// goes only when its own agent's connection ends.
pub proof fn law_room_keeps_its_agent(rooms: RoomMap, e: RoomEvent, pin: Seq<char>)
    requires
        rooms.contains_key(pin),
    ensures
        apply_event(rooms, e).contains_key(pin) ==> apply_event(rooms, e)[pin].0 == rooms[pin].0,
        !apply_event(rooms, e).contains_key(pin) ==> (e matches RoomEvent::Leave(c, _, _) && rooms[pin].0 == Some(c)),
{
}

/// A PIN has one agent at a time: through any run of events in which its
/// room stays, the room's agent stays the same.
pub proof fn law_one_agent_per_pin(rooms: RoomMap, events: Seq<RoomEvent>, pin: Seq<char>)
    requires
        forall|i: int| 0 <= i <= events.len() ==> #[trigger] apply_events(rooms, events.take(i)).contains_key(pin),
    ensures
        apply_events(rooms, events)[pin].0 == apply_events(rooms, Seq::empty())[pin].0,
    decreases events.len(),
{
    assert(events.take(events.len() as int) =~= events);
    assert(events.take(0) =~= Seq::<RoomEvent>::empty());
    if events.len() > 0 {
        let prefix = events.drop_last();
        assert forall|i: int| 0 <= i <= prefix.len() implies #[trigger] apply_events(rooms, prefix.take(i)).contains_key(pin) by {
            assert(prefix.take(i) =~= events.take(i));
        }
        law_one_agent_per_pin(rooms, prefix, pin);
        assert(prefix.take(prefix.len() as int) =~= prefix);
        assert(events.take(prefix.len() as int) =~= prefix);
        assert(apply_events(rooms, prefix).contains_key(pin));
        law_room_keeps_its_agent(apply_events(rooms, prefix), events.last(), pin);
    }
}

} // verus!
