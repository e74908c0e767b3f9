//! The room that a host keeps: who is in it, what waits to be sent to whom, and
//! how each connection goes from the key exchange to the last message.
use std::collections::HashMap;

use vstd::prelude::*;
use vstd::seq_lib::{
    seq_to_set_is_finite, to_multiset_build, to_multiset_contains, to_multiset_len,
    to_multiset_remove,
};

use crate::clock::{is_time_of_day, time_of_day};
use crate::crypto::{
    begin_key_exchange, exchanged, perform_key_exchange, received_text, CryptoSession, KeyExchange,
};
use crate::event::{AppEvent, ChatMessage, EventView, MessageView};
use crate::protocol::{
    hello, hello_name, hello_text, is_quit, joined, joined_round_trip, joined_text, left,
    left_round_trip, left_text, message, message_round_trip, msg_text, ordering_of, parsed,
    quit_text, read_hello, room, room_names, room_round_trip, room_text,
    texts_hold_what_they_carry,
};
use crate::text::{join, lex_le, order_is_unique, sort_names, views};

verus! {

broadcast use vstd::std_specs::hash::group_hash_axioms;

/// A member of the room other than the host.
pub struct ClientHandle {
    pub name: String,
    /// Plaintext messages queued for this client.
    pub queue: Vec<String>,
}

/// The contents of a `ClientHandle`.
#[verifier::ext_equal]
pub struct ClientView {
    pub name: Seq<char>,
    pub queue: Seq<Seq<char>>,
}

impl View for ClientHandle {
    type V = ClientView;

    open spec fn view(&self) -> ClientView {
        ClientView { name: self.name@, queue: views(self.queue@) }
    }
}

/// The room.
pub struct ServerState {
    clients: HashMap<u64, ClientHandle>,
    next_id: u64,
    /// What the host's own window has not been told yet.
    events: Vec<AppEvent>,
    pub host_name: String,
}

/// The contents of a `ServerState`.
#[verifier::ext_equal]
pub struct RoomView {
    pub clients: Map<u64, ClientView>,
    pub next_id: u64,
    pub events: Seq<EventView>,
    pub host_name: Seq<char>,
}

/// The contents of a list of events.
pub open spec fn event_views(events: Seq<AppEvent>) -> Seq<EventView> {
    events.map_values(|e: AppEvent| e@)
}

/// The contents of a table of clients.
pub open spec fn client_views(clients: Map<u64, ClientHandle>) -> Map<u64, ClientView> {
    clients.map_values(|c: ClientHandle| c@)
}

impl View for ServerState {
    type V = RoomView;

    closed spec fn view(&self) -> RoomView {
        RoomView {
            clients: client_views(self.clients@),
            next_id: self.next_id,
            events: event_views(self.events@),
            host_name: self.host_name@,
        }
    }
}

impl ClientView {
    /// The client with one more message in its queue.
    pub open spec fn with(self, text: Seq<char>) -> ClientView {
        ClientView { queue: self.queue.push(text), ..self }
    }
}

impl RoomView {
    /// An empty room.
    pub open spec fn opened(host_name: Seq<char>) -> RoomView {
        RoomView { clients: Map::empty(), next_id: 1, events: seq![], host_name }
    }

    /// What holds of every room in which fewer than `u64::MAX` numbers were given
    /// out: every client's number is one of them.
    pub open spec fn sound(self) -> bool {
        forall|id: u64| #[trigger] self.clients.contains_key(id) ==> 0 < id < self.next_id
    }

    /// The room after a text was sent to every client except one.
    pub open spec fn told(self, exclude_id: u64, text: Seq<char>) -> RoomView {
        RoomView {
            clients: self.clients.map_entries(
                |id: u64, c: ClientView|
                    if id == exclude_id {
                        c
                    } else {
                        c.with(text)
                    },
            ),
            ..self
        }
    }

    /// The room after the host's window was told of an event.
    pub open spec fn notified(self, event: EventView) -> RoomView {
        RoomView { events: self.events.push(event), ..self }
    }

    /// The room after the next number was given out.
    pub open spec fn numbered(self) -> RoomView {
        RoomView {
            next_id: if self.next_id == u64::MAX {
                0
            } else {
                (self.next_id + 1) as u64
            },
            ..self
        }
    }

    /// The room after a client has come in: the others and the host are told.
    pub open spec fn admitted(self, id: u64, name: Seq<char>) -> RoomView {
        RoomView {
            clients: self.clients.insert(id, ClientView { name, queue: seq![] }),
            ..self
        }.told(id, joined_text(name)).notified(EventView::UserJoined(name))
    }

    /// The room after a client has written something: the others and the host
    /// are told.
    pub open spec fn relayed(
        self,
        id: u64,
        name: Seq<char>,
        text: Seq<char>,
        now: Seq<char>,
    ) -> RoomView {
        self.told(id, msg_text(name, text)).notified(
            EventView::Message(MessageView::other(name, text, now)),
        )
    }

    /// The room after a client has gone: the others and the host are told.
    pub open spec fn parted(self, id: u64, name: Seq<char>) -> RoomView {
        RoomView { clients: self.clients.remove(id), ..self }.told(
            u64::MAX,
            left_text(name),
        ).notified(EventView::UserLeft(name))
    }

    /// The room after the host has written something, or `/quit`.
    pub open spec fn addressed(self, text: Seq<char>) -> RoomView {
        if text == quit_text() {
            self.told(u64::MAX, left_text(self.host_name))
        } else {
            self.told(u64::MAX, msg_text(self.host_name, text))
        }
    }

    /// What waits to be sent to a client; nothing, where there is no such client.
    pub open spec fn queue_of(self, id: u64) -> Seq<Seq<char>> {
        if self.clients.contains_key(id) {
            self.clients[id].queue
        } else {
            seq![]
        }
    }

    /// The room after what waited for a client was handed out.
    pub open spec fn emptied(self, id: u64) -> RoomView {
        if self.clients.contains_key(id) {
            RoomView {
                clients: self.clients.insert(
                    id,
                    ClientView { queue: seq![], ..self.clients[id] },
                ),
                ..self
            }
        } else {
            self
        }
    }

    /// The names of some clients and of the host.
    pub open spec fn names_of(self, ids: Seq<u64>) -> Seq<Seq<char>> {
        ids.map_values(|id: u64| self.clients[id].name).push(self.host_name)
    }

    /// Whether `online` lists everybody in the room, in order.
    pub open spec fn lists_members(self, online: Seq<Seq<char>>) -> bool {
        exists|ids: Seq<u64>|
            ids.no_duplicates() && ids.to_set() == self.clients.dom() && ordering_of(
                online,
                #[trigger] self.names_of(ids),
            )
    }
}

impl ServerState {
    /// An empty room.
    pub fn new(host_name: String) -> (res: Self)
        ensures
            res@ == RoomView::opened(host_name@),
            res@.sound(),
    {
        let res = ServerState {
            clients: HashMap::new(),
            next_id: 1,
            events: Vec::new(),
            host_name,
        };
        assert(res@ =~= RoomView::opened(host_name@));
        res
    }

    /// The number for the next connection: each is one more than the one before,
    /// around 2^64.
    pub fn alloc_id(&mut self) -> (res: u64)
        ensures
            res == old(self)@.next_id,
            final(self)@ == old(self)@.numbered(),
            old(self)@.sound() ==> !old(self)@.clients.contains_key(res),
            old(self)@.sound() && 0 < res < u64::MAX ==> final(self)@.sound() && res
                < final(self)@.next_id,
    {
        let id: u64 = self.next_id;
        self.next_id = id.wrapping_add(1);
        id
    }

    /// The numbers of all clients.
    fn ids(&self) -> (res: Vec<u64>)
        ensures
            res@.no_duplicates(),
            res@.to_set() == self.clients@.dom(),
    {
        let mut res: Vec<u64> = Vec::new();
        for id in it: self.clients.keys()
            invariant
                it.seq().no_duplicates(),
                it.seq().unref().to_set() == self.clients@.dom(),
                res@ == it.seq().unref().take(it.index() as int),
                it.index() == it.seq().len() ==> res@ == it.seq().unref(),
        {
            let ghost all = it.seq().unref();
            let ghost n = it.index();
            res.push(*id);
            assert(res@ =~= all.take(n + 1));
        }
        res
    }

    /// Queues a text for every client except `exclude_id`. With `u64::MAX` it
    /// goes to everyone, as long as no client has that number.
    pub fn broadcast(&mut self, exclude_id: u64, msg: &str)
        ensures
            final(self)@ == old(self)@.told(exclude_id, msg@),
            final(self)@.clients.dom() == old(self)@.clients.dom(),
            old(self)@.sound() ==> final(self)@.sound(),
            exclude_id == u64::MAX && old(self)@.sound() ==> forall|id: u64| #[trigger]
                old(self)@.clients.contains_key(id) ==> final(self)@.clients[id]
                    == old(self)@.clients[id].with(msg@),
    {
        let ids = self.ids();
        let n: usize = ids.len();
        for i in 0..n
            invariant
                n == ids@.len(),
                ids@.no_duplicates(),
                ids@.to_set() == self.clients@.dom(),
                self.clients@.dom() == old(self).clients@.dom(),
                self.next_id == old(self).next_id,
                self.events == old(self).events,
                self.host_name == old(self).host_name,
                forall|j: int|
                    0 <= j < n ==> self.clients@[#[trigger] ids@[j]]@ == if j < i && ids@[j]
                        != exclude_id {
                        old(self).clients@[ids@[j]]@.with(msg@)
                    } else {
                        old(self).clients@[ids@[j]]@
                    },
        {
            let id: u64 = ids[i];
            assert(ids@.to_set().contains(ids@[i as int]));
            if id != exclude_id {
                match self.clients.remove(&id) {
                    Some(mut client) => {
                        let ghost before = client@;
                        client.queue.push(msg.to_owned());
                        assert(client@ =~= before.with(msg@));
                        self.clients.insert(id, client);
                    },
                    None => {},
                }
                assert(self.clients@.dom() =~= old(self).clients@.dom());
            }
        }
        proof {
            let told = old(self)@.told(exclude_id, msg@);
            assert forall|id: u64|
                self.clients@.dom().contains(id) implies #[trigger] told.clients[id]
                == self.clients@[id]@ by {
                assert(ids@.to_set().contains(id));
                let j = choose|j: int| 0 <= j < ids@.len() && ids@[j] == id;
                assert(ids@[j] == id);
            }
            assert(self@.clients =~= told.clients);
            assert(told.clients.dom() =~= old(self)@.clients.dom());
        }
    }

    /// Queues a text once for absolutely everyone in the room but the host.
    pub fn tell_everyone(&mut self, msg: &str)
        ensures
            final(self)@ == old(self)@.told(u64::MAX, msg@),
            final(self)@.clients.dom() == old(self)@.clients.dom(),
            old(self)@.sound() ==> final(self)@.sound(),
            old(self)@.sound() ==> forall|id: u64| #[trigger]
                old(self)@.clients.contains_key(id) ==> final(self)@.clients[id]
                    == old(self)@.clients[id].with(msg@),
    {
        self.broadcast(u64::MAX, msg);
    }

    /// Everybody in the room, in order.
    pub fn online(&self) -> (res: Vec<String>)
        ensures
            self@.lists_members(views(res@)),
    {
        let ids = self.ids();
        let n: usize = ids.len();
        let mut names: Vec<String> = Vec::new();
        for i in 0..n
            invariant
                n == ids@.len(),
                ids@.to_set() == self.clients@.dom(),
                views(names@) == ids@.take(i as int).map_values(
                    |id: u64| self@.clients[id].name,
                ),
        {
            let id: u64 = ids[i];
            let ghost before = views(names@);
            assert(ids@.to_set().contains(ids@[i as int]));
            match self.clients.get(&id) {
                Some(client) => {
                    names.push(client.name.clone());
                },
                None => {},
            }
            assert(views(names@) =~= before.push(self@.clients[id].name));
            assert(ids@.take(i + 1) =~= ids@.take(i as int).push(id));
            assert(views(names@) =~= ids@.take(i + 1).map_values(
                |id: u64| self@.clients[id].name,
            ));
        }
        assert(ids@.take(n as int) =~= ids@);
        names.push(self.host_name.clone());
        assert(views(names@) =~= self@.names_of(ids@));
        sort_names(&mut names);
        assert(self@.clients.dom() =~= self.clients@.dom());
        assert(ordering_of(views(names@), self@.names_of(ids@)));
        names
    }

    /// Tells the host's window of an event.
    fn notify(&mut self, event: AppEvent)
        ensures
            final(self)@ == old(self)@.notified(event@),
    {
        let ghost before = self@;
        self.events.push(event);
        assert(self@ =~= before.notified(event@));
    }

    /// Lets a client in under the name it has given, and returns the list of
    /// those who were there before. Without a name there is no entry.
    pub fn welcome(&mut self, id: u64, name: &str) -> (res: Option<String>)
        ensures
            res is None <==> name@.len() == 0,
            res is None ==> final(self)@ == old(self)@,
            old(self)@.sound() && 0 < id < old(self)@.next_id ==> final(self)@.sound(),
            res matches Some(list) ==> {
                &&& final(self)@ == old(self)@.admitted(id, name@)
                &&& exists|online: Seq<Seq<char>>| #[trigger]
                    old(self)@.lists_members(online) && list@ == room_text(online)
            },
    {
        if name.is_empty() {
            return None;
        }
        let ghost before = self@;
        let online = self.online();
        let list = room(&online);
        let client = ClientHandle { name: name.to_owned(), queue: Vec::new() };
        assert(client@ =~= ClientView { name: name@, queue: seq![] });
        self.clients.insert(id, client);
        assert(self@ =~= RoomView {
            clients: before.clients.insert(id, ClientView { name: name@, queue: seq![] }),
            ..before
        });
        self.broadcast(id, joined(name).as_str());
        self.notify(AppEvent::UserJoined(name.to_owned()));
        assert(before.lists_members(views(online@)) && list@ == room_text(views(online@)));
        Some(list)
    }

    /// Passes on what a client has written at the given time.
    pub fn relay_at(&mut self, id: u64, name: &str, text: &str, now: String)
        ensures
            final(self)@ == old(self)@.relayed(id, name@, text@, now@),
            old(self)@.sound() ==> final(self)@.sound(),
    {
        self.broadcast(id, message(name, text).as_str());
        self.notify(
            AppEvent::Message(
                ChatMessage {
                    timestamp: now,
                    sender: name.to_owned(),
                    content: text.to_owned(),
                    is_own: false,
                    is_system: false,
                },
            ),
        );
    }

    /// Passes on what a client has just written.
    pub fn relay(&mut self, id: u64, name: &str, text: &str)
        ensures
            exists|now: Seq<char>|
                is_time_of_day(now) && final(self)@ == #[trigger] old(self)@.relayed(
                    id,
                    name@,
                    text@,
                    now,
                ),
            old(self)@.sound() ==> final(self)@.sound(),
    {
        let now = time_of_day();
        let ghost at = now@;
        self.relay_at(id, name, text, now);
        assert(self@ == old(self)@.relayed(id, name@, text@, at));
    }

    /// Lets a client go. Returns what still waited to be sent to it.
    pub fn part(&mut self, id: u64, name: &str) -> (res: Vec<String>)
        ensures
            final(self)@ == old(self)@.parted(id, name@),
            old(self)@.sound() ==> final(self)@.sound(),
            views(res@) == old(self)@.queue_of(id),
    {
        let ghost before = self@;
        let rest: Vec<String> = match self.clients.remove(&id) {
            Some(client) => client.queue,
            None => Vec::new(),
        };
        assert(self@ =~= RoomView { clients: before.clients.remove(id), ..before });
        assert(views(rest@) =~= before.queue_of(id));
        self.tell_everyone(left(name).as_str());
        self.notify(AppEvent::UserLeft(name.to_owned()));
        rest
    }

    /// Hands out what waits to be sent to a client; `None`, where there is no such
    /// client.
    pub fn take_queue(&mut self, id: u64) -> (res: Option<Vec<String>>)
        ensures
            final(self)@ == old(self)@.emptied(id),
            old(self)@.sound() ==> final(self)@.sound(),
            res is Some <==> old(self)@.clients.contains_key(id),
            res matches Some(texts) ==> views(texts@) == old(self)@.queue_of(id),
    {
        let ghost before = self@;
        match self.clients.remove(&id) {
            Some(client) => {
                let mut client = client;
                let mut texts: Vec<String> = Vec::new();
                std::mem::swap(&mut texts, &mut client.queue);
                assert(client@ =~= ClientView { queue: seq![], ..before.clients[id] });
                self.clients.insert(id, client);
                assert(self@ =~= before.emptied(id));
                Some(texts)
            },
            None => {
                assert(self@ =~= before);
                None
            },
        }
    }

    /// Hands out what the host's window has not been told yet.
    pub fn take_events(&mut self) -> (res: Vec<AppEvent>)
        ensures
            event_views(res@) == old(self)@.events,
            final(self)@ == (RoomView { events: seq![], ..old(self)@ }),
            old(self)@.sound() ==> final(self)@.sound(),
    {
        let ghost before = self@;
        let mut events: Vec<AppEvent> = Vec::new();
        std::mem::swap(&mut events, &mut self.events);
        assert(self@ =~= RoomView { events: seq![], ..before });
        events
    }
}

/// One turn of the host's loop: sends what the host has written to everybody, or
/// tells them that the host has left. Returns whether the loop goes on.
pub fn run_server(server: &mut ServerState, text: &str) -> (res: bool)
    ensures
        final(server)@ == old(server)@.addressed(text@),
        old(server)@.sound() ==> final(server)@.sound(),
        res == (text@ != quit_text()),
{
    let host = server.host_name.clone();
    if is_quit(text) {
        server.tell_everyone(left(host.as_str()).as_str());
        return false;
    }
    server.tell_everyone(message(host.as_str(), text).as_str());
    true
}

// ---------------------------------------------------------------------------
// Connections
// ---------------------------------------------------------------------------

/// How far a client's connection has come.
pub enum Phase {
    /// The client's public key is awaited.
    Keys(KeyExchange),
    /// The client's name is awaited.
    Name(CryptoSession),
    /// The client is in the room under this name.
    Chat(CryptoSession, String),
    /// The connection is over.
    Closed,
}

/// The contents of a `Phase`.
pub enum PhaseView {
    Keys(KeyExchange),
    Name(Seq<u8>),
    Chat(Seq<u8>, Seq<char>),
    Closed,
}

impl View for Phase {
    type V = PhaseView;

    open spec fn view(&self) -> PhaseView {
        match *self {
            Phase::Keys(mine) => PhaseView::Keys(mine),
            Phase::Name(session) => PhaseView::Name(session@),
            Phase::Chat(session, name) => PhaseView::Chat(session@, name@),
            Phase::Closed => PhaseView::Closed,
        }
    }
}

/// A client's connection.
pub struct Connection {
    pub id: u64,
    pub phase: Phase,
}

/// The room, a connection's phase, and the texts that go to its client.
#[verifier::ext_equal]
pub struct Step {
    pub room: RoomView,
    pub phase: PhaseView,
    pub sends: Seq<Seq<char>>,
}

/// The contents of an optional line.
pub open spec fn line_view(line: Option<&str>) -> Option<Seq<char>> {
    match line {
        Some(l) => Some(l@),
        None => None,
    }
}

/// The text in what was read, where anything could be read.
pub open spec fn text_read(key: Seq<u8>, line: Option<Seq<char>>) -> Option<Seq<char>> {
    match line {
        Some(l) => match received_text(key, l) {
            Ok(text) => Some(text),
            Err(_) => None,
        },
        None => None,
    }
}

impl Step {
    /// The room as it is, and the connection over.
    pub open spec fn over(room: RoomView) -> Step {
        Step { room, phase: PhaseView::Closed, sends: seq![] }
    }

    /// What becomes of a connection once its client has gone.
    pub open spec fn gone(room: RoomView, id: u64, name: Seq<char>) -> Step {
        Step { room: room.parted(id, name), phase: PhaseView::Closed, sends: room.queue_of(id) }
    }

    /// What comes of a line from the client, or of the failure to read one.
    /// `online` is the list of those in the room.
    pub open spec fn of(
        room: RoomView,
        id: u64,
        phase: PhaseView,
        line: Option<Seq<char>>,
        online: Seq<Seq<char>>,
        now: Seq<char>,
    ) -> Step {
        match phase {
            PhaseView::Keys(mine) => match line {
                Some(l) => match exchanged(mine, l) {
                    Ok(key) => Step {
                        room,
                        phase: PhaseView::Name(key),
                        sends: seq![hello_text(room.host_name)],
                    },
                    Err(_) => Step::over(room),
                },
                None => Step::over(room),
            },
            PhaseView::Name(key) => match text_read(key, line) {
                Some(text) => if hello_name(text).len() == 0 {
                    Step::over(room)
                } else {
                    Step {
                        room: room.admitted(id, hello_name(text)),
                        phase: PhaseView::Chat(key, hello_name(text)),
                        sends: seq![room_text(online)],
                    }
                },
                None => Step::over(room),
            },
            PhaseView::Chat(key, name) => match text_read(key, line) {
                Some(text) => if text == quit_text() {
                    Step::gone(room, id, name)
                } else {
                    Step { room: room.relayed(id, name, text, now), phase, sends: seq![] }
                },
                None => Step::gone(room, id, name),
            },
            PhaseView::Closed => Step::over(room),
        }
    }
}

/// The text in what was read, where anything could be read.
fn text_in(session: &CryptoSession, line: Option<&str>) -> (res: Option<String>)
    ensures
        match (text_read(session@, line_view(line)), res) {
            (Some(text), Some(t)) => t@ == text,
            (None, None) => true,
            _ => false,
        },
{
    match line {
        Some(l) => match session.recv_text(l) {
            Ok(text) => Some(text),
            Err(_) => None,
        },
        None => None,
    }
}

/// A connection that is over, with a list of texts that go out.
fn closed(id: u64, sends: Vec<String>) -> (res: (Connection, Vec<String>))
    ensures
        res.0.id == id,
        res.0.phase@ == PhaseView::Closed,
        res.1 == sends,
{
    (Connection { id, phase: Phase::Closed }, sends)
}

/// Welcomes a new connection. The line goes to the client.
pub fn accept_client(server: &mut ServerState) -> (res: (Connection, String))
    ensures
        final(server)@ == old(server)@.numbered(),
        res.0.id == old(server)@.next_id,
        old(server)@.sound() && 0 < res.0.id < u64::MAX ==> final(server)@.sound() && res.0.id
            < final(server)@.next_id,
        res.0.phase@ matches PhaseView::Keys(mine) && mine.offers(res.1@),
{
    let id: u64 = server.alloc_id();
    let (mine, line) = begin_key_exchange();
    (Connection { id, phase: Phase::Keys(mine) }, line)
}

/// One turn of a client's handler: what comes of a line that was read at the
/// given time, or of the failure to read one. An empty line is the end of the
/// stream. Returns the connection and the texts that go to the client.
pub fn handle_client_at(
    client: Connection,
    server: &mut ServerState,
    line: Option<&str>,
    now: String,
) -> (res: (Connection, Vec<String>))
    ensures
        res.0.id == client.id,
        old(server)@.sound() && 0 < client.id < old(server)@.next_id ==> final(server)@.sound(),
        exists|online: Seq<Seq<char>>|
            {
                &&& client.phase@ is Name && res.0.phase@ is Chat ==> old(server)@.lists_members(
                    online,
                )
                &&& (Step { room: final(server)@, phase: res.0.phase@, sends: views(res.1@) })
                    == #[trigger] Step::of(
                    old(server)@,
                    client.id,
                    client.phase@,
                    line_view(line),
                    online,
                    now@,
                )
            },
{
    let id: u64 = client.id;
    let ghost room = server@;
    let ghost phase = client.phase@;
    let ghost at = now@;
    let ghost read = line_view(line);
    let mut sends: Vec<String> = Vec::new();
    assert(views(sends@) =~= seq![]);
    let ghost mut online: Seq<Seq<char>> = seq![];
    let res = match client.phase {
        Phase::Keys(mine) => {
            match line {
                Some(l) => {
                    match perform_key_exchange(mine, l) {
                        Ok(secret) => {
                            sends.push(hello(server.host_name.as_str()));
                            assert(views(sends@) =~= seq![hello_text(room.host_name)]);
                            (
                                Connection { id, phase: Phase::Name(CryptoSession::new(secret)) },
                                sends,
                            )
                        },
                        Err(_) => closed(id, sends),
                    }
                },
                None => closed(id, sends),
            }
        },
        Phase::Name(session) => {
            match text_in(&session, line) {
                Some(text) => {
                    let name = read_hello(text.as_str());
                    match server.welcome(id, name.as_str()) {
                        Some(list) => {
                            proof {
                                online = choose|online: Seq<Seq<char>>| #[trigger]
                                    room.lists_members(online) && list@ == room_text(online);
                            }
                            sends.push(list);
                            assert(views(sends@) =~= seq![room_text(online)]);
                            (Connection { id, phase: Phase::Chat(session, name) }, sends)
                        },
                        None => closed(id, sends),
                    }
                },
                None => closed(id, sends),
            }
        },
        Phase::Chat(session, name) => {
            match text_in(&session, line) {
                Some(text) => {
                    if is_quit(text.as_str()) {
                        let rest = server.part(id, name.as_str());
                        closed(id, rest)
                    } else {
                        server.relay_at(id, name.as_str(), text.as_str(), now);
                        (Connection { id, phase: Phase::Chat(session, name) }, sends)
                    }
                },
                None => {
                    let rest = server.part(id, name.as_str());
                    closed(id, rest)
                },
            }
        },
        Phase::Closed => closed(id, sends),
    };
    assert((Step { room: server@, phase: res.0.phase@, sends: views(res.1@) }) == Step::of(
        room,
        id,
        phase,
        read,
        online,
        at,
    ));
    res
}

/// One turn of a client's handler: what comes of a line that has just been read,
/// or of the failure to read one. An empty line is the end of the stream. Returns
/// the connection and the texts that go to the client.
pub fn handle_client(client: Connection, server: &mut ServerState, line: Option<&str>) -> (res: (
    Connection,
    Vec<String>,
))
    ensures
        res.0.id == client.id,
        old(server)@.sound() && 0 < client.id < old(server)@.next_id ==> final(server)@.sound(),
        exists|online: Seq<Seq<char>>, now: Seq<char>|
            {
                &&& is_time_of_day(now)
                &&& client.phase@ is Name && res.0.phase@ is Chat ==> old(server)@.lists_members(
                    online,
                )
                &&& (Step { room: final(server)@, phase: res.0.phase@, sends: views(res.1@) })
                    == #[trigger] Step::of(
                    old(server)@,
                    client.id,
                    client.phase@,
                    line_view(line),
                    online,
                    now,
                )
            },
{
    let now = time_of_day();
    handle_client_at(client, server, line, now)
}

// ---------------------------------------------------------------------------
// Laws
// ---------------------------------------------------------------------------

impl RoomView {
    /// The room after `n` numbers were given out.
    pub open spec fn numbered_times(self, n: nat) -> RoomView
        decreases n,
    {
        if n == 0 {
            self
        } else {
            self.numbered_times((n - 1) as nat).numbered()
        }
    }
}

/// A text that is sent to all clients but one is queued once, behind everything
/// else, for each of the others; nothing else changes.
pub proof fn told_reaches_the_others(room: RoomView, exclude_id: u64, text: Seq<char>, id: u64)
    requires
        room.clients.contains_key(id),
    ensures
        room.told(exclude_id, text).clients.dom() == room.clients.dom(),
        room.told(exclude_id, text).clients[id] == if id == exclude_id {
            room.clients[id]
        } else {
            room.clients[id].with(text)
        },
        room.told(exclude_id, text).events == room.events,
        room.told(exclude_id, text).next_id == room.next_id,
        room.told(exclude_id, text).host_name == room.host_name,
{
    assert(room.told(exclude_id, text).clients.dom() =~= room.clients.dom());
}

/// A text that is sent with `u64::MAX` in place of a number is queued for every
/// client.
pub proof fn everyone_is_told(room: RoomView, text: Seq<char>, id: u64)
    requires
        room.sound(),
        room.clients.contains_key(id),
    ensures
        room.told(u64::MAX, text).clients[id] == room.clients[id].with(text),
{
}

/// A text that is sent with `u64::MAX` in place of a number is queued once for
/// every client, where the clients' numbers are among the first that the room
/// gave out, fewer than `u64::MAX` of them.
pub proof fn everyone_with_a_number_is_told(
    room: RoomView,
    host_name: Seq<char>,
    calls: nat,
    text: Seq<char>,
)
    requires
        calls < u64::MAX,
        forall|id: u64| #[trigger]
            room.clients.contains_key(id) ==> exists|i: nat|
                i < calls && id == (#[trigger] RoomView::opened(host_name).numbered_times(
                    i,
                )).next_id,
    ensures
        room.told(u64::MAX, text).clients.dom() == room.clients.dom(),
        forall|id: u64| #[trigger]
            room.clients.contains_key(id) ==> room.told(u64::MAX, text).clients[id]
                == room.clients[id].with(text),
{
    assert(room.told(u64::MAX, text).clients.dom() =~= room.clients.dom());
    assert forall|id: u64| #[trigger] room.clients.contains_key(id) implies id != u64::MAX by {
        let i = choose|i: nat|
            i < calls && id == (#[trigger] RoomView::opened(host_name).numbered_times(i)).next_id;
        number_after(RoomView::opened(host_name), i);
    }
}

/// A room starts sound, and whatever happens in it keeps it so.
pub proof fn room_stays_sound(
    room: RoomView,
    id: u64,
    name: Seq<char>,
    text: Seq<char>,
    now: Seq<char>,
)
    requires
        room.sound(),
    ensures
        RoomView::opened(name).sound(),
        0 < room.next_id < u64::MAX ==> room.numbered().sound(),
        0 < id < room.next_id ==> room.admitted(id, name).sound(),
        room.relayed(id, name, text, now).sound(),
        room.parted(id, name).sound(),
        room.addressed(text).sound(),
        room.emptied(id).sound(),
{
}

/// The next number belongs to no client.
pub proof fn next_number_is_free(room: RoomView)
    requires
        room.sound(),
    ensures
        !room.clients.contains_key(room.next_id),
{
}

/// The number that follows `n` others.
proof fn number_after(room: RoomView, n: nat)
    ensures
        room.numbered_times(n).next_id == (room.next_id + n) % 0x1_0000_0000_0000_0000,
    decreases n,
{
    if n > 0 {
        number_after(room, (n - 1) as nat);
    }
}

/// No two connections among 2^64 in a row have the same number.
pub proof fn numbers_differ(room: RoomView, i: nat, j: nat)
    requires
        i < j < i + 0x1_0000_0000_0000_0000,
    ensures
        room.numbered_times(i).next_id != room.numbered_times(j).next_id,
{
    number_after(room, i);
    number_after(room, j);
}

/// After a client has come and gone, the others are in the room as before and
/// have been told of both, and so has the host.
pub proof fn coming_and_going(room: RoomView, id: u64, name: Seq<char>)
    requires
        room.sound(),
        !room.clients.contains_key(id),
    ensures
        room.admitted(id, name).parted(id, name).clients.dom() == room.clients.dom(),
        forall|other: u64| #[trigger]
            room.clients.contains_key(other) ==> room.admitted(id, name).parted(
                id,
                name,
            ).clients[other] == room.clients[other].with(joined_text(name)).with(left_text(name)),
        room.admitted(id, name).parted(id, name).events == room.events.push(
            EventView::UserJoined(name),
        ).push(EventView::UserLeft(name)),
        room.admitted(id, name).parted(id, name).next_id == room.next_id,
        room.admitted(id, name).parted(id, name).host_name == room.host_name,
{
    assert(room.admitted(id, name).parted(id, name).clients.dom() =~= room.clients.dom());
}

/// What a client writes arrives at every other client under the client's name,
/// whatever the text, where the name holds no `|`. It does not come back.
pub proof fn relayed_message_arrives(
    room: RoomView,
    id: u64,
    name: Seq<char>,
    text: Seq<char>,
    now: Seq<char>,
    other: u64,
    then: Seq<char>,
)
    requires
        room.clients.contains_key(other),
        !name.contains('|'),
    ensures
        other != id ==> room.relayed(id, name, text, now).queue_of(other) == room.queue_of(
            other,
        ).push(msg_text(name, text)),
        other != id ==> parsed(
            room.relayed(id, name, text, now).queue_of(other).last(),
            then,
        ) == Some(EventView::Message(MessageView::other(name, text, then))),
        other == id ==> room.relayed(id, name, text, now).queue_of(id) == room.queue_of(id),
{
    message_round_trip(name, text, then);
}

/// What the host writes arrives at every client under the host's name, where the
/// name holds no `|`; when the host quits, they learn that the host has left.
pub proof fn host_message_arrives(room: RoomView, text: Seq<char>, id: u64, then: Seq<char>)
    requires
        room.sound(),
        room.clients.contains_key(id),
        !room.host_name.contains('|'),
    ensures
        room.addressed(text).queue_of(id).drop_last() == room.queue_of(id),
        parsed(room.addressed(text).queue_of(id).last(), then) == Some(
            if text == quit_text() {
                EventView::UserLeft(room.host_name)
            } else {
                EventView::Message(MessageView::other(room.host_name, text, then))
            },
        ),
{
    message_round_trip(room.host_name, text, then);
    left_round_trip(room.host_name, then);
    assert(room.addressed(text).queue_of(id).drop_last() =~= room.queue_of(id));
}

/// Every other client learns who has come and who has gone, where the name holds
/// no `|`.
pub proof fn members_hear_of_each_other(
    room: RoomView,
    id: u64,
    name: Seq<char>,
    other: u64,
    then: Seq<char>,
)
    requires
        room.sound(),
        room.clients.contains_key(other),
        other != id,
        !name.contains('|'),
    ensures
        parsed(room.admitted(id, name).queue_of(other).last(), then) == Some(
            EventView::UserJoined(name),
        ),
        parsed(room.parted(id, name).queue_of(other).last(), then) == Some(
            EventView::UserLeft(name),
        ),
{
    joined_round_trip(name, then);
    left_round_trip(name, then);
}

/// A client who quits leaves the room as one does whose connection breaks.
pub proof fn quitting_is_leaving(
    room: RoomView,
    id: u64,
    key: Seq<u8>,
    name: Seq<char>,
    line: Option<Seq<char>>,
    online: Seq<Seq<char>>,
    now: Seq<char>,
)
    requires
        text_read(key, line) == Some(quit_text()),
    ensures
        Step::of(room, id, PhaseView::Chat(key, name), line, online, now) == Step::of(
            room,
            id,
            PhaseView::Chat(key, name),
            None,
            online,
            now,
        ),
{
}

/// Nobody is in the room, and nobody hears anything, before a name has been
/// given.
pub proof fn no_entry_without_a_name(
    room: RoomView,
    id: u64,
    phase: PhaseView,
    line: Option<Seq<char>>,
    online: Seq<Seq<char>>,
    now: Seq<char>,
)
    requires
        phase !is Chat,
        Step::of(room, id, phase, line, online, now).phase !is Chat,
    ensures
        Step::of(room, id, phase, line, online, now).room == room,
{
}

/// The names of some clients hold as often a name as the names of the same
/// clients in another order.
proof fn names_in_any_order(room: RoomView, a: Seq<u64>, b: Seq<u64>)
    requires
        a.no_duplicates(),
        b.no_duplicates(),
        a.to_set() == b.to_set(),
    ensures
        a.map_values(|id: u64| room.clients[id].name).to_multiset() == b.map_values(
            |id: u64| room.clients[id].name,
        ).to_multiset(),
    decreases a.len(),
{
    let f = |id: u64| room.clients[id].name;
    if a.len() == 0 {
        if b.len() > 0 {
            assert(b.to_set().contains(b[0]));
            assert(a.to_set().contains(b[0]));
        }
        assert(a.map_values(f) =~= b.map_values(f));
    } else {
        let last = a.last();
        assert(a.to_set().contains(last));
        assert(b.to_set().contains(last));
        let k = choose|k: int| 0 <= k < b.len() && b[k] == last;
        let shorter = a.drop_last();
        let rest = b.remove(k);
        assert forall|id: u64| shorter.to_set().contains(id) <==> rest.to_set().contains(id) by {
            if shorter.contains(id) {
                let i = choose|i: int| 0 <= i < shorter.len() && shorter[i] == id;
                assert(a[i] == id);
                assert(a.to_set().contains(id));
                assert(b.to_set().contains(id));
                let j = choose|j: int| 0 <= j < b.len() && b[j] == id;
                assert(j != k);
                if j < k {
                    assert(rest[j] == id);
                } else {
                    assert(rest[j - 1] == id);
                }
            }
            if rest.contains(id) {
                let j = choose|j: int| 0 <= j < rest.len() && rest[j] == id;
                if j < k {
                    assert(b[j] == id);
                } else {
                    assert(b[j + 1] == id);
                }
                assert(b.to_set().contains(id));
                assert(a.to_set().contains(id));
                let i = choose|i: int| 0 <= i < a.len() && a[i] == id;
                assert(id != last);
                assert(shorter[i] == id);
            }
        }
        assert(shorter.to_set() =~= rest.to_set());
        assert(rest.no_duplicates());
        names_in_any_order(room, shorter, rest);
        assert(a.map_values(f) =~= shorter.map_values(f).push(f(last)));
        assert(b.map_values(f).remove(k) =~= rest.map_values(f));
        to_multiset_build(shorter.map_values(f), f(last));
        to_multiset_remove(b.map_values(f), k);
        to_multiset_contains(b.map_values(f), f(last));
        assert(b.map_values(f)[k] == f(last));
        assert(b.map_values(f).to_multiset() =~= rest.map_values(f).to_multiset().insert(f(last)));
    }
}

/// There is one list of the members of a room.
pub proof fn member_list_is_unique(room: RoomView, a: Seq<Seq<char>>, b: Seq<Seq<char>>)
    requires
        room.lists_members(a),
        room.lists_members(b),
    ensures
        a == b,
{
    let m = choose|ids: Seq<u64>|
        ids.no_duplicates() && ids.to_set() == room.clients.dom() && ordering_of(
            a,
            #[trigger] room.names_of(ids),
        );
    let n = choose|ids: Seq<u64>|
        ids.no_duplicates() && ids.to_set() == room.clients.dom() && ordering_of(
            b,
            #[trigger] room.names_of(ids),
        );
    names_in_any_order(room, m, n);
    let f = |id: u64| room.clients[id].name;
    to_multiset_build(m.map_values(f), room.host_name);
    to_multiset_build(n.map_values(f), room.host_name);
    order_is_unique(a, b);
}

/// The list of the members holds the host's name and the clients' names, and no
/// other.
pub proof fn member_list_is_complete(room: RoomView, online: Seq<Seq<char>>, name: Seq<char>)
    requires
        room.lists_members(online),
    ensures
        online.contains(name) <==> name == room.host_name || exists|id: u64| #[trigger]
            room.clients.contains_key(id) && room.clients[id].name == name,
{
    let ids = choose|ids: Seq<u64>|
        ids.no_duplicates() && ids.to_set() == room.clients.dom() && ordering_of(
            online,
            #[trigger] room.names_of(ids),
        );
    let names = room.names_of(ids);
    to_multiset_contains(online, name);
    to_multiset_contains(names, name);
    if names.contains(name) {
        let i = choose|i: int| 0 <= i < names.len() && names[i] == name;
        if i < ids.len() {
            assert(ids.to_set().contains(ids[i]));
            assert(room.clients.contains_key(ids[i]) && room.clients[ids[i]].name == name);
        }
    }
    if name == room.host_name {
        assert(names[ids.len() as int] == name);
    }
    if exists|id: u64| #[trigger] room.clients.contains_key(id) && room.clients[id].name == name {
        let id = choose|id: u64| #[trigger]
            room.clients.contains_key(id) && room.clients[id].name == name;
        assert(ids.to_set().contains(id));
        let i = choose|i: int| 0 <= i < ids.len() && ids[i] == id;
        assert(names[i] == name);
    }
}

/// A newcomer reads the list of the members as it was written, where no name in
/// it holds a `|`.
pub proof fn member_list_arrives(room: RoomView, online: Seq<Seq<char>>, now: Seq<char>)
    requires
        room.lists_members(online),
        forall|i: int| 0 <= i < online.len() ==> !(#[trigger] online[i]).contains('|'),
    ensures
        room_names(room_text(online)) == online,
        parsed(room_text(online), now) == Some(EventView::RoomInfo(online)),
{
    member_list_is_complete(room, online, room.host_name);
    room_round_trip(online, now);
}

/// A client, a phase, a line and lists of them are seen with each of their parts
/// as they are.
pub proof fn connection_parts(
    client: ClientHandle,
    clients: Map<u64, ClientHandle>,
    id: u64,
    events: Seq<AppEvent>,
    i: int,
    mine: KeyExchange,
    session: CryptoSession,
    name: String,
    line: &str,
)
    ensures
        client@.name == client.name@,
        client@.queue == views(client.queue@),
        client_views(clients).dom() == clients.dom(),
        clients.contains_key(id) ==> client_views(clients)[id] == clients[id]@,
        event_views(events).len() == events.len(),
        0 <= i < events.len() ==> event_views(events)[i] == events[i]@,
        Phase::Keys(mine)@ == PhaseView::Keys(mine),
        Phase::Name(session)@ == PhaseView::Name(session@),
        Phase::Chat(session, name)@ == PhaseView::Chat(session@, name@),
        Phase::Closed@ == PhaseView::Closed,
        line_view(Some(line)) == Some(line@),
        line_view(None) is None,
{
    assert(client_views(clients).dom() =~= clients.dom());
}

/// A room opens empty, and its first number is 1.
pub proof fn room_opens(host_name: Seq<char>)
    ensures
        RoomView::opened(host_name).clients.dom() == Set::<u64>::empty(),
        RoomView::opened(host_name).next_id == 1,
        RoomView::opened(host_name).events.len() == 0,
        RoomView::opened(host_name).host_name == host_name,
{
    assert(RoomView::opened(host_name).clients.dom() =~= Set::<u64>::empty());
}

/// Giving out a number changes the next one and nothing else.
pub proof fn numbering_changes_the_number(room: RoomView)
    ensures
        room.next_id < u64::MAX ==> room.numbered().next_id == room.next_id + 1,
        room.next_id == u64::MAX ==> room.numbered().next_id == 0,
        room.numbered().clients == room.clients,
        room.numbered().events == room.events,
        room.numbered().host_name == room.host_name,
{
}

/// A queued text is the last in the queue, whole, behind all that waited before.
pub proof fn queued_text_is_last(client: ClientView, text: Seq<char>)
    ensures
        client.with(text).queue == client.queue + seq![text],
        client.with(text).name == client.name,
{
    assert(client.with(text).queue =~= client.queue + seq![text]);
}

/// The host's window learns of an event after all those before it, and nobody
/// else does.
pub proof fn event_is_last(room: RoomView, event: EventView)
    ensures
        room.notified(event).events == room.events + seq![event],
        room.notified(event).clients == room.clients,
        room.notified(event).next_id == room.next_id,
        room.notified(event).host_name == room.host_name,
{
    assert(room.notified(event).events =~= room.events + seq![event]);
}

/// A client who has come in is in the room under its number with its whole name
/// and nothing queued. Everybody else stays, with the same name, and has the
/// announcement behind all that was queued; so has the host.
pub proof fn client_comes_in(room: RoomView, id: u64, name: Seq<char>, other: u64)
    ensures
        room.admitted(id, name).clients.dom() == room.clients.dom().insert(id),
        room.admitted(id, name).clients[id] == (ClientView { name, queue: Seq::empty() }),
        room.clients.contains_key(other) && other != id ==> room.admitted(id, name).clients[other]
            == (ClientView {
            name: room.clients[other].name,
            queue: room.clients[other].queue + seq![seq!['J', 'O', 'I', 'N', '|'] + name],
        }),
        room.admitted(id, name).events == room.events + seq![EventView::UserJoined(name)],
        room.admitted(id, name).next_id == room.next_id,
        room.admitted(id, name).host_name == room.host_name,
{
    texts_hold_what_they_carry(name, seq![], seq![]);
    assert(room.admitted(id, name).clients.dom() =~= room.clients.dom().insert(id));
    assert(room.admitted(id, name).events =~= room.events + seq![EventView::UserJoined(name)]);
    if room.clients.contains_key(other) && other != id {
        assert(room.admitted(id, name).clients[other].queue =~= room.clients[other].queue + seq![
            seq!['J', 'O', 'I', 'N', '|'] + name,
        ]);
    }
}

/// After a client has come in, every list of the members holds its name.
pub proof fn newcomer_is_listed(room: RoomView, id: u64, name: Seq<char>, online: Seq<Seq<char>>)
    requires
        room.admitted(id, name).lists_members(online),
    ensures
        online.contains(name),
{
    client_comes_in(room, id, name, id);
    assert(room.admitted(id, name).clients.contains_key(id));
    member_list_is_complete(room.admitted(id, name), online, name);
}

/// What a client writes is queued whole under its name for everybody else, and
/// the host's window gets it as one message: the name, the whole text and the
/// time. Nobody comes or goes by it.
pub proof fn text_is_passed_on(
    room: RoomView,
    id: u64,
    name: Seq<char>,
    text: Seq<char>,
    now: Seq<char>,
    other: u64,
)
    ensures
        room.relayed(id, name, text, now).events == room.events + seq![
            EventView::Message(
                MessageView {
                    timestamp: now,
                    sender: name,
                    content: text,
                    is_own: false,
                    is_system: false,
                },
            ),
        ],
        room.relayed(id, name, text, now).clients.dom() == room.clients.dom(),
        room.clients.contains_key(other) && other != id ==> room.relayed(
            id,
            name,
            text,
            now,
        ).clients[other] == (ClientView {
            name: room.clients[other].name,
            queue: room.clients[other].queue + seq![
                seq!['M', 'S', 'G', '|'] + name + seq!['|'] + text,
            ],
        }),
        room.clients.contains_key(id) ==> room.relayed(id, name, text, now).clients[id]
            == room.clients[id],
        room.relayed(id, name, text, now).next_id == room.next_id,
        room.relayed(id, name, text, now).host_name == room.host_name,
{
    texts_hold_what_they_carry(name, text, seq![]);
    let after = room.relayed(id, name, text, now);
    assert(after.clients.dom() =~= room.clients.dom());
    assert(after.events =~= room.events + seq![
        EventView::Message(
            MessageView {
                timestamp: now,
                sender: name,
                content: text,
                is_own: false,
                is_system: false,
            },
        ),
    ]);
    if room.clients.contains_key(other) && other != id {
        assert(after.clients[other].queue =~= room.clients[other].queue + seq![
            seq!['M', 'S', 'G', '|'] + name + seq!['|'] + text,
        ]);
    }
}

/// The host's window and every other client get the same text from a client.
pub proof fn host_sees_what_clients_see(
    room: RoomView,
    id: u64,
    name: Seq<char>,
    text: Seq<char>,
    now: Seq<char>,
    other: u64,
)
    requires
        room.clients.contains_key(other),
        other != id,
        !name.contains('|'),
    ensures
        parsed(room.relayed(id, name, text, now).queue_of(other).last(), now) == Some(
            room.relayed(id, name, text, now).events.last(),
        ),
{
    text_is_passed_on(room, id, name, text, now, other);
    message_round_trip(name, text, now);
    texts_hold_what_they_carry(name, text, seq![]);
    assert(room.relayed(id, name, text, now).queue_of(other).last() == msg_text(name, text));
}

/// A client who has gone is in the room no more. Everybody else stays, with the
/// same name, and has the announcement behind all that was queued; so has the
/// host.
pub proof fn client_goes(room: RoomView, id: u64, name: Seq<char>, other: u64)
    requires
        other != u64::MAX,
    ensures
        room.parted(id, name).clients.dom() == room.clients.dom().remove(id),
        room.clients.contains_key(other) && other != id ==> room.parted(id, name).clients[other]
            == (ClientView {
            name: room.clients[other].name,
            queue: room.clients[other].queue + seq![seq!['L', 'E', 'A', 'V', 'E', '|'] + name],
        }),
        room.parted(id, name).events == room.events + seq![EventView::UserLeft(name)],
        room.parted(id, name).next_id == room.next_id,
        room.parted(id, name).host_name == room.host_name,
{
    texts_hold_what_they_carry(name, seq![], seq![]);
    assert(room.parted(id, name).clients.dom() =~= room.clients.dom().remove(id));
    assert(room.parted(id, name).events =~= room.events + seq![EventView::UserLeft(name)]);
    if room.clients.contains_key(other) && other != id {
        assert(room.parted(id, name).clients[other].queue =~= room.clients[other].queue + seq![
            seq!['L', 'E', 'A', 'V', 'E', '|'] + name,
        ]);
    }
}

/// What the host writes is queued whole under the host's name for everybody, or,
/// where it is `/quit`, that the host has left. Nobody comes or goes by it, and
/// the host's own window is told nothing.
pub proof fn host_speaks(room: RoomView, text: Seq<char>, id: u64)
    requires
        id != u64::MAX,
    ensures
        room.addressed(text).clients.dom() == room.clients.dom(),
        room.clients.contains_key(id) ==> room.addressed(text).clients[id] == (ClientView {
            name: room.clients[id].name,
            queue: room.clients[id].queue + seq![
                if text == "/quit"@ {
                    seq!['L', 'E', 'A', 'V', 'E', '|'] + room.host_name
                } else {
                    seq!['M', 'S', 'G', '|'] + room.host_name + seq!['|'] + text
                },
            ],
        }),
        room.addressed(text).events == room.events,
        room.addressed(text).next_id == room.next_id,
        room.addressed(text).host_name == room.host_name,
{
    texts_hold_what_they_carry(room.host_name, text, seq![]);
    assert(room.addressed(text).clients.dom() =~= room.clients.dom());
    if room.clients.contains_key(id) {
        assert(room.addressed(text).clients[id].queue =~= room.clients[id].queue + seq![
            if text == "/quit"@ {
                left_text(room.host_name)
            } else {
                msg_text(room.host_name, text)
            },
        ]);
    }
}

/// What waits for a client is its whole queue, and handing it out empties that
/// queue and changes nothing else.
pub proof fn queue_is_handed_out(room: RoomView, id: u64, other: u64)
    ensures
        room.clients.contains_key(id) ==> room.queue_of(id) == room.clients[id].queue,
        !room.clients.contains_key(id) ==> room.queue_of(id).len() == 0,
        room.emptied(id).clients.dom() == room.clients.dom(),
        room.clients.contains_key(id) ==> room.emptied(id).clients[id] == (ClientView {
            name: room.clients[id].name,
            queue: Seq::empty(),
        }),
        room.clients.contains_key(other) && other != id ==> room.emptied(id).clients[other]
            == room.clients[other],
        room.emptied(id).events == room.events,
        room.emptied(id).next_id == room.next_id,
        room.emptied(id).host_name == room.host_name,
{
    assert(room.emptied(id).clients.dom() =~= room.clients.dom());
}

/// What is queued comes out in the order in which it was queued.
pub proof fn first_queued_comes_first(
    room: RoomView,
    exclude_a: u64,
    a: Seq<char>,
    exclude_b: u64,
    b: Seq<char>,
    id: u64,
)
    requires
        room.clients.contains_key(id),
        id != exclude_a,
        id != exclude_b,
    ensures
        room.emptied(id).told(exclude_a, a).told(exclude_b, b).queue_of(id) == seq![a, b],
{
    assert(room.emptied(id).told(exclude_a, a).told(exclude_b, b).queue_of(id) =~= seq![a, b]);
}

/// The text in what was read is that of the line, and without a readable line
/// there is none.
pub proof fn text_of_what_was_read(key: Seq<u8>, line: Seq<char>)
    ensures
        text_read(key, None) is None,
        match received_text(key, line) {
            Ok(text) => text_read(key, Some(line)) == Some(text),
            Err(_) => text_read(key, Some(line)) is None,
        },
{
}

/// A key exchange that succeeds is followed by the host's introduction, with the
/// whole name; one that fails ends the connection. The room does not change.
pub proof fn key_phase(
    room: RoomView,
    id: u64,
    mine: KeyExchange,
    line: Option<Seq<char>>,
    online: Seq<Seq<char>>,
    now: Seq<char>,
)
    ensures
        ({
            let step = Step::of(room, id, PhaseView::Keys(mine), line, online, now);
            &&& step.room == room
            &&& match line {
                Some(l) => match exchanged(mine, l) {
                    Ok(key) => step.phase == PhaseView::Name(key) && step.sends == seq![
                        seq!['H', 'E', 'L', 'L', 'O', ':'] + room.host_name,
                    ],
                    Err(_) => step.phase == PhaseView::Closed && step.sends.len() == 0,
                },
                None => step.phase == PhaseView::Closed && step.sends.len() == 0,
            }
        }),
{
    texts_hold_what_they_carry(room.host_name, seq![], seq![]);
}

/// A name brings its bearer into the room and earns the list of those who were
/// there; without a name, or without anything readable, the connection ends and
/// the room does not change.
pub proof fn name_phase(
    room: RoomView,
    id: u64,
    key: Seq<u8>,
    line: Option<Seq<char>>,
    online: Seq<Seq<char>>,
    now: Seq<char>,
)
    ensures
        ({
            let step = Step::of(room, id, PhaseView::Name(key), line, online, now);
            match text_read(key, line) {
                Some(text) => if hello_name(text).len() > 0 {
                    &&& step.phase == PhaseView::Chat(key, hello_name(text))
                    &&& step.room == room.admitted(id, hello_name(text))
                    &&& step.sends == seq![seq!['R', 'O', 'O', 'M', '|'] + join(online, '|')]
                } else {
                    step.phase == PhaseView::Closed && step.room == room && step.sends.len() == 0
                },
                None => step.phase == PhaseView::Closed && step.room == room && step.sends.len()
                    == 0,
            }
        }),
{
    texts_hold_what_they_carry(seq![], seq![], online);
}

/// A text of a member is passed on under the member's name and leaves the
/// connection as it is. Only `/quit` and what cannot be read end it: the member
/// goes, and what waited to be sent is sent.
pub proof fn chat_phase(
    room: RoomView,
    id: u64,
    key: Seq<u8>,
    name: Seq<char>,
    line: Option<Seq<char>>,
    online: Seq<Seq<char>>,
    now: Seq<char>,
)
    ensures
        ({
            let step = Step::of(room, id, PhaseView::Chat(key, name), line, online, now);
            match text_read(key, line) {
                Some(text) => if text != "/quit"@ {
                    &&& step.phase == PhaseView::Chat(key, name)
                    &&& step.room == room.relayed(id, name, text, now)
                    &&& step.sends.len() == 0
                } else {
                    &&& step.phase == PhaseView::Closed
                    &&& step.room == room.parted(id, name)
                    &&& step.sends == room.queue_of(id)
                },
                None => {
                    &&& step.phase == PhaseView::Closed
                    &&& step.room == room.parted(id, name)
                    &&& step.sends == room.queue_of(id)
                },
            }
        }),
{
}

/// Nothing comes of a connection that is over.
pub proof fn over_stays_over(
    room: RoomView,
    id: u64,
    line: Option<Seq<char>>,
    online: Seq<Seq<char>>,
    now: Seq<char>,
)
    ensures
        Step::of(room, id, PhaseView::Closed, line, online, now).room == room,
        Step::of(room, id, PhaseView::Closed, line, online, now).phase == PhaseView::Closed,
        Step::of(room, id, PhaseView::Closed, line, online, now).sends.len() == 0,
{
}

/// The clients that bear a name.
pub open spec fn bearers(room: RoomView, name: Seq<char>) -> Set<u64> {
    room.clients.dom().filter(|id: u64| room.clients[id].name == name)
}

/// Among different clients a name stands as often as it is borne.
proof fn names_by_bearer(room: RoomView, ids: Seq<u64>, name: Seq<char>)
    requires
        ids.no_duplicates(),
    ensures
        ids.to_set().finite(),
        ids.map_values(|id: u64| room.clients[id].name).to_multiset().count(name)
            == ids.to_set().filter(|id: u64| room.clients[id].name == name).len(),
    decreases ids.len(),
{
    let f = |id: u64| room.clients[id].name;
    let p = |id: u64| room.clients[id].name == name;
    seq_to_set_is_finite(ids);
    if ids.len() == 0 {
        assert(ids.map_values(f) =~= seq![]);
        ids.map_values(f).to_multiset_ensures();
        assert(ids.to_set().filter(p) =~= Set::<u64>::empty());
    } else {
        let last = ids.last();
        let shorter = ids.drop_last();
        names_by_bearer(room, shorter, name);
        assert(ids.map_values(f) =~= shorter.map_values(f).push(f(last)));
        to_multiset_build(shorter.map_values(f), f(last));
        assert(ids =~= shorter.push(last));
        assert(ids.to_set() =~= shorter.to_set().insert(last)) by {
            assert forall|id: u64| ids.to_set().contains(id) <==> shorter.to_set().insert(
                last,
            ).contains(id) by {
                if ids.contains(id) && id != last {
                    let i = choose|i: int| 0 <= i < ids.len() && ids[i] == id;
                    assert(shorter[i] == id);
                }
                if shorter.contains(id) {
                    let i = choose|i: int| 0 <= i < shorter.len() && shorter[i] == id;
                    assert(ids[i] == id);
                }
                assert(ids[ids.len() - 1] == last);
            }
        }
        assert(!shorter.to_set().contains(last)) by {
            if shorter.contains(last) {
                let i = choose|i: int| 0 <= i < shorter.len() && shorter[i] == last;
                assert(ids[i] == ids[ids.len() - 1]);
            }
        }
        seq_to_set_is_finite(shorter);
        if p(last) {
            assert(ids.to_set().filter(p) =~= shorter.to_set().filter(p).insert(last));
        } else {
            assert(ids.to_set().filter(p) =~= shorter.to_set().filter(p));
        }
    }
}

/// The list of the members holds each name once for every client that bears it,
/// and the host's once more; it is as long as there are clients, and one. The
/// names stand in order.
pub proof fn member_list_counts_everybody(
    room: RoomView,
    online: Seq<Seq<char>>,
    name: Seq<char>,
    i: int,
    j: int,
)
    requires
        room.lists_members(online),
    ensures
        online.to_multiset().count(name) == bearers(room, name).len() + if name == room.host_name {
            1int
        } else {
            0
        },
        online.len() == room.clients.dom().len() + 1,
        0 <= i < j < online.len() ==> lex_le(online[i], online[j]),
{
    let ids = choose|ids: Seq<u64>|
        ids.no_duplicates() && ids.to_set() == room.clients.dom() && ordering_of(
            online,
            #[trigger] room.names_of(ids),
        );
    let f = |id: u64| room.clients[id].name;
    names_by_bearer(room, ids, name);
    to_multiset_build(ids.map_values(f), room.host_name);
    ids.unique_seq_to_set();
    to_multiset_len(online);
    to_multiset_len(room.names_of(ids));
}

/// A room is sound exactly where each client's number is positive and below the
/// next one.
pub proof fn sound_rooms(room: RoomView)
    ensures
        room.sound() <==> forall|id: u64| #[trigger]
            room.clients.dom().contains(id) ==> 0 < id && id < room.next_id,
{
    assert(forall|id: u64|
        #[trigger] room.clients.contains_key(id) <==> room.clients.dom().contains(id));
}

} // verus!
