//! A client's side of a connection: the key exchange, the introductions, the list
//! of members, and then the messages.
use vstd::prelude::*;

use crate::clock::{is_time_of_day, time_of_day};
use crate::crypto::{
    begin_key_exchange, both_sides_agree, exchanged, perform_key_exchange, received_text,
    CryptoSession, KeyExchange, RecvErrorView,
};
use crate::event::{AppEvent, EventView, MessageView};
use crate::protocol::{
    any_list_is_read, first_list_is_complete, hello, hello_name, hello_round_trip, hello_text,
    initial_users, is_quit, joined_round_trip, left_round_trip, message_round_trip, msg_text,
    ordering_of, parse_server_msg_at, parsed, quit_text, read_hello, room_names, room_text,
    texts_hold_what_they_carry, with_name,
};
use crate::server::{
    member_list_arrives, relayed_message_arrives, text_read, PhaseView, RoomView, Step,
};
use crate::text::{lex_le, split, trimmed, views};
use crate::ui::AppView;

verus! {

/// How far a session has come.
pub enum Stage {
    /// The server's public key is awaited.
    Keys(KeyExchange),
    /// The host's name is awaited.
    Hello(CryptoSession),
    /// The list of members is awaited; the host has this name.
    Room(CryptoSession, String),
    /// Messages come; the host has this name.
    Chat(CryptoSession, String),
    /// The session is over.
    Closed,
}

/// The contents of a `Stage`.
pub enum StageView {
    Keys(KeyExchange),
    Hello(Seq<u8>),
    Room(Seq<u8>, Seq<char>),
    Chat(Seq<u8>, Seq<char>),
    Closed,
}

impl View for Stage {
    type V = StageView;

    open spec fn view(&self) -> StageView {
        match *self {
            Stage::Keys(mine) => StageView::Keys(mine),
            Stage::Hello(session) => StageView::Hello(session@),
            Stage::Room(session, host) => StageView::Room(session@, host@),
            Stage::Chat(session, host) => StageView::Chat(session@, host@),
            Stage::Closed => StageView::Closed,
        }
    }
}

/// What a session asks of the caller.
pub enum Outcome {
    /// Nothing.
    Wait,
    /// Send the text to the server.
    Say(String),
    /// Tell the window.
    Tell(AppEvent),
    /// Give up, and show why.
    Fail(String),
}

/// The contents of an `Outcome`.
pub enum OutcomeView {
    Wait,
    Say(Seq<char>),
    Tell(EventView),
    Fail(Seq<char>),
}

impl View for Outcome {
    type V = OutcomeView;

    open spec fn view(&self) -> OutcomeView {
        match *self {
            Outcome::Wait => OutcomeView::Wait,
            Outcome::Say(text) => OutcomeView::Say(text@),
            Outcome::Tell(event) => OutcomeView::Tell(event@),
            Outcome::Fail(reason) => OutcomeView::Fail(reason@),
        }
    }
}

/// A client's side of a connection.
pub struct Session {
    pub my_name: String,
    pub stage: Stage,
}

/// The contents of what was read: a line, or the reason why there is none.
pub open spec fn read_view(read: Result<&str, &str>) -> Result<Seq<char>, Seq<char>> {
    match read {
        Ok(line) => Ok(line@),
        Err(reason) => Err(reason@),
    }
}

/// The text in what was read, or the reason why there is none.
pub open spec fn heard(key: Seq<u8>, read: Result<Seq<char>, Seq<char>>) -> Result<
    Seq<char>,
    Seq<char>,
> {
    match read {
        Ok(line) => match received_text(key, line) {
            Ok(text) => Ok(text),
            Err(e) => Err(e.text()),
        },
        Err(reason) => Err(reason),
    }
}

/// The names that the server has listed, where it has.
pub open spec fn listed(reply: Result<Seq<char>, Seq<char>>) -> Seq<Seq<char>> {
    match reply {
        Ok(text) => room_names(text),
        Err(_) => seq![],
    }
}

/// Where a session stands after a turn, and what it asks of the caller.
pub struct Turn {
    pub stage: StageView,
    pub outcome: OutcomeView,
}

impl Turn {
    /// The session is over for the given reason.
    pub open spec fn failed(what: Seq<char>, reason: Seq<char>) -> Turn {
        Turn { stage: StageView::Closed, outcome: OutcomeView::Fail(what + reason) }
    }

    /// The session is over, and the window learns of it.
    pub open spec fn ended(event: EventView) -> Turn {
        Turn { stage: StageView::Closed, outcome: OutcomeView::Tell(event) }
    }

    /// What comes of a line from the server, or of the failure to read one.
    /// `users` is what the window shows as the first list of members.
    pub open spec fn of(
        my_name: Seq<char>,
        stage: StageView,
        read: Result<Seq<char>, Seq<char>>,
        users: Seq<Seq<char>>,
        now: Seq<char>,
    ) -> Turn {
        match stage {
            StageView::Keys(mine) => match read {
                Ok(line) => match exchanged(mine, line) {
                    Ok(key) => Turn {
                        stage: StageView::Hello(key),
                        outcome: OutcomeView::Say(hello_text(my_name)),
                    },
                    Err(e) => Turn::failed("Key exchange failed: "@, e.text()),
                },
                Err(reason) => Turn::failed("Key exchange failed: "@, reason),
            },
            StageView::Hello(key) => match heard(key, read) {
                Ok(text) => Turn {
                    stage: StageView::Room(key, hello_name(text)),
                    outcome: OutcomeView::Wait,
                },
                Err(reason) => Turn::failed("Name exchange failed: "@, reason),
            },
            StageView::Room(key, host) => Turn {
                stage: StageView::Chat(key, host),
                outcome: OutcomeView::Tell(EventView::RoomInfo(users)),
            },
            StageView::Chat(key, host) => match heard(key, read) {
                Ok(text) => if text == quit_text() {
                    Turn::ended(EventView::PeerLeft)
                } else {
                    Turn {
                        stage,
                        outcome: match parsed(text, now) {
                            Some(event) => OutcomeView::Tell(event),
                            None => OutcomeView::Wait,
                        },
                    }
                },
                Err(_) => Turn::ended(EventView::ConnectionLost),
            },
            StageView::Closed => Turn { stage, outcome: OutcomeView::Wait },
        }
    }

    /// Whether `users` is what the window shows as the first list of members,
    /// where the session has come to that.
    pub open spec fn shows(
        my_name: Seq<char>,
        stage: StageView,
        read: Result<Seq<char>, Seq<char>>,
        users: Seq<Seq<char>>,
    ) -> bool {
        stage matches StageView::Room(key, _) ==> ordering_of(
            users,
            with_name(listed(heard(key, read)), my_name),
        )
    }
}

/// Two texts in a row.
fn glue(head: &str, tail: &str) -> (res: String)
    ensures
        res@ == head@ + tail@,
{
    let mut res = head.to_owned();
    res.append(tail);
    res
}

/// The text in what was read, or the reason why there is none.
fn hear(session: &CryptoSession, read: Result<&str, &str>) -> (res: Result<String, String>)
    ensures
        match (heard(session@, read_view(read)), res) {
            (Ok(text), Ok(t)) => t@ == text,
            (Err(reason), Err(r)) => r@ == reason,
            _ => false,
        },
{
    match read {
        Ok(line) => match session.recv_text(line) {
            Ok(text) => Ok(text),
            Err(e) => Err(e.message()),
        },
        Err(reason) => Err(reason.to_owned()),
    }
}

/// Opens a session. The line goes to the server.
pub fn begin_session(my_name: String) -> (res: (Session, String))
    ensures
        res.0.my_name@ == my_name@,
        res.0.stage@ matches StageView::Keys(mine) && mine.offers(res.1@),
{
    let (mine, line) = begin_key_exchange();
    (Session { my_name, stage: Stage::Keys(mine) }, line)
}

/// One turn of a session: what comes of a line that was read at the given time,
/// or of the failure to read one. An empty line is the end of the stream.
pub fn run_session_at(session: Session, read: Result<&str, &str>, now: String) -> (res: (
    Session,
    Outcome,
))
    ensures
        res.0.my_name@ == session.my_name@,
        exists|users: Seq<Seq<char>>|
            {
                &&& Turn::shows(session.my_name@, session.stage@, read_view(read), users)
                &&& (Turn { stage: res.0.stage@, outcome: res.1@ }) == #[trigger] Turn::of(
                    session.my_name@,
                    session.stage@,
                    read_view(read),
                    users,
                    now@,
                )
            },
{
    let my_name = session.my_name;
    let ghost mut users: Seq<Seq<char>> = seq![];
    let ghost before = session.stage@;
    let ghost at = now@;
    let (stage, outcome) = match session.stage {
        Stage::Keys(mine) => match read {
            Ok(line) => match perform_key_exchange(mine, line) {
                Ok(secret) => (
                    Stage::Hello(CryptoSession::new(secret)),
                    Outcome::Say(hello(my_name.as_str())),
                ),
                Err(e) => (
                    Stage::Closed,
                    Outcome::Fail(glue("Key exchange failed: ", e.message().as_str())),
                ),
            },
            Err(reason) => (Stage::Closed, Outcome::Fail(glue("Key exchange failed: ", reason))),
        },
        Stage::Hello(crypto) => match hear(&crypto, read) {
            Ok(text) => {
                let host = read_hello(text.as_str());
                (Stage::Room(crypto, host), Outcome::Wait)
            },
            Err(reason) => (
                Stage::Closed,
                Outcome::Fail(glue("Name exchange failed: ", reason.as_str())),
            ),
        },
        Stage::Room(crypto, host) => {
            let names = match hear(&crypto, read) {
                Ok(text) => initial_users(Some(text.as_str()), my_name.as_str()),
                Err(_) => initial_users(None, my_name.as_str()),
            };
            proof {
                users = views(names@);
            }
            (Stage::Chat(crypto, host), Outcome::Tell(AppEvent::RoomInfo(names)))
        },
        Stage::Chat(crypto, host) => match hear(&crypto, read) {
            Ok(text) => {
                if is_quit(text.as_str()) {
                    (Stage::Closed, Outcome::Tell(AppEvent::PeerLeft))
                } else {
                    let outcome = match parse_server_msg_at(text.as_str(), now) {
                        Some(event) => Outcome::Tell(event),
                        None => Outcome::Wait,
                    };
                    (Stage::Chat(crypto, host), outcome)
                }
            },
            Err(_) => (Stage::Closed, Outcome::Tell(AppEvent::ConnectionLost)),
        },
        Stage::Closed => (Stage::Closed, Outcome::Wait),
    };
    assert((Turn { stage: stage@, outcome: outcome@ }) == Turn::of(
        my_name@,
        before,
        read_view(read),
        users,
        at,
    ));
    (Session { my_name, stage }, outcome)
}

/// One turn of a session: what comes of a line that has just been read, or of the
/// failure to read one. An empty line is the end of the stream.
pub fn run_session(session: Session, read: Result<&str, &str>) -> (res: (Session, Outcome))
    ensures
        res.0.my_name@ == session.my_name@,
        exists|users: Seq<Seq<char>>, now: Seq<char>|
            {
                &&& is_time_of_day(now)
                &&& Turn::shows(session.my_name@, session.stage@, read_view(read), users)
                &&& (Turn { stage: res.0.stage@, outcome: res.1@ }) == #[trigger] Turn::of(
                    session.my_name@,
                    session.stage@,
                    read_view(read),
                    users,
                    now,
                )
            },
{
    run_session_at(session, read, time_of_day())
}

impl Session {
    /// What to show where a line of the handshake could not be sent.
    pub fn unsent(&self, reason: &str) -> (res: String)
        ensures
            res@ == if self.stage is Keys {
                "Key exchange failed: "@ + reason@
            } else {
                "Name exchange failed."@
            },
    {
        match self.stage {
            Stage::Keys(_) => glue("Key exchange failed: ", reason),
            _ => "Name exchange failed.".to_owned(),
        }
    }
}

/// Whether more is sent after a text that did or did not go out.
pub fn keeps_sending(text: &str, went_out: bool) -> (res: bool)
    ensures
        res == (went_out && text@ != quit_text()),
{
    went_out && !is_quit(text)
}

// ---------------------------------------------------------------------------
// Laws
// ---------------------------------------------------------------------------

/// A client and a server that read each other's first line go on with the same
/// key, and introduce themselves.
pub proof fn both_ends_have_one_key(
    client: KeyExchange,
    client_line: Seq<char>,
    my_name: Seq<char>,
    users: Seq<Seq<char>>,
    server: KeyExchange,
    server_line: Seq<char>,
    room: RoomView,
    id: u64,
    online: Seq<Seq<char>>,
    now: Seq<char>,
)
    ensures
        client.offers(client_line) && server.offers(server_line) ==> {
            let turn = Turn::of(my_name, StageView::Keys(client), Ok(server_line), users, now);
            let step = Step::of(room, id, PhaseView::Keys(server), Some(client_line), online, now);
            &&& exchanged(client, server_line) matches Ok(key)
            &&& turn.stage == StageView::Hello(key)
            &&& turn.outcome == OutcomeView::Say(hello_text(my_name))
            &&& step.phase == PhaseView::Name(key)
            &&& step.sends == seq![hello_text(room.host_name)]
            &&& step.room == room
        },
{
    both_sides_agree(client, client_line, server, server_line);
}

/// The introductions bring the client into the room under its name, and tell it
/// the host's name and who is there, where no name is empty, has white space
/// around it, begins like an introduction or holds a `|`.
pub proof fn introductions_complete(
    key: Seq<u8>,
    my_name: Seq<char>,
    room: RoomView,
    id: u64,
    online: Seq<Seq<char>>,
    hello_line: Seq<char>,
    answer_line: Seq<char>,
    list_line: Seq<char>,
    users: Seq<Seq<char>>,
    now: Seq<char>,
)
    requires
        my_name.len() > 0,
        trimmed(my_name) == my_name,
        !"HELLO:"@.is_prefix_of(my_name),
        trimmed(room.host_name) == room.host_name,
        !"HELLO:"@.is_prefix_of(room.host_name),
        room.lists_members(online),
        forall|i: int| 0 <= i < online.len() ==> !(#[trigger] online[i]).contains('|'),
        received_text(key, hello_line) == Result::<Seq<char>, RecvErrorView>::Ok(
            hello_text(my_name),
        ),
        received_text(key, answer_line) == Result::<Seq<char>, RecvErrorView>::Ok(
            hello_text(room.host_name),
        ),
        received_text(key, list_line) == Result::<Seq<char>, RecvErrorView>::Ok(
            room_text(online),
        ),
        ordering_of(users, with_name(online, my_name)),
    ensures
        Step::of(room, id, PhaseView::Name(key), Some(hello_line), online, now) == (Step {
            room: room.admitted(id, my_name),
            phase: PhaseView::Chat(key, my_name),
            sends: seq![room_text(online)],
        }),
        Turn::of(my_name, StageView::Hello(key), Ok(answer_line), users, now) == (Turn {
            stage: StageView::Room(key, room.host_name),
            outcome: OutcomeView::Wait,
        }),
        Turn::shows(my_name, StageView::Room(key, room.host_name), Ok(list_line), users),
        Turn::of(my_name, StageView::Room(key, room.host_name), Ok(list_line), users, now)
            == (Turn {
            stage: StageView::Chat(key, room.host_name),
            outcome: OutcomeView::Tell(EventView::RoomInfo(users)),
        }),
{
    hello_round_trip(my_name);
    hello_round_trip(room.host_name);
    member_list_arrives(room, online, now);
}

/// A text that a client sends is passed on as it was, unless it is `/quit`.
pub proof fn sent_text_is_relayed(
    room: RoomView,
    id: u64,
    key: Seq<u8>,
    name: Seq<char>,
    text: Seq<char>,
    line: Seq<char>,
    online: Seq<Seq<char>>,
    now: Seq<char>,
)
    requires
        received_text(key, line) == Result::<Seq<char>, RecvErrorView>::Ok(text),
        text != quit_text(),
    ensures
        Step::of(room, id, PhaseView::Chat(key, name), Some(line), online, now) == (Step {
            room: room.relayed(id, name, text, now),
            phase: PhaseView::Chat(key, name),
            sends: seq![],
        }),
{
    assert(text_read(key, Some(line)) == Some(text));
}

/// A text that one client sends becomes the latest message in the window of every
/// other, under the sender's name, where the name holds no `|` and the text is
/// not `/quit`.
pub proof fn message_reaches_every_window(
    room: RoomView,
    id: u64,
    key: Seq<u8>,
    name: Seq<char>,
    text: Seq<char>,
    line: Seq<char>,
    online: Seq<Seq<char>>,
    now: Seq<char>,
    other: u64,
    other_name: Seq<char>,
    other_key: Seq<u8>,
    other_line: Seq<char>,
    host: Seq<char>,
    users: Seq<Seq<char>>,
    then: Seq<char>,
    window: AppView,
)
    requires
        received_text(key, line) == Result::<Seq<char>, RecvErrorView>::Ok(text),
        text != quit_text(),
        !name.contains('|'),
        room.clients.contains_key(other),
        other != id,
        received_text(other_key, other_line) == Result::<Seq<char>, RecvErrorView>::Ok(
            Step::of(
                room,
                id,
                PhaseView::Chat(key, name),
                Some(line),
                online,
                now,
            ).room.queue_of(other).last(),
        ),
    ensures
        Turn::of(other_name, StageView::Chat(other_key, host), Ok(other_line), users, then)
            == (Turn {
            stage: StageView::Chat(other_key, host),
            outcome: OutcomeView::Tell(EventView::Message(MessageView::other(name, text, then))),
        }),
        window.after_event(
            EventView::Message(MessageView::other(name, text, then)),
            then,
        ).messages.last() == MessageView::other(name, text, then),
{
    sent_text_is_relayed(room, id, key, name, text, line, online, now);
    relayed_message_arrives(room, id, name, text, now, other, then);
    reveal_strlit("MSG|");
    reveal_strlit("/quit");
    assert(msg_text(name, text)[0] == 'M');
}

/// A session, what was read and what is asked are seen as they are.
pub proof fn session_parts(
    mine: KeyExchange,
    session: CryptoSession,
    host: String,
    event: AppEvent,
    text: &str,
)
    ensures
        Stage::Keys(mine)@ == StageView::Keys(mine),
        Stage::Hello(session)@ == StageView::Hello(session@),
        Stage::Room(session, host)@ == StageView::Room(session@, host@),
        Stage::Chat(session, host)@ == StageView::Chat(session@, host@),
        Stage::Closed@ == StageView::Closed,
        Outcome::Wait@ == OutcomeView::Wait,
        Outcome::Say(host)@ == OutcomeView::Say(host@),
        Outcome::Tell(event)@ == OutcomeView::Tell(event@),
        Outcome::Fail(host)@ == OutcomeView::Fail(host@),
        read_view(Ok(text)) == Result::<Seq<char>, Seq<char>>::Ok(text@),
        read_view(Err(text)) == Result::<Seq<char>, Seq<char>>::Err(text@),
{
}

/// What is heard is the text of the line, or the reason why there is none.
pub proof fn heard_or_not(key: Seq<u8>, line: Seq<char>, reason: Seq<char>)
    ensures
        heard(key, Err(reason)) == Result::<Seq<char>, Seq<char>>::Err(reason),
        match received_text(key, line) {
            Ok(text) => heard(key, Ok(line)) == Result::<Seq<char>, Seq<char>>::Ok(text),
            Err(e) => heard(key, Ok(line)) == Result::<Seq<char>, Seq<char>>::Err(e.text()),
        },
{
}

/// The key exchange leads on to the introduction under the user's whole name, or
/// ends the session with the reason.
pub proof fn key_stage(
    my_name: Seq<char>,
    mine: KeyExchange,
    read: Result<Seq<char>, Seq<char>>,
    users: Seq<Seq<char>>,
    now: Seq<char>,
)
    ensures
        match read {
            Ok(line) => match exchanged(mine, line) {
                Ok(key) => Turn::of(my_name, StageView::Keys(mine), read, users, now) == (Turn {
                    stage: StageView::Hello(key),
                    outcome: OutcomeView::Say(seq!['H', 'E', 'L', 'L', 'O', ':'] + my_name),
                }),
                Err(e) => Turn::of(my_name, StageView::Keys(mine), read, users, now) == (Turn {
                    stage: StageView::Closed,
                    outcome: OutcomeView::Fail("Key exchange failed: "@ + e.text()),
                }),
            },
            Err(reason) => Turn::of(my_name, StageView::Keys(mine), read, users, now) == (Turn {
                stage: StageView::Closed,
                outcome: OutcomeView::Fail("Key exchange failed: "@ + reason),
            }),
        },
{
    texts_hold_what_they_carry(my_name, seq![], seq![]);
}

/// The host's introduction gives the host's name, and without one the session
/// ends with the reason.
pub proof fn hello_stage(
    my_name: Seq<char>,
    key: Seq<u8>,
    read: Result<Seq<char>, Seq<char>>,
    users: Seq<Seq<char>>,
    now: Seq<char>,
)
    ensures
        match heard(key, read) {
            Ok(text) => Turn::of(my_name, StageView::Hello(key), read, users, now) == (Turn {
                stage: StageView::Room(key, hello_name(text)),
                outcome: OutcomeView::Wait,
            }),
            Err(reason) => Turn::of(my_name, StageView::Hello(key), read, users, now) == (Turn {
                stage: StageView::Closed,
                outcome: OutcomeView::Fail("Name exchange failed: "@ + reason),
            }),
        },
{
}

/// Whatever comes in place of the list of members, the session goes on to the
/// messages, and the window learns of everybody who was listed and of the user.
pub proof fn room_stage(
    my_name: Seq<char>,
    key: Seq<u8>,
    host: Seq<char>,
    read: Result<Seq<char>, Seq<char>>,
    users: Seq<Seq<char>>,
    now: Seq<char>,
    name: Seq<char>,
)
    requires
        Turn::shows(my_name, StageView::Room(key, host), read, users),
    ensures
        Turn::of(my_name, StageView::Room(key, host), read, users, now) == (Turn {
            stage: StageView::Chat(key, host),
            outcome: OutcomeView::Tell(EventView::RoomInfo(users)),
        }),
        users.contains(my_name),
        match heard(key, read) {
            Ok(text) => users.contains(name) <==> room_names(text).contains(name) || name
                == my_name,
            Err(_) => users == seq![my_name],
        },
        forall|i: int, j: int| 0 <= i < j < users.len() ==> lex_le(users[i], users[j]),
{
    let names = listed(heard(key, read));
    first_list_is_complete(users, names, my_name, name);
    first_list_is_complete(users, names, my_name, my_name);
    if heard(key, read) is Err {
        assert(users.len() == 1);
        let k = choose|k: int| 0 <= k < users.len() && users[k] == my_name;
        assert(users =~= seq![my_name]);
    }
}

/// While messages come, only `/quit` and a failure to read end the session. Any
/// other text leaves it with the same key and host.
pub proof fn chat_goes_on(
    my_name: Seq<char>,
    key: Seq<u8>,
    host: Seq<char>,
    read: Result<Seq<char>, Seq<char>>,
    users: Seq<Seq<char>>,
    now: Seq<char>,
)
    ensures
        match heard(key, read) {
            Ok(text) => if text == "/quit"@ {
                Turn::of(my_name, StageView::Chat(key, host), read, users, now) == (Turn {
                    stage: StageView::Closed,
                    outcome: OutcomeView::Tell(EventView::PeerLeft),
                })
            } else {
                Turn::of(my_name, StageView::Chat(key, host), read, users, now).stage
                    == StageView::Chat(key, host)
            },
            Err(_) => Turn::of(my_name, StageView::Chat(key, host), read, users, now) == (Turn {
                stage: StageView::Closed,
                outcome: OutcomeView::Tell(EventView::ConnectionLost),
            }),
        },
{
}

/// The window learns of every event that the server announces, with the whole
/// name or content, where the names hold no `|`; unknown texts are passed over.
pub proof fn announcements_reach_the_window(
    my_name: Seq<char>,
    key: Seq<u8>,
    host: Seq<char>,
    line: Seq<char>,
    text: Seq<char>,
    name: Seq<char>,
    content: Seq<char>,
    names: Seq<Seq<char>>,
    users: Seq<Seq<char>>,
    now: Seq<char>,
)
    requires
        received_text(key, line) == Result::<Seq<char>, RecvErrorView>::Ok(text),
    ensures
        ({
            let outcome = Turn::of(
                my_name,
                StageView::Chat(key, host),
                Ok(line),
                users,
                now,
            ).outcome;
            &&& text == "LEAVE|"@ + name && !name.contains('|') ==> outcome == OutcomeView::Tell(
                EventView::UserLeft(name),
            )
            &&& text == "JOIN|"@ + name && !name.contains('|') ==> outcome == OutcomeView::Tell(
                EventView::UserJoined(name),
            )
            &&& text == "MSG|"@ + name + "|"@ + content && !name.contains('|') ==> outcome
                == OutcomeView::Tell(
                EventView::Message(
                    MessageView {
                        timestamp: now,
                        sender: name,
                        content,
                        is_own: false,
                        is_system: false,
                    },
                ),
            )
            &&& text == "ROOM|"@ + content ==> outcome == OutcomeView::Tell(
                EventView::RoomInfo(split(content, '|')),
            )
            &&& parsed(text, now) is None && text != "/quit"@ ==> outcome == OutcomeView::Wait
        }),
{
    reveal_strlit("/quit");
    reveal_strlit("LEAVE|");
    reveal_strlit("JOIN|");
    reveal_strlit("MSG|");
    reveal_strlit("ROOM|");
    if !name.contains('|') {
        left_round_trip(name, now);
        joined_round_trip(name, now);
        message_round_trip(name, content, now);
    }
    any_list_is_read(content, now);
    assert("/quit"@[0] == '/');
    assert(("LEAVE|"@ + name)[0] == 'L');
    assert(("JOIN|"@ + name)[0] == 'J');
    assert(("MSG|"@ + name + "|"@ + content)[0] == 'M');
    assert(("ROOM|"@ + content)[0] == 'R');
}

/// A session that is over stays over and asks for nothing.
pub proof fn over_is_over(
    my_name: Seq<char>,
    read: Result<Seq<char>, Seq<char>>,
    users: Seq<Seq<char>>,
    now: Seq<char>,
)
    ensures
        Turn::of(my_name, StageView::Closed, read, users, now) == (Turn {
            stage: StageView::Closed,
            outcome: OutcomeView::Wait,
        }),
{
}

} // verus!
