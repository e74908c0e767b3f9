use localchat::crypto::{begin_key_exchange, perform_key_exchange, CryptoSession};
use localchat::event::AppEvent;
use localchat::server::{
    accept_client, handle_client, handle_client_at, run_server, Connection, Phase, ServerState,
};
use localchat::session::{
    begin_session, keeps_sending, run_session, run_session_at, Outcome, Session, Stage,
};
use localchat::ui::App;

fn now() -> String {
    "12:00:00".to_string()
}

fn server() -> ServerState {
    ServerState::new("host".to_string())
}

fn join(server: &mut ServerState, name: &str) -> u64 {
    let id = server.alloc_id();
    server.welcome(id, name);
    id
}

fn queue(server: &mut ServerState, id: u64) -> Vec<String> {
    server.take_queue(id).unwrap()
}

fn nothing() -> Vec<String> {
    Vec::new()
}

#[test]
fn numbers_count_from_one() {
    let mut server = server();
    assert_eq!(server.alloc_id(), 1);
    assert_eq!(server.alloc_id(), 2);
    assert_eq!(server.alloc_id(), 3);
    assert_eq!(server.host_name, "host");
}

#[test]
fn a_broadcast_goes_to_all_but_one() {
    let mut server = server();
    let ids: Vec<u64> = ["ann", "bob", "cy"].iter().map(|n| join(&mut server, n)).collect();
    for id in &ids {
        queue(&mut server, *id);
    }
    server.broadcast(ids[1], "one");
    server.tell_everyone("two");
    server.broadcast(77, "three");
    assert_eq!(queue(&mut server, ids[0]), ["one", "two", "three"]);
    assert_eq!(queue(&mut server, ids[1]), ["two", "three"]);
    assert_eq!(queue(&mut server, ids[2]), ["one", "two", "three"]);
    assert_eq!(queue(&mut server, ids[0]), nothing());
    server.broadcast(u64::MAX, "four");
    for id in &ids {
        assert_eq!(queue(&mut server, *id), ["four"]);
    }
    assert!(server.take_queue(77).is_none());
}

#[test]
fn members_are_listed_in_order() {
    let mut server = server();
    assert_eq!(server.online(), ["host"]);
    join(&mut server, "zoe");
    join(&mut server, "Bob");
    join(&mut server, "ann");
    join(&mut server, "ann");
    assert_eq!(server.online(), ["Bob", "ann", "ann", "host", "zoe"]);
}

#[test]
fn a_newcomer_is_announced() {
    let mut server = server();
    let ann = server.alloc_id();
    assert_eq!(server.welcome(ann, "ann"), Some("ROOM|host".to_string()));
    let bob = server.alloc_id();
    assert_eq!(server.welcome(bob, "bob"), Some("ROOM|ann|host".to_string()));
    assert_eq!(queue(&mut server, ann), ["JOIN|bob"]);
    assert_eq!(queue(&mut server, bob), nothing());
    let events = server.take_events();
    assert_eq!(events.len(), 2);
    assert!(matches!(&events[0], AppEvent::UserJoined(n) if n == "ann"));
    assert!(matches!(&events[1], AppEvent::UserJoined(n) if n == "bob"));
    assert!(server.take_events().is_empty());
    assert_eq!(server.welcome(9, ""), None);
    assert!(server.take_queue(9).is_none());
}

#[test]
fn messages_go_to_the_others_and_the_host() {
    let mut server = server();
    let ann = join(&mut server, "ann");
    let bob = join(&mut server, "bob");
    queue(&mut server, ann);
    server.take_events();
    server.relay_at(bob, "bob", "a|b", now());
    assert_eq!(queue(&mut server, ann), ["MSG|bob|a|b"]);
    assert_eq!(queue(&mut server, bob), nothing());
    match &server.take_events()[..] {
        [AppEvent::Message(m)] => {
            assert_eq!((m.timestamp.as_str(), m.sender.as_str()), ("12:00:00", "bob"));
            assert_eq!(m.content, "a|b");
            assert!(!m.is_own && !m.is_system);
        }
        _ => panic!("one message expected"),
    }
    server.relay(ann, "ann", "hi");
    assert_eq!(queue(&mut server, bob), ["MSG|ann|hi"]);
}

#[test]
fn leaving_undoes_joining() {
    let mut server = server();
    let ann = join(&mut server, "ann");
    let bob = join(&mut server, "bob");
    server.broadcast(ann, "for bob");
    server.take_events();
    assert_eq!(server.part(bob, "bob"), ["for bob"]);
    assert!(server.take_queue(bob).is_none());
    assert_eq!(server.online(), ["ann", "host"]);
    assert_eq!(queue(&mut server, ann), ["JOIN|bob", "LEAVE|bob"]);
    assert!(matches!(&server.take_events()[..], [AppEvent::UserLeft(n)] if n == "bob"));
    assert_eq!(server.part(bob, "bob"), nothing());
}

#[test]
fn the_host_speaks_to_everyone() {
    let mut server = server();
    let ann = join(&mut server, "ann");
    let bob = join(&mut server, "bob");
    queue(&mut server, ann);
    assert!(run_server(&mut server, "hi all"));
    assert!(!run_server(&mut server, "/quit"));
    assert_eq!(queue(&mut server, ann), ["MSG|host|hi all", "LEAVE|host"]);
    assert_eq!(queue(&mut server, bob), ["MSG|host|hi all", "LEAVE|host"]);
}

/// A client that has exchanged keys with the server.
fn connected(server: &mut ServerState) -> (Connection, CryptoSession) {
    let (client, offer) = accept_client(server);
    let (mine, line) = begin_key_exchange();
    let (client, sends) = handle_client_at(client, server, Some(&line), now());
    assert_eq!(sends, ["HELLO:host"]);
    let secret = perform_key_exchange(mine, &offer).ok().unwrap();
    (client, CryptoSession::new(secret))
}

/// A client that is in the room.
fn member(server: &mut ServerState, name: &str) -> (Connection, CryptoSession) {
    let (client, session) = connected(server);
    let line = session.send_text(&format!("HELLO:{}", name));
    let (client, sends) = handle_client_at(client, server, Some(&line), now());
    assert_eq!(sends.len(), 1);
    assert!(matches!(&client.phase, Phase::Chat(_, n) if n == name));
    (client, session)
}

#[test]
fn a_connection_goes_from_keys_to_messages() {
    let mut server = server();
    let (ann, ann_session) = member(&mut server, "ann");
    let (bob, bob_session) = connected(&mut server);
    assert_eq!(bob.id, ann.id + 1);
    assert!(matches!(bob.phase, Phase::Name(_)));
    let line = bob_session.send_text("HELLO: bob ");
    let (bob, sends) = handle_client(bob, &mut server, Some(&line));
    assert_eq!(sends, ["ROOM|ann|host"]);
    let line = ann_session.send_text("good | morning");
    let (ann, sends) = handle_client(ann, &mut server, Some(&line));
    assert_eq!(sends, nothing());
    assert_eq!(queue(&mut server, bob.id), ["MSG|ann|good | morning"]);
    let line = bob_session.send_text("/quit");
    server.broadcast(ann.id, "late");
    let (bob, sends) = handle_client_at(bob, &mut server, Some(&line), now());
    assert_eq!(sends, ["late"]);
    assert!(matches!(bob.phase, Phase::Closed));
    assert_eq!(queue(&mut server, ann.id), ["JOIN|bob", "LEAVE|bob"]);
    assert_eq!(server.online(), ["ann", "host"]);
    let (bob, sends) = handle_client_at(bob, &mut server, Some("x\n"), now());
    assert!(matches!(bob.phase, Phase::Closed) && sends.is_empty());
}

#[test]
fn a_broken_connection_leaves_the_room() {
    for line in [None, Some(""), Some("garbage\n"), Some("AAAA\n")] {
        let mut server = server();
        let (ann, _) = member(&mut server, "ann");
        server.take_events();
        let (ann, _) = handle_client_at(ann, &mut server, line, now());
        assert!(matches!(ann.phase, Phase::Closed));
        assert_eq!(server.online(), ["host"]);
        assert!(matches!(&server.take_events()[..], [AppEvent::UserLeft(n)] if n == "ann"));
    }
}

#[test]
fn a_failed_handshake_leaves_no_trace() {
    let mut server = server();
    for line in [None, Some(""), Some("\n"), Some("????\n"), Some("AAAA\n")] {
        let (client, _) = accept_client(&mut server);
        let (client, sends) = handle_client_at(client, &mut server, line, now());
        assert!(matches!(client.phase, Phase::Closed) && sends.is_empty());
    }
    for name in ["HELLO:", "  ", "HELLO:HELLO: "] {
        let (client, session) = connected(&mut server);
        let line = session.send_text(name);
        let (client, sends) = handle_client_at(client, &mut server, Some(&line), now());
        assert!(matches!(client.phase, Phase::Closed) && sends.is_empty());
    }
    let (client, _) = connected(&mut server);
    let (client, _) = handle_client_at(client, &mut server, None, now());
    assert!(matches!(client.phase, Phase::Closed));
    assert_eq!(server.online(), ["host"]);
    assert!(server.take_events().is_empty());
}

/// A session that has exchanged keys, and the other end's key.
fn greeted(name: &str) -> (Session, CryptoSession) {
    let (session, offer) = begin_session(name.to_string());
    let (theirs, line) = begin_key_exchange();
    let (session, outcome) = run_session(session, Ok(&line));
    assert!(matches!(outcome, Outcome::Say(t) if t == format!("HELLO:{}", name)));
    let secret = perform_key_exchange(theirs, &offer).ok().unwrap();
    (session, CryptoSession::new(secret))
}

/// A session that has been told who is in the room.
fn chatting(name: &str) -> (Session, CryptoSession) {
    let (session, end) = greeted(name);
    let (session, outcome) = run_session(session, Ok(&end.send_text("HELLO:host")));
    assert!(matches!(outcome, Outcome::Wait));
    assert!(matches!(&session.stage, Stage::Room(_, h) if h == "host"));
    let (session, outcome) = run_session(session, Ok(&end.send_text("ROOM|zoe|host")));
    match outcome {
        Outcome::Tell(AppEvent::RoomInfo(users)) => assert_eq!(users, ["host", name, "zoe"]),
        _ => panic!("members expected"),
    }
    assert!(matches!(&session.stage, Stage::Chat(_, h) if h == "host"));
    (session, end)
}

#[test]
fn a_session_goes_from_keys_to_messages() {
    let (session, end) = chatting("mia");
    assert_eq!(session.my_name, "mia");
    let line = end.send_text("MSG|zoe|hi");
    let (session, outcome) = run_session_at(session, Ok(&line), now());
    match outcome {
        Outcome::Tell(AppEvent::Message(m)) => {
            assert_eq!((m.sender.as_str(), m.content.as_str()), ("zoe", "hi"));
            assert_eq!(m.timestamp, "12:00:00");
        }
        _ => panic!("message expected"),
    }
    let (session, outcome) = run_session_at(session, Ok(&end.send_text("what?")), now());
    assert!(matches!(outcome, Outcome::Wait));
    let (session, outcome) = run_session_at(session, Ok(&end.send_text("/quit")), now());
    assert!(matches!(outcome, Outcome::Tell(AppEvent::PeerLeft)));
    assert!(matches!(session.stage, Stage::Closed));
    let (_, outcome) = run_session_at(session, Ok("x"), now());
    assert!(matches!(outcome, Outcome::Wait));
}

#[test]
fn a_session_notices_a_broken_connection() {
    for read in [Err("reset"), Ok(""), Ok("garbage\n")] {
        let (session, _) = chatting("mia");
        let (session, outcome) = run_session_at(session, read, now());
        assert!(matches!(outcome, Outcome::Tell(AppEvent::ConnectionLost)));
        assert!(matches!(session.stage, Stage::Closed));
    }
}

#[test]
fn a_session_goes_on_without_a_list() {
    for read in [Err("reset"), Ok("")] {
        let (session, end) = greeted("mia");
        let (session, _) = run_session(session, Ok(&end.send_text("HELLO:host")));
        let (session, outcome) = run_session(session, read);
        assert!(matches!(session.stage, Stage::Chat(_, _)));
        assert!(matches!(outcome, Outcome::Tell(AppEvent::RoomInfo(u)) if u == ["mia"]));
    }
}

fn failure(session: Session, read: Result<&str, &str>) -> String {
    let (session, outcome) = run_session_at(session, read, now());
    assert!(matches!(session.stage, Stage::Closed));
    match outcome {
        Outcome::Fail(reason) => reason,
        _ => panic!("failure expected"),
    }
}

#[test]
fn a_session_says_why_it_failed() {
    let (session, _) = begin_session("mia".to_string());
    assert_eq!(
        failure(session, Ok("\n")),
        "Key exchange failed: peer disconnected during key exchange"
    );
    let (session, _) = begin_session("mia".to_string());
    assert_eq!(
        failure(session, Ok("AAAA\n")),
        "Key exchange failed: invalid public key length"
    );
    let (session, _) = begin_session("mia".to_string());
    assert_eq!(failure(session, Err("reset")), "Key exchange failed: reset");
    let (session, _) = greeted("mia");
    assert_eq!(failure(session, Ok("")), "Name exchange failed: connection closed");
    let (session, _) = greeted("mia");
    assert_eq!(failure(session, Err("reset")), "Name exchange failed: reset");
    let (session, _) = begin_session("mia".to_string());
    assert_eq!(session.unsent("broken pipe"), "Key exchange failed: broken pipe");
    let (session, _) = greeted("mia");
    assert_eq!(session.unsent("broken pipe"), "Name exchange failed.");
}

#[test]
fn sending_stops_after_a_failure_or_quit() {
    assert!(keeps_sending("hi", true));
    assert!(!keeps_sending("hi", false));
    assert!(!keeps_sending("/quit", true));
    assert!(!keeps_sending("/quit", false));
}

#[test]
fn client_and_server_talk() {
    let mut server = server();
    let (other, _) = member(&mut server, "zoe");
    let (client, offer) = accept_client(&mut server);
    let (session, line) = begin_session("mia".to_string());
    let (client, greeting) = handle_client(client, &mut server, Some(&line));
    let (session, outcome) = run_session(session, Ok(&offer));
    let (here, there) = match (&session.stage, &client.phase) {
        (Stage::Hello(a), Phase::Name(b)) => (a.duplicate(), b.duplicate()),
        _ => panic!("keys expected"),
    };
    let line = match outcome {
        Outcome::Say(text) => here.send_text(&text),
        _ => panic!("introduction expected"),
    };
    let (client, list) = handle_client(client, &mut server, Some(&line));
    let (session, _) = run_session(session, Ok(&there.send_text(&greeting[0])));
    let (session, outcome) = run_session(session, Ok(&there.send_text(&list[0])));
    assert!(matches!(
        outcome,
        Outcome::Tell(AppEvent::RoomInfo(u)) if u == ["host", "mia", "zoe"]
    ));
    let (client, _) = handle_client(client, &mut server, Some(&here.send_text("hey")));
    assert_eq!(queue(&mut server, other.id), ["JOIN|mia", "MSG|mia|hey"]);
    run_server(&mut server, "welcome");
    let texts = queue(&mut server, client.id);
    let (_, outcome) = run_session(session, Ok(&there.send_text(&texts[0])));
    assert!(matches!(
        outcome,
        Outcome::Tell(AppEvent::Message(m)) if m.sender == "host" && m.content == "welcome"
    ));
}

#[test]
fn a_message_reaches_another_window() {
    let mut server = server();
    let (mia, mia_session) = member(&mut server, "mia");
    let (zoe, _) = member(&mut server, "zoe");
    queue(&mut server, zoe.id);
    handle_client(mia, &mut server, Some(&mia_session.send_text("a | b")));
    let texts = queue(&mut server, zoe.id);
    let (session, end) = chatting("yan");
    let (_, outcome) = run_session_at(session, Ok(&end.send_text(&texts[0])), now());
    let mut app = App::new("yan".to_string(), "host".to_string());
    if let Outcome::Tell(event) = outcome {
        app.handle_event(event, &mut None);
    }
    let shown = app.messages.last().unwrap();
    assert_eq!((shown.sender.as_str(), shown.content.as_str()), ("mia", "a | b"));
}
