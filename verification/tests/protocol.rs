use localchat::event::{own_msg, system_msg, AppEvent};
use localchat::protocol::{
    hello, initial_users, is_quit, joined, left, message, parse_server_msg, parse_server_msg_at,
    quit, read_hello, read_room, room,
};

fn strings(texts: &[&str]) -> Vec<String> {
    texts.iter().map(|s| s.to_string()).collect()
}

fn parse(text: &str) -> Option<AppEvent> {
    parse_server_msg_at(text, "12:34:56".to_string())
}

#[test]
fn writes_the_texts_of_the_protocol() {
    assert_eq!(hello("ann"), "HELLO:ann");
    assert_eq!(message("ann", "a|b"), "MSG|ann|a|b");
    assert_eq!(joined("ann"), "JOIN|ann");
    assert_eq!(left("ann"), "LEAVE|ann");
    assert_eq!(room(&strings(&["ann", "bob"])), "ROOM|ann|bob");
    assert_eq!(quit(), "/quit");
    assert!(is_quit(&quit()));
    assert!(!is_quit("/quit ") && !is_quit("/QUIT") && !is_quit(""));
}

#[test]
fn reads_introductions() {
    assert_eq!(read_hello("HELLO:ann"), "ann");
    assert_eq!(read_hello("HELLO:HELLO:  ann b \n"), "ann b");
    assert_eq!(read_hello(" HELLO:ann"), "HELLO:ann");
    assert_eq!(read_hello("ann"), "ann");
    assert_eq!(read_hello("HELLO: "), "");
    for name in ["ann", "Bob B", "漢字", "a|b"] {
        assert_eq!(read_hello(&hello(name)), name);
    }
}

#[test]
fn reads_messages() {
    match parse("MSG|ann|a|b|c") {
        Some(AppEvent::Message(m)) => {
            assert_eq!(m.timestamp, "12:34:56");
            assert_eq!(m.sender, "ann");
            assert_eq!(m.content, "a|b|c");
            assert!(!m.is_own && !m.is_system);
        }
        _ => panic!("no message"),
    }
    match parse(&message("bob", "")) {
        Some(AppEvent::Message(m)) => assert!(m.sender == "bob" && m.content.is_empty()),
        _ => panic!("no message"),
    }
    assert!(parse("MSG|ann").is_none());
    assert!(parse("MSG").is_none());
}

#[test]
fn reads_who_comes_and_goes() {
    assert!(matches!(parse(&joined("ann")), Some(AppEvent::UserJoined(n)) if n == "ann"));
    assert!(matches!(parse(&left("ann")), Some(AppEvent::UserLeft(n)) if n == "ann"));
    assert!(matches!(parse("JOIN|"), Some(AppEvent::UserJoined(n)) if n.is_empty()));
    assert!(parse("JOIN|a|b").is_none());
    assert!(parse("LEAVE|a|b").is_none());
    assert!(parse("JOIN").is_none());
}

#[test]
fn reads_the_members() {
    let names = strings(&["ann", "bob", "cy", "dee"]);
    assert!(matches!(parse(&room(&names)), Some(AppEvent::RoomInfo(n)) if n == names));
    assert!(matches!(parse("ROOM"), Some(AppEvent::RoomInfo(n)) if n.is_empty()));
    assert!(matches!(parse("ROOM|"), Some(AppEvent::RoomInfo(n)) if n == strings(&[""])));
    assert_eq!(read_room(&room(&names)), names);
    assert_eq!(read_room("ROOM|"), strings(&[""]));
    assert_eq!(read_room("ROOM"), strings(&[]));
    assert_eq!(read_room("ROO|a"), strings(&[]));
}

#[test]
fn ignores_unknown_texts() {
    for text in ["", "|", "hello", "msg|a|b", "PING|a", "MSGS|a|b", " ROOM|a"] {
        assert!(parse(text).is_none());
    }
}

#[test]
fn stamps_messages_with_the_time() {
    match parse_server_msg("MSG|ann|hi") {
        Some(AppEvent::Message(m)) => {
            assert_eq!(m.timestamp.len(), 8);
            assert_eq!(&m.timestamp[2..3], ":");
            assert_eq!(m.content, "hi");
        }
        _ => panic!("no message"),
    }
}

#[test]
fn lists_a_newcomer_among_the_members() {
    assert_eq!(
        initial_users(Some("ROOM|zoe|ann|Bob"), "mia"),
        strings(&["Bob", "ann", "mia", "zoe"])
    );
    assert_eq!(initial_users(Some("ROOM|ann|mia"), "mia"), strings(&["ann", "mia"]));
    assert_eq!(initial_users(Some("what?"), "mia"), strings(&["mia"]));
    assert_eq!(initial_users(None, "mia"), strings(&["mia"]));
    assert_eq!(initial_users(Some("ROOM|b|a|b"), "a"), strings(&["a", "b", "b"]));
}

#[test]
fn makes_messages_with_the_time() {
    let notice = system_msg("started".to_string());
    assert!(notice.is_system && !notice.is_own);
    assert_eq!((notice.sender.as_str(), notice.content.as_str()), ("", "started"));
    assert_eq!(notice.timestamp.len(), 8);
    let mine = own_msg("ann".to_string(), "hi".to_string());
    assert!(mine.is_own && !mine.is_system);
    assert_eq!((mine.sender.as_str(), mine.content.as_str()), ("ann", "hi"));
    assert_eq!(mine.timestamp.len(), 8);
}
