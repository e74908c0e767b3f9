use localchat::event::{AppEvent, ChatMessage};
use localchat::history::HistoryWriter;
use localchat::render::{
    format_msg, render, render_header, render_in, render_input, render_messages, Area, Color, Piece,
};
use localchat::ui::{
    desktop_notification, end_session, end_session_at, App, Key, KeyAction, Status,
};

fn app() -> App {
    App::new("ann".to_string(), "bob".to_string())
}

fn other(content: &str) -> ChatMessage {
    ChatMessage {
        timestamp: "01:02:03".to_string(),
        sender: "bob".to_string(),
        content: content.to_string(),
        is_own: false,
        is_system: false,
    }
}

fn press(app: &mut App, key: Key) -> KeyAction {
    app.handle_key(key, false)
}

fn typed(text: &str) -> App {
    let mut app = app();
    for c in text.chars() {
        press(&mut app, Key::Char(c));
    }
    app
}

fn log() -> Option<HistoryWriter> {
    let mut log = HistoryWriter::new_at(
        "d".to_string(),
        "2024-01-31_09-04-59",
        "2024-01-31 09:05:00",
        "ann",
        "bob",
    );
    log.take_pending();
    Some(log)
}

fn recorded(history: &mut Option<HistoryWriter>) -> String {
    history.as_mut().unwrap().take_pending()
}

#[test]
fn a_conversation_opens_with_two_notices() {
    let app = App::open_at(
        "ann".to_string(),
        "Chat Room".to_string(),
        "01:00:00".to_string(),
        "01:00:01".to_string(),
    );
    assert_eq!(app.messages.len(), 2);
    assert_eq!(
        app.messages[0].content,
        "🔒  End-to-end encrypted session with Chat Room  started."
    );
    assert_eq!(app.messages[0].timestamp, "01:00:00");
    assert_eq!(
        app.messages[1].content,
        "PageUp/PageDown to scroll  ·  /quit or Esc to exit"
    );
    assert_eq!(app.messages[1].timestamp, "01:00:01");
    assert!(app.messages.iter().all(|m| m.is_system));
    assert!(app.status == Status::Connected);
    let now = App::open("ann".to_string(), "bob".to_string());
    assert_eq!(now.messages.len(), 2);
    assert_eq!(now.messages[0].timestamp.len(), 8);
}

#[test]
fn typing_edits_at_the_cursor() {
    let mut app = typed("helo");
    assert_eq!((app.input.as_str(), app.cursor_pos), ("helo", 4));
    press(&mut app, Key::Left);
    press(&mut app, Key::Char('l'));
    assert_eq!((app.input.as_str(), app.cursor_pos), ("hello", 4));
    press(&mut app, Key::Home);
    press(&mut app, Key::Delete);
    assert_eq!((app.input.as_str(), app.cursor_pos), ("ello", 0));
    press(&mut app, Key::Backspace);
    assert_eq!((app.input.as_str(), app.cursor_pos), ("ello", 0));
    press(&mut app, Key::End);
    press(&mut app, Key::Delete);
    assert_eq!((app.input.as_str(), app.cursor_pos), ("ello", 4));
    press(&mut app, Key::Right);
    assert_eq!(app.cursor_pos, 4);
    press(&mut app, Key::Backspace);
    assert_eq!((app.input.as_str(), app.cursor_pos), ("ell", 3));
    press(&mut app, Key::Other);
    assert_eq!((app.input.as_str(), app.cursor_pos), ("ell", 3));
}

#[test]
fn left_and_right_stop_at_the_ends() {
    let mut app = typed("a");
    press(&mut app, Key::Left);
    press(&mut app, Key::Left);
    assert_eq!(app.cursor_pos, 0);
    press(&mut app, Key::Right);
    press(&mut app, Key::Right);
    assert_eq!(app.cursor_pos, 1);
}

#[test]
fn backspace_takes_back_what_was_typed() {
    for c in ['x', 'ä', '🎨'] {
        let mut app = typed("ab");
        press(&mut app, Key::Left);
        press(&mut app, Key::Char(c));
        press(&mut app, Key::Backspace);
        assert_eq!((app.input.as_str(), app.cursor_pos), ("ab", 1));
    }
}

#[test]
fn the_cursor_counts_characters() {
    let app = typed("é");
    assert_eq!((app.input.as_str(), app.cursor_pos), ("é", 1));
    assert_eq!(render_input(&app, area(4, 21, 80, 3)).cursor, Some((8, 22)));
    let mut app = typed("aé🎨");
    assert_eq!((app.input.as_str(), app.cursor_pos), ("aé🎨", 3));
    for at in [2, 1, 0, 0] {
        press(&mut app, Key::Left);
        assert_eq!(app.cursor_pos, at);
    }
    for at in [1, 2, 3, 3] {
        press(&mut app, Key::Right);
        assert_eq!(app.cursor_pos, at);
    }
    press(&mut app, Key::Backspace);
    assert_eq!((app.input.as_str(), app.cursor_pos), ("aé", 2));
    press(&mut app, Key::Left);
    press(&mut app, Key::Delete);
    assert_eq!((app.input.as_str(), app.cursor_pos), ("a", 1));
    press(&mut app, Key::Home);
    press(&mut app, Key::Char('漢'));
    press(&mut app, Key::End);
    assert_eq!((app.input.as_str(), app.cursor_pos), ("漢a", 2));
}

#[test]
fn any_character_can_be_typed_and_sent() {
    let mut app = App::new("Alice".to_string(), "Bob".to_string());
    press(&mut app, Key::Char('é'));
    press(&mut app, Key::Char('x'));
    assert!(matches!(press(&mut app, Key::Enter), KeyAction::Send(t) if t == "éx"));
    app.sent("éx".to_string(), true, &mut None);
    assert!(matches!(press(&mut app, Key::Esc), KeyAction::Quit));
}

#[test]
fn typing_at_either_end_is_accepted() {
    let mut app = typed("ä");
    press(&mut app, Key::Home);
    press(&mut app, Key::Char('x'));
    assert_eq!((app.input.as_str(), app.cursor_pos), ("xä", 1));
    press(&mut app, Key::End);
    press(&mut app, Key::Char('🎨'));
    assert_eq!(app.input, "xä🎨");
}

#[test]
fn enter_sends_the_trimmed_input() {
    let mut app = typed("  hi there ");
    assert!(matches!(press(&mut app, Key::Enter), KeyAction::Send(t) if t == "hi there"));
    assert_eq!(app.input, "  hi there ");
    let mut blank = typed("   ");
    assert!(matches!(press(&mut blank, Key::Enter), KeyAction::Continue));
    assert_eq!(blank.input, "   ");
}

#[test]
fn what_was_sent_is_shown_and_recorded() {
    let mut app = typed("hi");
    for i in 0..9 {
        app.push(other(&i.to_string()));
    }
    press(&mut app, Key::Up);
    let mut history = log();
    app.sent_at("hi".to_string(), true, "10:00:00".to_string(), &mut history);
    let last = app.messages.last().unwrap();
    assert!(last.is_own && last.sender == "ann" && last.content == "hi");
    assert_eq!((app.input.as_str(), app.cursor_pos, app.scroll_offset), ("", 0, 0));
    assert!(app.status == Status::Connected);
    assert_eq!(recorded(&mut history), "[10:00:00] ann: hi\n");
    app.sent("more".to_string(), true, &mut None);
    assert_eq!(app.messages.last().unwrap().content, "more");
}

#[test]
fn a_failure_to_send_ends_the_conversation() {
    let mut app = typed("hi");
    let mut history = log();
    app.sent_at("hi".to_string(), false, "10:00:00".to_string(), &mut history);
    let last = app.messages.last().unwrap();
    assert!(last.is_system);
    assert_eq!(last.content, "Failed to send — connection may be broken.");
    assert!(app.status == Status::ConnectionLost);
    assert_eq!(app.input, "");
    assert_eq!(recorded(&mut history), "");
}

#[test]
fn three_ways_to_quit() {
    let mut app = typed(" /quit ");
    assert!(matches!(press(&mut app, Key::Enter), KeyAction::Quit));
    assert!(app.status == Status::Quit);
    let mut app = typed("x");
    assert!(matches!(press(&mut app, Key::Esc), KeyAction::Quit));
    assert!(app.status == Status::Quit);
    let mut app = typed("x");
    assert!(matches!(app.handle_key(Key::Char('c'), true), KeyAction::Quit));
    assert!(app.status == Status::Quit && app.input == "x");
    let mut app = typed("x");
    assert!(matches!(app.handle_key(Key::Char('d'), true), KeyAction::Continue));
    assert!(app.status == Status::Connected && app.input == "xd");
}

#[test]
fn messages_are_shown_recorded_and_announced() {
    let mut app = app();
    let mut history = log();
    let args = app.handle_event_at(
        AppEvent::Message(other("hey")),
        "now".to_string(),
        &mut history,
    );
    assert_eq!(
        args,
        Some(desktop_notification("bob", "hey"))
    );
    assert_eq!(
        desktop_notification("bob", "hey"),
        [
            "--icon=user-available",
            "--urgency=normal",
            "--expire-time=5000",
            "LocalChat — bob",
            "hey",
        ]
    );
    assert_eq!(app.messages.last().unwrap().content, "hey");
    assert_eq!(recorded(&mut history), "[01:02:03] bob: hey\n");
    assert!(app.handle_event(AppEvent::Message(other("ho")), &mut None).is_some());
    assert_eq!(app.messages.len(), 2);
}

#[test]
fn the_end_of_the_conversation_is_shown() {
    let mut history = log();
    let mut gone = app();
    assert!(gone
        .handle_event_at(AppEvent::PeerLeft, "10:00:00".to_string(), &mut history)
        .is_none());
    assert!(gone.status == Status::PeerLeft);
    assert_eq!(gone.messages[0].content, "bob has left the chat.");
    assert_eq!(gone.messages[0].timestamp, "10:00:00");
    let mut lost = app();
    assert!(lost.handle_event(AppEvent::ConnectionLost, &mut history).is_none());
    assert!(lost.status == Status::ConnectionLost);
    assert_eq!(lost.messages[0].content, "Connection lost.");
    assert_eq!(recorded(&mut history), "");
}

#[test]
fn who_comes_and_goes_leaves_the_window_as_it_is() {
    let mut app = typed("x");
    for event in [
        AppEvent::UserJoined("cy".to_string()),
        AppEvent::UserLeft("cy".to_string()),
        AppEvent::RoomInfo(vec!["cy".to_string()]),
    ] {
        assert!(app.handle_event(event, &mut None).is_none());
    }
    assert!(app.messages.is_empty() && app.input == "x" && app.status == Status::Connected);
}

#[test]
fn any_key_closes_the_window_after_the_end() {
    for key in [Key::Char('x'), Key::Enter, Key::Up, Key::Other] {
        let mut app = typed("ab");
        app.handle_event(AppEvent::PeerLeft, &mut None);
        assert!(matches!(press(&mut app, key), KeyAction::Close));
        assert_eq!(app.input, "ab");
    }
}

#[test]
fn scrolling_stays_within_the_messages() {
    let mut app = app();
    for i in 0..7 {
        app.push(other(&i.to_string()));
    }
    press(&mut app, Key::PageUp);
    assert_eq!(app.scroll_offset, 5);
    press(&mut app, Key::Up);
    assert_eq!(app.scroll_offset, 6);
    press(&mut app, Key::PageUp);
    assert_eq!(app.scroll_offset, 7);
    press(&mut app, Key::Down);
    assert_eq!(app.scroll_offset, 6);
    press(&mut app, Key::PageDown);
    press(&mut app, Key::PageDown);
    assert_eq!(app.scroll_offset, 0);
    app.scroll_up(usize::MAX);
    assert_eq!(app.scroll_offset, 7);
    app.scroll_down(3);
    assert_eq!(app.scroll_offset, 4);
    app.scroll_offset = 100;
    app.scroll_up(1);
    assert_eq!(app.scroll_offset, 7);
}

#[test]
fn the_wait_for_a_key_depends_on_the_state() {
    let mut app = app();
    assert_eq!(app.poll_timeout(), 50);
    app.handle_event(AppEvent::ConnectionLost, &mut None);
    assert_eq!(app.poll_timeout(), 100);
}

#[test]
fn the_end_of_the_session_is_recorded() {
    let mut history = log();
    end_session_at(&mut history, "11:00:00");
    assert_eq!(recorded(&mut history), "── session ended ─ 11:00:00 ──\n");
    end_session(&mut history);
    assert!(recorded(&mut history).starts_with("── session ended ─ "));
    end_session(&mut None);
}

fn area(x: u16, y: u16, width: u16, height: u16) -> Area {
    Area { x, y, width, height }
}

fn is(piece: &Piece, text: &str, color: Color, bold: bool, italic: bool) -> bool {
    piece.text == text && piece.color == color && piece.bold == bold && piece.italic == italic
}

#[test]
fn the_header_shows_names_and_state() {
    let labels = [
        (Status::Connected, "·  🔒 Encrypted · Connected", Color::Green),
        (Status::PeerLeft, "·  ⚠  Peer disconnected", Color::Yellow),
        (Status::ConnectionLost, "·  ✖  Connection lost", Color::Red),
        (Status::Quit, "·  Disconnecting…", Color::DarkGray),
    ];
    for (status, label, color) in labels {
        let mut app = app();
        app.status = status;
        let header = render_header(&app, area(0, 0, 80, 3));
        assert_eq!(header.row.len(), 2);
        assert!(is(&header.row[0], "  LocalChat  ·  ann ↔ bob  ", Color::Cyan, true, false));
        assert!(is(&header.row[1], label, color, true, false));
        assert!(header.border == Color::Blue);
        assert!(header.area == area(0, 0, 80, 3));
    }
}

#[test]
fn messages_are_formatted_by_who_wrote_them() {
    let row = format_msg(&other("hey"));
    assert_eq!(row.len(), 3);
    assert!(is(&row[0], " [01:02:03] ", Color::DarkGray, false, false));
    assert!(is(&row[1], "bob           ", Color::Cyan, true, false));
    assert!(is(&row[2], "hey", Color::Gray, false, false));
    let mut mine = other("ho");
    mine.is_own = true;
    mine.sender = "a name that is long".to_string();
    let row = format_msg(&mine);
    assert!(is(&row[1], "a name that is long", Color::Green, true, false));
    assert!(is(&row[2], "ho", Color::White, false, false));
    let mut notice = other("started");
    notice.is_system = true;
    let row = format_msg(&notice);
    assert_eq!(row.len(), 1);
    assert!(is(&row[0], "  ─  started  ─", Color::DarkGray, false, true));
}

fn contents(app: &App, height: u16) -> Vec<String> {
    render_messages(app, area(0, 3, 80, height))
        .rows
        .iter()
        .map(|row| row[2].text.clone())
        .collect()
}

#[test]
fn the_latest_messages_are_in_sight() {
    let mut app = app();
    for i in 0..5 {
        app.push(other(&i.to_string()));
    }
    assert_eq!(contents(&app, 5), ["2", "3", "4"]);
    assert_eq!(contents(&app, 100), ["0", "1", "2", "3", "4"]);
    assert!(contents(&app, 2).is_empty());
    assert!(contents(&app, 0).is_empty());
    assert_eq!(render_messages(&app, area(0, 0, 9, 9)).title, " Messages ");
    app.scroll_up(2);
    assert_eq!(contents(&app, 5), ["0", "1", "2"]);
    assert_eq!(
        render_messages(&app, area(0, 0, 9, 9)).title,
        " Messages  ↑ scrolled (2 newer) ↓ "
    );
    app.push(other("5"));
    assert_eq!(contents(&app, 5), ["1", "2", "3"]);
    app.scroll_up(100);
    assert!(contents(&app, 5).is_empty());
    app.sent("now".to_string(), true, &mut None);
    assert_eq!(contents(&app, 3), ["now"]);
}

#[test]
fn the_input_shows_text_and_cursor() {
    let mut app = typed("hey");
    press(&mut app, Key::Left);
    let input = render_input(&app, area(4, 21, 80, 3));
    assert_eq!(input.text, "> hey");
    assert_eq!(input.title, " /quit · Esc · Ctrl+C to exit ");
    assert!(input.color == Color::Yellow && input.border == Color::Cyan);
    assert_eq!(input.cursor, Some((9, 22)));
    app.status = Status::PeerLeft;
    let input = render_input(&app, area(4, 21, 80, 3));
    assert_eq!(input.title, " Press any key to close ");
    assert!(input.color == Color::DarkGray && input.border == Color::DarkGray);
    assert_eq!(input.cursor, None);
}

#[test]
fn cursor_positions_wrap_around() {
    let app = typed("hey");
    let input = render_input(&app, area(65535, 65535, 1, 1));
    assert_eq!(input.cursor, Some((5, 0)));
}

#[test]
fn the_screen_has_three_rows() {
    for height in [7u16, 8, 24, 100] {
        for y in [0u16, 5] {
            let screen = render(&app(), area(2, y, 80, height));
            assert!(screen.header.area == area(2, y, 80, 3));
            assert!(screen.messages.area == area(2, y + 3, 80, height - 6));
            assert!(screen.input.area == area(2, y + height - 3, 80, 3));
        }
    }
    for height in 0..7u16 {
        let small = render(&app(), area(2, 5, 80, height));
        let rows = [small.header.area, small.messages.area, small.input.area];
        let mut y = 5;
        for row in rows {
            assert_eq!((row.x, row.width), (2, 80));
            assert_eq!(y, row.y);
            y = row.y + row.height;
        }
        assert_eq!(y, 5 + height);
        assert!(height == 0 || small.messages.area.height >= 1);
    }
    let given = render_in(&app(), area(0, 0, 1, 1), area(0, 1, 1, 2), area(0, 3, 1, 3));
    assert!(given.messages.area == area(0, 1, 1, 2));
}
