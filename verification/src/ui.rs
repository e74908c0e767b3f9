//! The chat window: what it holds, and how keys and events change it.
use vstd::prelude::*;

use crate::clock::{is_time_of_day, time_of_day};
use crate::event::{own_msg_at, system_msg_at, AppEvent, ChatMessage, EventView, MessageView};
use crate::history::{event_line, message_line, HistoryView, HistoryWriter};
use crate::input::{insert_char, remove_char};
use crate::protocol::{is_quit, quit_text};
use crate::text::{trimmed, views};

verus! {

/// How the conversation stands.
#[derive(PartialEq, Eq, Clone, Copy, Structural)]
pub enum Status {
    Connected,
    PeerLeft,
    ConnectionLost,
    Quit,
}

/// A key that the user can press.
#[derive(Clone, Copy)]
pub enum Key {
    Enter,
    Esc,
    Char(char),
    Backspace,
    Delete,
    Left,
    Right,
    Home,
    End,
    PageUp,
    PageDown,
    Up,
    Down,
    Other,
}

/// What a key asks of the caller.
pub enum KeyAction {
    /// Nothing.
    Continue,
    /// Send the text, then report with `App::sent` whether it went out.
    Send(String),
    /// Send the text of `protocol::quit`, whether or not it goes out, and close
    /// the window.
    Quit,
    /// Close the window.
    Close,
}

/// The contents of a `KeyAction`.
pub enum ActionView {
    Continue,
    Send(Seq<char>),
    Quit,
    Close,
}

impl View for KeyAction {
    type V = ActionView;

    open spec fn view(&self) -> ActionView {
        match *self {
            KeyAction::Continue => ActionView::Continue,
            KeyAction::Send(text) => ActionView::Send(text@),
            KeyAction::Quit => ActionView::Quit,
            KeyAction::Close => ActionView::Close,
        }
    }
}

/// The chat window.
pub struct App {
    pub messages: Vec<ChatMessage>,
    pub input: String,
    /// The number of characters of `input` before the cursor.
    pub cursor_pos: usize,
    /// Number of messages from the bottom to skip when rendering (0 = latest).
    pub scroll_offset: usize,
    pub my_name: String,
    pub peer_name: String,
    pub status: Status,
}

/// The contents of an `App`.
#[verifier::ext_equal]
pub struct AppView {
    pub messages: Seq<MessageView>,
    pub input: Seq<char>,
    pub cursor_pos: int,
    pub scroll_offset: int,
    pub my_name: Seq<char>,
    pub peer_name: Seq<char>,
    pub status: Status,
}

/// The contents of a list of messages.
pub open spec fn message_views(messages: Seq<ChatMessage>) -> Seq<MessageView> {
    messages.map_values(|m: ChatMessage| m@)
}

/// The contents of an optional log.
pub open spec fn log_view(history: Option<HistoryWriter>) -> Option<HistoryView> {
    match history {
        Some(h) => Some(h@),
        None => None,
    }
}

/// A log, where there is one, with more text at its end.
pub open spec fn logged(log: Option<HistoryView>, line: Seq<char>) -> Option<HistoryView> {
    match log {
        Some(h) => Some(h.with(line)),
        None => None,
    }
}

impl View for App {
    type V = AppView;

    open spec fn view(&self) -> AppView {
        AppView {
            messages: message_views(self.messages@),
            input: self.input@,
            cursor_pos: self.cursor_pos as int,
            scroll_offset: self.scroll_offset as int,
            my_name: self.my_name@,
            peer_name: self.peer_name@,
            status: self.status,
        }
    }
}

/// The text that tells that the peer has left.
pub open spec fn peer_left_text(peer_name: Seq<char>) -> Seq<char> {
    peer_name + " has left the chat."@
}

/// The text that opens a conversation.
pub open spec fn welcome_text(peer_name: Seq<char>) -> Seq<char> {
    "🔒  End-to-end encrypted session with "@ + peer_name + "  started."@
}

/// The text that explains the keys.
pub open spec fn help_text() -> Seq<char> {
    "PageUp/PageDown to scroll  ·  /quit or Esc to exit"@
}

impl AppView {
    /// What holds of every window: the cursor stands in the input or at its end,
    /// and no more messages are skipped than there are.
    pub open spec fn wf(self) -> bool {
        &&& 0 <= self.cursor_pos <= self.input.len()
        &&& 0 <= self.scroll_offset <= self.messages.len()
    }

    /// An empty window.
    pub open spec fn empty(my_name: Seq<char>, peer_name: Seq<char>) -> AppView {
        AppView {
            messages: seq![],
            input: seq![],
            cursor_pos: 0,
            scroll_offset: 0,
            my_name,
            peer_name,
            status: Status::Connected,
        }
    }

    /// The window at the start of a conversation, with the times at which its
    /// two notices were written.
    pub open spec fn opened(
        my_name: Seq<char>,
        peer_name: Seq<char>,
        first: Seq<char>,
        second: Seq<char>,
    ) -> AppView {
        AppView::empty(my_name, peer_name).with(
            MessageView::system(welcome_text(peer_name), first),
        ).with(MessageView::system(help_text(), second))
    }

    /// The window with one more message.
    pub open spec fn with(self, message: MessageView) -> AppView {
        AppView { messages: self.messages.push(message), ..self }
    }

    /// The window scrolled `n` messages towards the oldest.
    pub open spec fn scrolled_up(self, n: int) -> AppView {
        AppView {
            scroll_offset: if self.scroll_offset + n <= self.messages.len() {
                self.scroll_offset + n
            } else {
                self.messages.len() as int
            },
            ..self
        }
    }

    /// The window scrolled `n` messages towards the latest.
    pub open spec fn scrolled_down(self, n: int) -> AppView {
        AppView {
            scroll_offset: if self.scroll_offset >= n {
                self.scroll_offset - n
            } else {
                0
            },
            ..self
        }
    }

    /// The window after something has happened on the network.
    pub open spec fn after_event(self, event: EventView, now: Seq<char>) -> AppView {
        match event {
            EventView::Message(m) => self.with(m),
            EventView::PeerLeft => AppView {
                status: Status::PeerLeft,
                ..self.with(MessageView::system(peer_left_text(self.peer_name), now))
            },
            EventView::ConnectionLost => AppView {
                status: Status::ConnectionLost,
                ..self.with(MessageView::system("Connection lost."@, now))
            },
            EventView::UserJoined(_) => self,
            EventView::UserLeft(_) => self,
            EventView::RoomInfo(_) => self,
        }
    }

    /// The window after a key. Once the conversation is over, keys change
    /// nothing.
    pub open spec fn after_key(self, key: Key, ctrl: bool) -> AppView {
        if self.status != Status::Connected {
            self
        } else {
            match key {
                Key::Enter => if trimmed(self.input) == quit_text() {
                    AppView { status: Status::Quit, ..self }
                } else {
                    self
                },
                Key::Esc => AppView { status: Status::Quit, ..self },
                Key::Char(c) => if ctrl && c == 'c' {
                    AppView { status: Status::Quit, ..self }
                } else {
                    AppView {
                        input: self.input.insert(self.cursor_pos, c),
                        cursor_pos: self.cursor_pos + 1,
                        ..self
                    }
                },
                Key::Backspace => if self.cursor_pos > 0 {
                    AppView {
                        input: self.input.remove(self.cursor_pos - 1),
                        cursor_pos: self.cursor_pos - 1,
                        ..self
                    }
                } else {
                    self
                },
                Key::Delete => if self.cursor_pos < self.input.len() {
                    AppView { input: self.input.remove(self.cursor_pos), ..self }
                } else {
                    self
                },
                Key::Left => if self.cursor_pos > 0 {
                    AppView { cursor_pos: self.cursor_pos - 1, ..self }
                } else {
                    self
                },
                Key::Right => if self.cursor_pos < self.input.len() {
                    AppView { cursor_pos: self.cursor_pos + 1, ..self }
                } else {
                    self
                },
                Key::Home => AppView { cursor_pos: 0, ..self },
                Key::End => AppView { cursor_pos: self.input.len() as int, ..self },
                Key::PageUp => self.scrolled_up(5),
                Key::PageDown => self.scrolled_down(5),
                Key::Up => self.scrolled_up(1),
                Key::Down => self.scrolled_down(1),
                Key::Other => self,
            }
        }
    }

    /// What a key asks of the caller.
    pub open spec fn action_of(self, key: Key, ctrl: bool) -> ActionView {
        if self.status != Status::Connected {
            ActionView::Close
        } else {
            match key {
                Key::Enter => if trimmed(self.input).len() == 0 {
                    ActionView::Continue
                } else if trimmed(self.input) == quit_text() {
                    ActionView::Quit
                } else {
                    ActionView::Send(trimmed(self.input))
                },
                Key::Esc => ActionView::Quit,
                Key::Char(c) => if ctrl && c == 'c' {
                    ActionView::Quit
                } else {
                    ActionView::Continue
                },
                _ => ActionView::Continue,
            }
        }
    }

    /// The window after `text` was to be sent: the message or a notice is added,
    /// the input is empty and the latest messages are in sight.
    pub open spec fn after_send(self, text: Seq<char>, went_out: bool, now: Seq<char>) -> AppView {
        let told = if went_out {
            self.with(MessageView::own(self.my_name, text, now))
        } else {
            AppView {
                status: Status::ConnectionLost,
                ..self.with(
                    MessageView::system("Failed to send — connection may be broken."@, now),
                )
            }
        };
        AppView { input: seq![], cursor_pos: 0, scroll_offset: 0, ..told }
    }
}

/// The command line that shows a message on the desktop, after the program's
/// name.
pub open spec fn notification_args(sender: Seq<char>, content: Seq<char>) -> Seq<Seq<char>> {
    seq![
        "--icon=user-available"@,
        "--urgency=normal"@,
        "--expire-time=5000"@,
        "LocalChat — "@ + sender,
        content,
    ]
}

/// The command line that shows a message on the desktop, after the program's
/// name.
pub fn desktop_notification(sender: &str, content: &str) -> (res: Vec<String>)
    ensures
        views(res@) == notification_args(sender@, content@),
{
    let mut title = "LocalChat — ".to_owned();
    title.append(sender);
    let mut res: Vec<String> = Vec::new();
    res.push("--icon=user-available".to_owned());
    res.push("--urgency=normal".to_owned());
    res.push("--expire-time=5000".to_owned());
    res.push(title);
    res.push(content.to_owned());
    assert(views(res@) =~= notification_args(sender@, content@));
    res
}

/// Records a message in the log, where there is one.
fn record(history: &mut Option<HistoryWriter>, timestamp: &str, sender: &str, content: &str)
    ensures
        log_view(*final(history)) == logged(
            log_view(*old(history)),
            message_line(timestamp@, sender@, content@),
        ),
{
    match history {
        Some(h) => h.write_message(timestamp, sender, content),
        None => {},
    }
}

impl App {
    /// An empty window.
    pub fn new(my_name: String, peer_name: String) -> (res: Self)
        ensures
            res@ == AppView::empty(my_name@, peer_name@),
            res@.wf(),
    {
        let res = App {
            messages: Vec::new(),
            input: String::new(),
            cursor_pos: 0,
            scroll_offset: 0,
            my_name,
            peer_name,
            status: Status::Connected,
        };
        assert(res@ =~= AppView::empty(my_name@, peer_name@));
        res
    }

    /// Adds a message at the bottom.
    pub fn push(&mut self, msg: ChatMessage)
        ensures
            final(self)@ == old(self)@.with(msg@),
    {
        let ghost before = self@;
        self.messages.push(msg);
        assert(self@ =~= before.with(msg@));
    }

    /// Scrolls `n` messages towards the oldest.
    pub fn scroll_up(&mut self, n: usize)
        ensures
            final(self)@ == old(self)@.scrolled_up(n as int),
    {
        let total: usize = self.messages.len();
        if self.scroll_offset <= total && n <= total - self.scroll_offset {
            self.scroll_offset = self.scroll_offset + n;
        } else {
            self.scroll_offset = total;
        }
    }

    /// Scrolls `n` messages towards the latest.
    pub fn scroll_down(&mut self, n: usize)
        ensures
            final(self)@ == old(self)@.scrolled_down(n as int),
    {
        self.scroll_offset = self.scroll_offset.saturating_sub(n);
    }

    /// The window at the start of a conversation, with the times at which its
    /// two notices are written.
    pub fn open_at(my_name: String, peer_name: String, first: String, second: String) -> (res: Self)
        ensures
            res@ == AppView::opened(my_name@, peer_name@, first@, second@),
            res@.wf(),
    {
        let mut welcome = "🔒  End-to-end encrypted session with ".to_owned();
        welcome.append(peer_name.as_str());
        welcome.append("  started.");
        let help = "PageUp/PageDown to scroll  ·  /quit or Esc to exit".to_owned();
        let mut app = App::new(my_name, peer_name);
        app.push(system_msg_at(welcome, first));
        app.push(system_msg_at(help, second));
        app
    }

    /// The window at the start of a conversation.
    pub fn open(my_name: String, peer_name: String) -> (res: Self)
        ensures
            exists|first: Seq<char>, second: Seq<char>|
                is_time_of_day(first) && is_time_of_day(second) && res@
                    == #[trigger] AppView::opened(my_name@, peer_name@, first, second),
            res@.wf(),
    {
        let ghost names = (my_name@, peer_name@);
        let first = time_of_day();
        let second = time_of_day();
        let ghost times = (first@, second@);
        let res = App::open_at(my_name, peer_name, first, second);
        assert(res@ == AppView::opened(names.0, names.1, times.0, times.1));
        res
    }

    /// Shows and records what has happened on the network at the given time.
    /// Returns the notification that goes to the desktop.
    pub fn handle_event_at(
        &mut self,
        event: AppEvent,
        now: String,
        history: &mut Option<HistoryWriter>,
    ) -> (res: Option<Vec<String>>)
        ensures
            final(self)@ == old(self)@.after_event(event@, now@),
            old(self)@.wf() ==> final(self)@.wf(),
            match event@ {
                EventView::Message(m) => {
                    &&& log_view(*final(history)) == logged(
                        log_view(*old(history)),
                        message_line(m.timestamp, m.sender, m.content),
                    )
                    &&& res matches Some(args)
                    &&& views(args@) == notification_args(m.sender, m.content)
                },
                _ => log_view(*final(history)) == log_view(*old(history)) && res is None,
            },
    {
        match event {
            AppEvent::Message(msg) => {
                let notification = desktop_notification(msg.sender.as_str(), msg.content.as_str());
                record(
                    history,
                    msg.timestamp.as_str(),
                    msg.sender.as_str(),
                    msg.content.as_str(),
                );
                self.push(msg);
                Some(notification)
            },
            AppEvent::PeerLeft => {
                let mut text = self.peer_name.clone();
                text.append(" has left the chat.");
                self.push(system_msg_at(text, now));
                self.status = Status::PeerLeft;
                None
            },
            AppEvent::ConnectionLost => {
                self.push(system_msg_at("Connection lost.".to_owned(), now));
                self.status = Status::ConnectionLost;
                None
            },
            AppEvent::UserJoined(_) => None,
            AppEvent::UserLeft(_) => None,
            AppEvent::RoomInfo(_) => None,
        }
    }

    /// Shows and records what has just happened on the network. Returns the
    /// notification that goes to the desktop.
    pub fn handle_event(&mut self, event: AppEvent, history: &mut Option<HistoryWriter>) -> (res:
        Option<Vec<String>>)
        ensures
            exists|now: Seq<char>|
                is_time_of_day(now) && final(self)@ == #[trigger] old(self)@.after_event(
                    event@,
                    now,
                ),
            old(self)@.wf() ==> final(self)@.wf(),
            match event@ {
                EventView::Message(m) => {
                    &&& log_view(*final(history)) == logged(
                        log_view(*old(history)),
                        message_line(m.timestamp, m.sender, m.content),
                    )
                    &&& res matches Some(args)
                    &&& views(args@) == notification_args(m.sender, m.content)
                },
                _ => log_view(*final(history)) == log_view(*old(history)) && res is None,
            },
    {
        let now = time_of_day();
        let ghost at = now@;
        let ghost what = event@;
        let res = self.handle_event_at(event, now, history);
        assert(self@ == old(self)@.after_event(what, at));
        res
    }

    /// Lets a key do its work.
    pub fn handle_key(&mut self, key: Key, ctrl: bool) -> (res: KeyAction)
        requires
            old(self)@.wf(),
        ensures
            final(self)@ == old(self)@.after_key(key, ctrl),
            res@ == old(self)@.action_of(key, ctrl),
            final(self)@.wf(),
    {
        if self.status != Status::Connected {
            return KeyAction::Close;
        }
        let end: usize = self.input.as_str().unicode_len();
        match key {
            Key::Enter => {
                let text = self.input.as_str().trim().to_owned();
                proof {
                    reveal_strlit("/quit");
                }
                if text.as_str().is_empty() {
                    return KeyAction::Continue;
                }
                if is_quit(text.as_str()) {
                    self.status = Status::Quit;
                    return KeyAction::Quit;
                }
                return KeyAction::Send(text);
            },
            Key::Esc => {
                self.status = Status::Quit;
                return KeyAction::Quit;
            },
            Key::Char(c) => {
                if ctrl && c == 'c' {
                    self.status = Status::Quit;
                    return KeyAction::Quit;
                }
                insert_char(&mut self.input, self.cursor_pos, c);
                let grown: usize = self.input.as_str().unicode_len();
                assert(self.cursor_pos < grown);
                self.cursor_pos = self.cursor_pos + 1;
            },
            Key::Backspace => {
                if self.cursor_pos > 0 {
                    self.cursor_pos = self.cursor_pos - 1;
                    remove_char(&mut self.input, self.cursor_pos);
                }
            },
            Key::Delete => {
                if self.cursor_pos < end {
                    remove_char(&mut self.input, self.cursor_pos);
                }
            },
            Key::Left => {
                if self.cursor_pos > 0 {
                    self.cursor_pos = self.cursor_pos - 1;
                }
            },
            Key::Right => {
                if self.cursor_pos < end {
                    self.cursor_pos = self.cursor_pos + 1;
                }
            },
            Key::Home => {
                self.cursor_pos = 0;
            },
            Key::End => {
                self.cursor_pos = end;
            },
            Key::PageUp => self.scroll_up(5),
            Key::PageDown => self.scroll_down(5),
            Key::Up => self.scroll_up(1),
            Key::Down => self.scroll_down(1),
            Key::Other => {},
        }
        KeyAction::Continue
    }

    /// Shows and records at the given time that `text` has been sent, or that it
    /// could not be.
    pub fn sent_at(
        &mut self,
        text: String,
        went_out: bool,
        now: String,
        history: &mut Option<HistoryWriter>,
    )
        ensures
            final(self)@ == old(self)@.after_send(text@, went_out, now@),
            final(self)@.wf(),
            log_view(*final(history)) == if went_out {
                logged(log_view(*old(history)), message_line(now@, old(self)@.my_name, text@))
            } else {
                log_view(*old(history))
            },
    {
        if went_out {
            let msg = own_msg_at(self.my_name.clone(), text, now);
            record(
                history,
                msg.timestamp.as_str(),
                msg.sender.as_str(),
                msg.content.as_str(),
            );
            self.push(msg);
        } else {
            self.push(
                system_msg_at("Failed to send — connection may be broken.".to_owned(), now),
            );
            self.status = Status::ConnectionLost;
        }
        self.input = String::new();
        self.cursor_pos = 0;
        self.scroll_offset = 0;
    }

    /// Shows and records that `text` has just been sent, or that it could not be.
    pub fn sent(&mut self, text: String, went_out: bool, history: &mut Option<HistoryWriter>)
        ensures
            exists|now: Seq<char>|
                {
                    &&& is_time_of_day(now)
                    &&& final(self)@ == #[trigger] old(self)@.after_send(text@, went_out, now)
                    &&& log_view(*final(history)) == if went_out {
                        logged(
                            log_view(*old(history)),
                            message_line(now, old(self)@.my_name, text@),
                        )
                    } else {
                        log_view(*old(history))
                    }
                },
            final(self)@.wf(),
    {
        let now = time_of_day();
        let ghost at = now@;
        let ghost what = text@;
        self.sent_at(text, went_out, now, history);
        assert(self@ == old(self)@.after_send(what, went_out, at));
    }

    /// How many milliseconds to wait for a key before looking at the network
    /// again.
    pub fn poll_timeout(&self) -> (res: u64)
        ensures
            res == if self@.status == Status::Connected {
                50u64
            } else {
                100u64
            },
    {
        if self.status == Status::Connected {
            50
        } else {
            100
        }
    }
}

/// Records at the given time that the window has been closed.
pub fn end_session_at(history: &mut Option<HistoryWriter>, now: &str)
    ensures
        log_view(*final(history)) == logged(
            log_view(*old(history)),
            event_line("session ended"@, now@),
        ),
{
    match history {
        Some(h) => h.write_event_at("session ended", now),
        None => {},
    }
}

/// Records that the window has just been closed.
pub fn end_session(history: &mut Option<HistoryWriter>)
    ensures
        exists|now: Seq<char>|
            is_time_of_day(now) && log_view(*final(history)) == logged(
                log_view(*old(history)),
                #[trigger] event_line("session ended"@, now),
            ),
{
    let now = time_of_day();
    end_session_at(history, now.as_str());
    assert(log_view(*history) == logged(
        log_view(*old(history)),
        event_line("session ended"@, now@),
    ));
}

// ---------------------------------------------------------------------------
// Laws
// ---------------------------------------------------------------------------

/// Every key and every event keeps a window well-formed.
pub proof fn stays_well_formed(
    v: AppView,
    key: Key,
    ctrl: bool,
    event: EventView,
    text: Seq<char>,
    went_out: bool,
    now: Seq<char>,
)
    requires
        v.wf(),
    ensures
        v.after_key(key, ctrl).wf(),
        v.after_event(event, now).wf(),
        v.after_send(text, went_out, now).wf(),
{
}

impl AppView {
    /// The window after a text was typed, character by character.
    pub open spec fn after_typing(self, text: Seq<char>) -> AppView
        decreases text.len(),
    {
        if text.len() == 0 {
            self
        } else {
            self.after_typing(text.drop_last()).after_key(Key::Char(text.last()), false)
        }
    }
}

/// What is typed at the end of the input stands there, whatever the characters,
/// and Enter sends it.
pub proof fn typed_text_is_sent(v: AppView, text: Seq<char>)
    requires
        v.wf(),
        v.status == Status::Connected,
        v.cursor_pos == v.input.len(),
    ensures
        v.after_typing(text) == (AppView {
            input: v.input + text,
            cursor_pos: (v.input + text).len() as int,
            ..v
        }),
        v.after_typing(text).wf(),
        trimmed(v.input + text).len() > 0 && trimmed(v.input + text) != quit_text()
            ==> v.after_typing(text).action_of(Key::Enter, false) == ActionView::Send(
            trimmed(v.input + text),
        ),
    decreases text.len(),
{
    if text.len() == 0 {
        assert(v.input + text =~= v.input);
    } else {
        let shorter = v.input + text.drop_last();
        typed_text_is_sent(v, text.drop_last());
        assert(shorter.insert(shorter.len() as int, text.last()) =~= v.input + text);
    }
}

/// Backspace takes back what was typed, whatever the character.
pub proof fn backspace_undoes_typing(v: AppView, c: char, ctrl: bool)
    requires
        v.wf(),
        v.status == Status::Connected,
        !(ctrl && c == 'c'),
    ensures
        v.after_key(Key::Char(c), ctrl).after_key(Key::Backspace, false) == v,
{
    assert(v.input.insert(v.cursor_pos, c).remove(v.cursor_pos) =~= v.input);
}

/// Right takes back a step to the left, and the other way round.
pub proof fn steps_undo_each_other(v: AppView)
    requires
        v.wf(),
        v.status == Status::Connected,
    ensures
        v.cursor_pos > 0 ==> v.after_key(Key::Left, false).after_key(Key::Right, false) == v,
        v.cursor_pos < v.input.len() ==> v.after_key(Key::Right, false).after_key(
            Key::Left,
            false,
        ) == v,
{
}

/// Backspace does what a step to the left and Delete do.
pub proof fn backspace_is_left_and_delete(v: AppView)
    requires
        v.wf(),
        v.status == Status::Connected,
        v.cursor_pos > 0,
    ensures
        v.after_key(Key::Backspace, false) == v.after_key(Key::Left, false).after_key(
            Key::Delete,
            false,
        ),
{
}

/// Scrolling down takes back a scroll up that had room.
pub proof fn scroll_down_undoes_scroll_up(v: AppView, n: int)
    requires
        v.wf(),
        0 <= n,
        v.scroll_offset + n <= v.messages.len(),
    ensures
        v.scrolled_up(n).scrolled_down(n) == v,
{
}

/// The conversation is ended by Esc, by Ctrl+C and by entering `/quit`, and by
/// nothing else that is typed.
pub proof fn ways_to_quit(v: AppView, key: Key, ctrl: bool)
    requires
        v.status == Status::Connected,
    ensures
        v.action_of(key, ctrl) == ActionView::Quit <==> (key == Key::Esc || (key == Key::Char('c')
            && ctrl) || (key == Key::Enter && trimmed(v.input) == quit_text())),
        v.action_of(key, ctrl) == ActionView::Quit <==> v.after_key(key, ctrl).status
            == Status::Quit,
        v.action_of(key, ctrl) != ActionView::Close,
{
    reveal_strlit("/quit");
}

/// Once the conversation is over, every key closes the window and changes
/// nothing in it.
pub proof fn any_key_closes(v: AppView, key: Key, ctrl: bool)
    requires
        v.status != Status::Connected,
    ensures
        v.action_of(key, ctrl) == ActionView::Close,
        v.after_key(key, ctrl) == v,
{
}

/// Keys do not touch the conversation, and messages do not touch the input.
pub proof fn keys_and_messages_are_apart(
    v: AppView,
    key: Key,
    ctrl: bool,
    event: EventView,
    now: Seq<char>,
)
    ensures
        v.after_key(key, ctrl).messages == v.messages,
        v.after_event(event, now).input == v.input,
        v.after_event(event, now).cursor_pos == v.cursor_pos,
        v.after_event(event, now).scroll_offset == v.scroll_offset,
        v.messages.is_prefix_of(v.after_event(event, now).messages),
{
    assert(v.messages =~= v.after_event(event, now).messages.take(v.messages.len() as int));
}

/// A window, an action and a log are seen with each of their parts as they are.
pub proof fn window_parts(app: App, text: String, log: HistoryWriter, i: int)
    ensures
        app@.messages.len() == app.messages@.len(),
        0 <= i < app.messages@.len() ==> app@.messages[i] == app.messages@[i]@,
        app@.input == app.input@,
        app@.cursor_pos == app.cursor_pos,
        app@.scroll_offset == app.scroll_offset,
        app@.my_name == app.my_name@,
        app@.peer_name == app.peer_name@,
        app@.status == app.status,
        KeyAction::Continue@ == ActionView::Continue,
        KeyAction::Send(text)@ == ActionView::Send(text@),
        KeyAction::Quit@ == ActionView::Quit,
        KeyAction::Close@ == ActionView::Close,
        log_view(Some(log)) == Some(log@),
        log_view(None) is None,
{
}

/// What is recorded goes to the end of the log, where there is one.
pub proof fn recorded_in_the_log(log: HistoryView, line: Seq<char>)
    ensures
        logged(Some(log), line) == Some(
            HistoryView {
                dir: log.dir,
                file_name: log.file_name,
                pending: log.pending + line,
            },
        ),
        logged(None, line) is None,
{
}

/// A window is well-formed wherever the cursor stands in the input or at its end
/// and no more messages are skipped than there are.
pub proof fn well_formed_windows(v: AppView)
    ensures
        v.wf() <==> 0 <= v.cursor_pos && v.cursor_pos <= v.input.len() && 0 <= v.scroll_offset
            && v.scroll_offset <= v.messages.len(),
{
}

/// A window opens with two notices, the first of which names the peer in full,
/// and with nothing typed, skipped or lost.
pub proof fn window_opens(
    my_name: Seq<char>,
    peer_name: Seq<char>,
    first: Seq<char>,
    second: Seq<char>,
)
    ensures
        ({
            let v = AppView::opened(my_name, peer_name, first, second);
            &&& v.messages.len() == 2
            &&& v.messages[0] == (MessageView {
                timestamp: first,
                sender: Seq::empty(),
                content: "🔒  End-to-end encrypted session with "@ + peer_name + "  started."@,
                is_own: false,
                is_system: true,
            })
            &&& v.messages[1] == (MessageView {
                timestamp: second,
                sender: Seq::empty(),
                content: "PageUp/PageDown to scroll  ·  /quit or Esc to exit"@,
                is_own: false,
                is_system: true,
            })
            &&& v.input.len() == 0
            &&& v.cursor_pos == 0
            &&& v.scroll_offset == 0
            &&& v.my_name == my_name
            &&& v.peer_name == peer_name
            &&& v.status == Status::Connected
        }),
        AppView::empty(my_name, peer_name).messages.len() == 0,
        AppView::empty(my_name, peer_name).input.len() == 0,
        AppView::empty(my_name, peer_name).my_name == my_name,
        AppView::empty(my_name, peer_name).peer_name == peer_name,
        AppView::empty(my_name, peer_name).status == Status::Connected,
{
}

/// A message that is added is the last, whole, and the others stay as they are;
/// nothing else in the window changes.
pub proof fn added_message_is_last(v: AppView, m: MessageView)
    ensures
        v.with(m).messages.len() == v.messages.len() + 1,
        v.with(m).messages.last() == m,
        v.with(m).messages.drop_last() == v.messages,
        v.with(m).input == v.input,
        v.with(m).cursor_pos == v.cursor_pos,
        v.with(m).scroll_offset == v.scroll_offset,
        v.with(m).my_name == v.my_name,
        v.with(m).peer_name == v.peer_name,
        v.with(m).status == v.status,
{
    assert(v.with(m).messages.drop_last() =~= v.messages);
}

/// Scrolling goes as far as asked, but not beyond the oldest or the latest
/// message, and changes nothing else.
pub proof fn scrolling_stops_at_the_ends(v: AppView, n: int)
    requires
        v.wf(),
        0 <= n,
    ensures
        v.scrolled_up(n).scroll_offset <= v.messages.len(),
        v.scrolled_up(n).scroll_offset == v.scroll_offset + n || (v.scrolled_up(n).scroll_offset
            == v.messages.len() && v.scroll_offset + n > v.messages.len()),
        v.scrolled_down(n).scroll_offset >= 0,
        v.scrolled_down(n).scroll_offset == v.scroll_offset - n || (v.scrolled_down(n).scroll_offset
            == 0 && v.scroll_offset < n),
        v.scrolled_up(n) == (AppView { scroll_offset: v.scrolled_up(n).scroll_offset, ..v }),
        v.scrolled_down(n) == (AppView { scroll_offset: v.scrolled_down(n).scroll_offset, ..v }),
{
}

/// A scroll up from beyond the oldest message ends at the oldest.
pub proof fn scrolling_from_beyond(v: AppView, n: int)
    requires
        v.scroll_offset > v.messages.len(),
        0 <= n,
    ensures
        v.scrolled_up(n).scroll_offset == v.messages.len(),
{
}

/// The scroll keys move by one message or by five, and touch nothing else.
pub proof fn scroll_keys(v: AppView, ctrl: bool)
    requires
        v.wf(),
        v.status == Status::Connected,
    ensures
        v.after_key(Key::Up, ctrl) == v.scrolled_up(1),
        v.after_key(Key::Down, ctrl) == v.scrolled_down(1),
        v.after_key(Key::PageUp, ctrl) == v.scrolled_up(5),
        v.after_key(Key::PageDown, ctrl) == v.scrolled_down(5),
        v.scroll_offset + 5 <= v.messages.len() ==> v.after_key(Key::PageUp, ctrl).scroll_offset
            == v.scroll_offset + 5,
        v.scroll_offset >= 5 ==> v.after_key(Key::PageDown, ctrl).scroll_offset == v.scroll_offset
            - 5,
        v.scroll_offset < v.messages.len() ==> v.after_key(Key::Up, ctrl).scroll_offset
            == v.scroll_offset + 1,
        v.scroll_offset >= 1 ==> v.after_key(Key::Down, ctrl).scroll_offset == v.scroll_offset - 1,
{
}

/// A typed character stands where the cursor was, between what stood before it
/// and what stood behind it, and the cursor stands behind it.
pub proof fn typed_character_is_inserted(v: AppView, c: char, ctrl: bool)
    requires
        v.wf(),
        v.status == Status::Connected,
        !(ctrl && c == 'c'),
    ensures
        v.after_key(Key::Char(c), ctrl).input == v.input.take(v.cursor_pos) + seq![c]
            + v.input.skip(v.cursor_pos),
        v.after_key(Key::Char(c), ctrl).cursor_pos == v.cursor_pos + 1,
        v.after_key(Key::Char(c), ctrl) == (AppView {
            input: v.after_key(Key::Char(c), ctrl).input,
            cursor_pos: v.after_key(Key::Char(c), ctrl).cursor_pos,
            ..v
        }),
{
    assert(v.after_key(Key::Char(c), ctrl).input =~= v.input.take(v.cursor_pos) + seq![c]
        + v.input.skip(v.cursor_pos));
}

/// Backspace takes away the character before the cursor and Delete the one behind
/// it; at an end of the input there is none to take.
pub proof fn characters_are_taken_away(v: AppView, ctrl: bool)
    requires
        v.wf(),
        v.status == Status::Connected,
    ensures
        v.cursor_pos > 0 ==> v.after_key(Key::Backspace, ctrl) == (AppView {
            input: v.input.take(v.cursor_pos - 1) + v.input.skip(v.cursor_pos),
            cursor_pos: v.cursor_pos - 1,
            ..v
        }),
        v.cursor_pos == 0 ==> v.after_key(Key::Backspace, ctrl) == v,
        v.cursor_pos < v.input.len() ==> v.after_key(Key::Delete, ctrl) == (AppView {
            input: v.input.take(v.cursor_pos) + v.input.skip(v.cursor_pos + 1),
            ..v
        }),
        v.cursor_pos == v.input.len() ==> v.after_key(Key::Delete, ctrl) == v,
{
    if v.cursor_pos > 0 {
        assert(v.input.remove(v.cursor_pos - 1) =~= v.input.take(v.cursor_pos - 1) + v.input.skip(
            v.cursor_pos,
        ));
    }
    if v.cursor_pos < v.input.len() {
        assert(v.input.remove(v.cursor_pos) =~= v.input.take(v.cursor_pos) + v.input.skip(
            v.cursor_pos + 1,
        ));
    }
}

/// The cursor keys move the cursor by one character or to an end of the input,
/// never out of it, and change nothing else.
pub proof fn cursor_keys(v: AppView, ctrl: bool)
    requires
        v.wf(),
        v.status == Status::Connected,
    ensures
        v.cursor_pos > 0 ==> v.after_key(Key::Left, ctrl) == (AppView {
            cursor_pos: v.cursor_pos - 1,
            ..v
        }),
        v.cursor_pos == 0 ==> v.after_key(Key::Left, ctrl) == v,
        v.cursor_pos < v.input.len() ==> v.after_key(Key::Right, ctrl) == (AppView {
            cursor_pos: v.cursor_pos + 1,
            ..v
        }),
        v.cursor_pos == v.input.len() ==> v.after_key(Key::Right, ctrl) == v,
        v.after_key(Key::Home, ctrl) == (AppView { cursor_pos: 0, ..v }),
        v.after_key(Key::End, ctrl) == (AppView { cursor_pos: v.input.len() as int, ..v }),
        v.after_key(Key::Other, ctrl) == v,
{
}

/// Enter asks to send the whole input without the white space around it, wherever
/// the cursor stands, and leaves the input for the report on what became of it.
/// Of white space alone nothing comes.
pub proof fn enter_sends_the_whole_input(v: AppView, ctrl: bool, cursor: int)
    requires
        v.status == Status::Connected,
    ensures
        trimmed(v.input).len() > 0 && trimmed(v.input) != "/quit"@ ==> v.action_of(Key::Enter, ctrl)
            == ActionView::Send(trimmed(v.input)),
        trimmed(v.input).len() == 0 ==> v.action_of(Key::Enter, ctrl) == ActionView::Continue,
        trimmed(v.input) != "/quit"@ ==> v.after_key(Key::Enter, ctrl) == v,
        v.action_of(Key::Enter, ctrl) == (AppView { cursor_pos: cursor, ..v }).action_of(
            Key::Enter,
            ctrl,
        ),
{
    reveal_strlit("/quit");
}

/// Quitting changes the state and nothing else.
pub proof fn quitting_keeps_the_window(v: AppView, ctrl: bool)
    requires
        v.status == Status::Connected,
    ensures
        v.after_key(Key::Esc, ctrl) == (AppView { status: Status::Quit, ..v }),
        v.after_key(Key::Char('c'), true) == (AppView { status: Status::Quit, ..v }),
        trimmed(v.input) == "/quit"@ ==> v.after_key(Key::Enter, ctrl) == (AppView {
            status: Status::Quit,
            ..v
        }),
{
}

/// No key but Enter asks to send, and no key asks anything else than to send or
/// to quit.
pub proof fn only_enter_sends(v: AppView, key: Key, ctrl: bool)
    requires
        v.status == Status::Connected,
        key != Key::Enter,
    ensures
        v.action_of(key, ctrl) == ActionView::Quit || v.action_of(key, ctrl)
            == ActionView::Continue,
        key is Char && !(key == Key::Char('c') && ctrl) ==> v.action_of(key, ctrl)
            == ActionView::Continue,
{
}

/// A message that arrives is shown whole, and what ends the conversation is shown
/// as a notice with its time; who comes and goes is not shown.
pub proof fn events_are_shown(
    v: AppView,
    m: MessageView,
    name: Seq<char>,
    names: Seq<Seq<char>>,
    now: Seq<char>,
)
    ensures
        v.after_event(EventView::Message(m), now) == (AppView {
            messages: v.messages + seq![m],
            ..v
        }),
        v.after_event(EventView::PeerLeft, now) == (AppView {
            messages: v.messages + seq![
                MessageView {
                    timestamp: now,
                    sender: Seq::empty(),
                    content: v.peer_name + " has left the chat."@,
                    is_own: false,
                    is_system: true,
                },
            ],
            status: Status::PeerLeft,
            ..v
        }),
        v.after_event(EventView::ConnectionLost, now) == (AppView {
            messages: v.messages + seq![
                MessageView {
                    timestamp: now,
                    sender: Seq::empty(),
                    content: "Connection lost."@,
                    is_own: false,
                    is_system: true,
                },
            ],
            status: Status::ConnectionLost,
            ..v
        }),
        v.after_event(EventView::UserJoined(name), now) == v,
        v.after_event(EventView::UserLeft(name), now) == v,
        v.after_event(EventView::RoomInfo(names), now) == v,
{
    assert(v.after_event(EventView::Message(m), now).messages =~= v.messages + seq![m]);
    assert(v.after_event(EventView::PeerLeft, now).messages =~= v.messages + seq![
        MessageView {
            timestamp: now,
            sender: Seq::empty(),
            content: v.peer_name + " has left the chat."@,
            is_own: false,
            is_system: true,
        },
    ]);
    assert(v.after_event(EventView::ConnectionLost, now).messages =~= v.messages + seq![
        MessageView {
            timestamp: now,
            sender: Seq::empty(),
            content: "Connection lost."@,
            is_own: false,
            is_system: true,
        },
    ]);
}

/// What was sent is shown whole as one's own message, and a failure as a notice
/// that ends the conversation. Either way nothing is left in the input, and the
/// latest messages are in sight.
pub proof fn sending_is_shown(v: AppView, text: Seq<char>, now: Seq<char>)
    ensures
        v.after_send(text, true, now) == (AppView {
            messages: v.messages + seq![
                MessageView {
                    timestamp: now,
                    sender: v.my_name,
                    content: text,
                    is_own: true,
                    is_system: false,
                },
            ],
            input: Seq::empty(),
            cursor_pos: 0,
            scroll_offset: 0,
            ..v
        }),
        v.after_send(text, false, now) == (AppView {
            messages: v.messages + seq![
                MessageView {
                    timestamp: now,
                    sender: Seq::empty(),
                    content: "Failed to send — connection may be broken."@,
                    is_own: false,
                    is_system: true,
                },
            ],
            input: Seq::empty(),
            cursor_pos: 0,
            scroll_offset: 0,
            status: Status::ConnectionLost,
            ..v
        }),
{
    assert(v.after_send(text, true, now).messages =~= v.messages + seq![
        MessageView {
            timestamp: now,
            sender: v.my_name,
            content: text,
            is_own: true,
            is_system: false,
        },
    ]);
    assert(v.after_send(text, false, now).messages =~= v.messages + seq![
        MessageView {
            timestamp: now,
            sender: Seq::empty(),
            content: "Failed to send — connection may be broken."@,
            is_own: false,
            is_system: true,
        },
    ]);
}

/// A notification names the sender and shows the whole content.
pub proof fn notification_shows_the_message(sender: Seq<char>, content: Seq<char>)
    ensures
        notification_args(sender, content).len() == 5,
        notification_args(sender, content)[0] == "--icon=user-available"@,
        notification_args(sender, content)[1] == "--urgency=normal"@,
        notification_args(sender, content)[2] == "--expire-time=5000"@,
        notification_args(sender, content)[3] == "LocalChat — "@ + sender,
        notification_args(sender, content)[4] == content,
{
}

} // verus!
