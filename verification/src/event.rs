//! What the chat window is told.
use vstd::prelude::*;

use crate::clock::{is_time_of_day, time_of_day};
use crate::text::views;

verus! {

/// A line of the conversation.
pub struct ChatMessage {
    pub timestamp: String,
    pub sender: String,
    pub content: String,
    pub is_own: bool,
    pub is_system: bool,
}

/// The contents of a `ChatMessage`.
#[verifier::ext_equal]
pub struct MessageView {
    pub timestamp: Seq<char>,
    pub sender: Seq<char>,
    pub content: Seq<char>,
    pub is_own: bool,
    pub is_system: bool,
}

impl View for ChatMessage {
    type V = MessageView;

    open spec fn view(&self) -> MessageView {
        MessageView {
            timestamp: self.timestamp@,
            sender: self.sender@,
            content: self.content@,
            is_own: self.is_own,
            is_system: self.is_system,
        }
    }
}

impl MessageView {
    /// A notice of the program itself.
    pub open spec fn system(content: Seq<char>, now: Seq<char>) -> MessageView {
        MessageView { timestamp: now, sender: seq![], content, is_own: false, is_system: true }
    }

    /// A message that the user of this program has sent.
    pub open spec fn own(sender: Seq<char>, content: Seq<char>, now: Seq<char>) -> MessageView {
        MessageView { timestamp: now, sender, content, is_own: true, is_system: false }
    }

    /// A message of somebody else.
    pub open spec fn other(sender: Seq<char>, content: Seq<char>, now: Seq<char>) -> MessageView {
        MessageView { timestamp: now, sender, content, is_own: false, is_system: false }
    }
}

/// Something that happened on the network.
pub enum AppEvent {
    /// Somebody wrote a message.
    Message(ChatMessage),
    /// The other side has ended the conversation.
    PeerLeft,
    /// The connection has broken.
    ConnectionLost,
    /// Somebody has joined the room.
    UserJoined(String),
    /// Somebody has left the room.
    UserLeft(String),
    /// Everybody who is in the room.
    RoomInfo(Vec<String>),
}

/// The contents of an `AppEvent`.
pub enum EventView {
    Message(MessageView),
    PeerLeft,
    ConnectionLost,
    UserJoined(Seq<char>),
    UserLeft(Seq<char>),
    RoomInfo(Seq<Seq<char>>),
}

impl View for AppEvent {
    type V = EventView;

    open spec fn view(&self) -> EventView {
        match *self {
            AppEvent::Message(m) => EventView::Message(m@),
            AppEvent::PeerLeft => EventView::PeerLeft,
            AppEvent::ConnectionLost => EventView::ConnectionLost,
            AppEvent::UserJoined(name) => EventView::UserJoined(name@),
            AppEvent::UserLeft(name) => EventView::UserLeft(name@),
            AppEvent::RoomInfo(names) => EventView::RoomInfo(views(names@)),
        }
    }
}

/// The contents of an optional event.
pub open spec fn event_view(event: Option<AppEvent>) -> Option<EventView> {
    match event {
        Some(e) => Some(e@),
        None => None,
    }
}

/// A notice of the program itself, at the given time.
pub fn system_msg_at(content: String, now: String) -> (res: ChatMessage)
    ensures
        res@ == MessageView::system(content@, now@),
{
    ChatMessage { timestamp: now, sender: String::new(), content, is_own: false, is_system: true }
}

/// A notice of the program itself.
pub fn system_msg(content: String) -> (res: ChatMessage)
    ensures
        is_time_of_day(res@.timestamp),
        res@ == MessageView::system(content@, res@.timestamp),
{
    system_msg_at(content, time_of_day())
}

/// A message that the user of this program sends at the given time.
pub fn own_msg_at(sender: String, content: String, now: String) -> (res: ChatMessage)
    ensures
        res@ == MessageView::own(sender@, content@, now@),
{
    ChatMessage { timestamp: now, sender, content, is_own: true, is_system: false }
}

/// A message that the user of this program sends now.
pub fn own_msg(sender: String, content: String) -> (res: ChatMessage)
    ensures
        is_time_of_day(res@.timestamp),
        res@ == MessageView::own(sender@, content@, res@.timestamp),
{
    own_msg_at(sender, content, time_of_day())
}

/// A message is seen with each of its parts as it is.
pub proof fn message_parts(m: ChatMessage)
    ensures
        m@.timestamp == m.timestamp@,
        m@.sender == m.sender@,
        m@.content == m.content@,
        m@.is_own == m.is_own,
        m@.is_system == m.is_system,
{
}

/// An event is seen as what it is, with all that it holds.
pub proof fn event_parts(m: ChatMessage, name: String, names: Vec<String>)
    ensures
        AppEvent::Message(m)@ == EventView::Message(m@),
        AppEvent::PeerLeft@ == EventView::PeerLeft,
        AppEvent::ConnectionLost@ == EventView::ConnectionLost,
        AppEvent::UserJoined(name)@ == EventView::UserJoined(name@),
        AppEvent::UserLeft(name)@ == EventView::UserLeft(name@),
        AppEvent::RoomInfo(names)@ == EventView::RoomInfo(views(names@)),
        event_view(None) is None,
        event_view(Some(AppEvent::Message(m))) == Some(EventView::Message(m@)),
        event_view(Some(AppEvent::PeerLeft)) == Some(EventView::PeerLeft),
        event_view(Some(AppEvent::ConnectionLost)) == Some(EventView::ConnectionLost),
        event_view(Some(AppEvent::UserJoined(name))) == Some(EventView::UserJoined(name@)),
        event_view(Some(AppEvent::UserLeft(name))) == Some(EventView::UserLeft(name@)),
        event_view(Some(AppEvent::RoomInfo(names))) == Some(EventView::RoomInfo(views(names@))),
{
}

/// Whoever a message is from, it holds the whole content and the time; only a
/// notice has no sender, and only one's own message is one's own.
pub proof fn who_wrote_it(sender: Seq<char>, content: Seq<char>, now: Seq<char>)
    ensures
        MessageView::system(content, now) == (MessageView {
            timestamp: now,
            sender: Seq::empty(),
            content,
            is_own: false,
            is_system: true,
        }),
        MessageView::own(sender, content, now) == (MessageView {
            timestamp: now,
            sender,
            content,
            is_own: true,
            is_system: false,
        }),
        MessageView::other(sender, content, now) == (MessageView {
            timestamp: now,
            sender,
            content,
            is_own: false,
            is_system: false,
        }),
{
}

} // verus!
