//! The texts that travel inside the encrypted lines.
//!
//! A client sends raw text, or `/quit`. A server sends `MSG|<sender>|<content>`,
//! `JOIN|<name>`, `LEAVE|<name>` and `ROOM|<name>|<name>|…`. Both introduce
//! themselves with `HELLO:<name>`.
use vstd::prelude::*;
use vstd::seq_lib::{to_multiset_build, to_multiset_contains, to_multiset_len};

use crate::clock::{is_time_of_day, time_of_day};
use crate::event::{event_view, AppEvent, ChatMessage, EventView, MessageView};
use crate::text::{
    after_prefix, find, find_behind, find_first, holds_name, in_order, join, join_text, lex_le,
    prefix_and_rest, prefixes_come_off, same_text, sort_names, split, split_join, split_text,
    strip_prefix, strip_prefixes, trimmed, views, without_prefixes,
};

verus! {

/// The text that ends a conversation.
pub open spec fn quit_text() -> Seq<char> {
    "/quit"@
}

/// The text with which a side introduces itself.
pub open spec fn hello_text(name: Seq<char>) -> Seq<char> {
    "HELLO:"@ + name
}

/// The text that passes a message on.
pub open spec fn msg_text(sender: Seq<char>, content: Seq<char>) -> Seq<char> {
    "MSG|"@ + sender + "|"@ + content
}

/// The text that announces a new member.
pub open spec fn joined_text(name: Seq<char>) -> Seq<char> {
    "JOIN|"@ + name
}

/// The text that announces that a member has left.
pub open spec fn left_text(name: Seq<char>) -> Seq<char> {
    "LEAVE|"@ + name
}

/// The text that lists the members of the room.
pub open spec fn room_text(names: Seq<Seq<char>>) -> Seq<char> {
    "ROOM|"@ + join(names, '|')
}

/// The name in an introduction.
pub open spec fn hello_name(text: Seq<char>) -> Seq<char> {
    trimmed(without_prefixes(text, "HELLO:"@))
}

/// The names in a list of members; none, where the text is no such list.
pub open spec fn room_names(text: Seq<char>) -> Seq<Seq<char>> {
    match after_prefix(text, "ROOM|"@) {
        Some(rest) => split(rest, '|'),
        None => seq![],
    }
}

/// The event that a server's text stands for.
pub open spec fn parsed(text: Seq<char>, now: Seq<char>) -> Option<EventView> {
    let i = find(text, '|') as int;
    if i >= text.len() {
        if text == "ROOM"@ {
            Some(EventView::RoomInfo(seq![]))
        } else {
            None
        }
    } else {
        let tag = text.take(i);
        let rest = text.skip(i + 1);
        let j = find(rest, '|') as int;
        if tag == "MSG"@ && j < rest.len() {
            Some(EventView::Message(MessageView::other(rest.take(j), rest.skip(j + 1), now)))
        } else if tag == "JOIN"@ && j >= rest.len() {
            Some(EventView::UserJoined(rest))
        } else if tag == "LEAVE"@ && j >= rest.len() {
            Some(EventView::UserLeft(rest))
        } else if tag == "ROOM"@ {
            Some(EventView::RoomInfo(split(rest, '|')))
        } else {
            None
        }
    }
}

/// Whether `sorted` holds the same names as `names`, in order.
pub open spec fn ordering_of(sorted: Seq<Seq<char>>, names: Seq<Seq<char>>) -> bool {
    in_order(sorted) && sorted.to_multiset() == names.to_multiset()
}

/// `names`, and `name` too where they do not hold it.
pub open spec fn with_name(names: Seq<Seq<char>>, name: Seq<char>) -> Seq<Seq<char>> {
    if names.contains(name) {
        names
    } else {
        names.push(name)
    }
}

/// Whether a text ends the conversation.
pub fn is_quit(text: &str) -> (res: bool)
    ensures
        res == (text@ == quit_text()),
{
    same_text(text, "/quit")
}

/// The text that ends a conversation.
pub fn quit() -> (res: String)
    ensures
        res@ == quit_text(),
{
    "/quit".to_owned()
}

/// Introduces a side.
pub fn hello(name: &str) -> (res: String)
    ensures
        res@ == hello_text(name@),
{
    let mut res = "HELLO:".to_owned();
    res.append(name);
    res
}

/// Reads the name in an introduction.
pub fn read_hello(text: &str) -> (res: String)
    ensures
        res@ == hello_name(text@),
{
    proof {
        reveal_strlit("HELLO:");
    }
    strip_prefixes(text, "HELLO:").trim().to_owned()
}

/// Passes a message on.
pub fn message(sender: &str, content: &str) -> (res: String)
    ensures
        res@ == msg_text(sender@, content@),
{
    let mut res = "MSG|".to_owned();
    res.append(sender);
    res.append("|");
    res.append(content);
    res
}

/// Announces a new member.
pub fn joined(name: &str) -> (res: String)
    ensures
        res@ == joined_text(name@),
{
    let mut res = "JOIN|".to_owned();
    res.append(name);
    res
}

/// Announces that a member has left.
pub fn left(name: &str) -> (res: String)
    ensures
        res@ == left_text(name@),
{
    let mut res = "LEAVE|".to_owned();
    res.append(name);
    res
}

/// Lists the members of the room.
pub fn room(names: &Vec<String>) -> (res: String)
    ensures
        res@ == room_text(views(names@)),
{
    let mut res = "ROOM|".to_owned();
    res.append(join_text(names, '|').as_str());
    res
}

/// Cuts a text at its first `|`.
fn cut<'a>(text: &'a str) -> (res: Option<(&'a str, &'a str)>)
    ensures
        match res {
            Some((head, tail)) => {
                let i = find(text@, '|') as int;
                i < text@.len() && head@ == text@.take(i) && tail@ == text@.skip(i + 1)
            },
            None => find(text@, '|') == text@.len(),
        },
{
    let mut n: usize = 0;
    let total: usize = text.unicode_len();
    proof {
        find_first(text@, '|');
    }
    for c in it: text.chars()
        invariant
            it.seq() == text@,
            n == it.index(),
            total == text@.len(),
            n <= find(text@, '|') <= text@.len(),
            find(text@, '|') < text@.len() ==> text@[find(text@, '|') as int] == '|',
            forall|j: int| 0 <= j < find(text@, '|') ==> text@[j] != '|',
    {
        if c == '|' {
            assert(text@[n as int] == '|');
            let head = text.substring_char(0, n);
            let tail = text.substring_char(n + 1, total);
            assert(head@ =~= text@.take(n as int));
            assert(tail@ =~= text@.skip(n + 1));
            return Some((head, tail));
        }
        n = n + 1;
    }
    None
}

/// Decodes a server's text that came at the given time. Unknown texts stand for
/// no event.
pub fn parse_server_msg_at(text: &str, now: String) -> (res: Option<AppEvent>)
    ensures
        event_view(res) == parsed(text@, now@),
{
    match cut(text) {
        None => {
            if same_text(text, "ROOM") {
                let names: Vec<String> = Vec::new();
                assert(views(names@) =~= seq![]);
                Some(AppEvent::RoomInfo(names))
            } else {
                None
            }
        },
        Some((tag, rest)) => {
            proof {
                find_first(rest@, '|');
                reveal_strlit("MSG");
                reveal_strlit("JOIN");
                reveal_strlit("LEAVE");
                reveal_strlit("ROOM");
                assert("MSG"@.len() == 3 && "JOIN"@.len() == 4 && "LEAVE"@.len() == 5);
                assert("JOIN"@[0] == 'J' && "ROOM"@[0] == 'R');
            }
            if same_text(tag, "ROOM") {
                return Some(AppEvent::RoomInfo(split_text(rest, '|')));
            }
            match cut(rest) {
                Some((sender, content)) => {
                    if same_text(tag, "MSG") {
                        Some(
                            AppEvent::Message(
                                ChatMessage {
                                    timestamp: now,
                                    sender: sender.to_owned(),
                                    content: content.to_owned(),
                                    is_own: false,
                                    is_system: false,
                                },
                            ),
                        )
                    } else {
                        None
                    }
                },
                None => {
                    if same_text(tag, "JOIN") {
                        Some(AppEvent::UserJoined(rest.to_owned()))
                    } else if same_text(tag, "LEAVE") {
                        Some(AppEvent::UserLeft(rest.to_owned()))
                    } else {
                        None
                    }
                },
            }
        },
    }
}

/// Decodes a server's text that came just now.
pub fn parse_server_msg(text: &str) -> (res: Option<AppEvent>)
    ensures
        exists|now: Seq<char>|
            is_time_of_day(now) && event_view(res) == #[trigger] parsed(text@, now),
{
    let now = time_of_day();
    let ghost at = now@;
    let res = parse_server_msg_at(text, now);
    assert(event_view(res) == parsed(text@, at));
    res
}

/// Reads a list of members. A text that is none gives no names.
pub fn read_room(text: &str) -> (res: Vec<String>)
    ensures
        views(res@) == room_names(text@),
{
    match strip_prefix(text, "ROOM|") {
        Some(rest) => split_text(rest, '|'),
        None => {
            let names: Vec<String> = Vec::new();
            assert(views(names@) =~= seq![]);
            names
        },
    }
}

/// The members that a newcomer shows at first: those that the server listed,
/// where it did, and the newcomer, in order.
pub fn initial_users(reply: Option<&str>, my_name: &str) -> (res: Vec<String>)
    ensures
        ordering_of(
            views(res@),
            with_name(
                match reply {
                    Some(text) => room_names(text@),
                    None => seq![],
                },
                my_name@,
            ),
        ),
{
    let mut names: Vec<String> = match reply {
        Some(text) => read_room(text),
        None => {
            let names: Vec<String> = Vec::new();
            assert(views(names@) =~= seq![]);
            names
        },
    };
    if !holds_name(&names, my_name) {
        let ghost before = views(names@);
        names.push(my_name.to_owned());
        assert(views(names@) =~= before.push(my_name@));
    }
    sort_names(&mut names);
    names
}

/// Reads back the name with which somebody introduced themselves, where it has
/// no white space around it and does not itself begin like an introduction.
pub proof fn hello_round_trip(name: Seq<char>)
    requires
        trimmed(name) == name,
        !"HELLO:"@.is_prefix_of(name),
    ensures
        hello_name(hello_text(name)) == name,
{
    reveal_strlit("HELLO:");
    let text = hello_text(name);
    assert("HELLO:"@.is_prefix_of(text)) by {
        assert(text.subrange(0, 6) =~= "HELLO:"@);
    }
    assert(text.skip(6) =~= name);
    assert(without_prefixes(name, "HELLO:"@) == name);
    assert(without_prefixes(text, "HELLO:"@) == name);
}

/// A tag, a `|` and more text are cut where the tag ends.
proof fn tag_ends(text: Seq<char>, tag: Seq<char>, rest: Seq<char>)
    requires
        !tag.contains('|'),
        text == tag.push('|') + rest,
    ensures
        find(text, '|') == tag.len(),
        text.take(tag.len() as int) == tag,
        text.skip(tag.len() as int + 1) == rest,
{
    find_behind(tag, rest, '|');
    assert(text.take(tag.len() as int) =~= tag);
    assert(text.skip(tag.len() as int + 1) =~= rest);
}

/// A message that is passed on arrives with its sender and its content, whatever
/// the content, where the sender's name holds no `|`.
pub proof fn message_round_trip(sender: Seq<char>, content: Seq<char>, now: Seq<char>)
    requires
        !sender.contains('|'),
    ensures
        parsed(msg_text(sender, content), now) == Some(
            EventView::Message(MessageView::other(sender, content, now)),
        ),
{
    reveal_strlit("MSG|");
    reveal_strlit("MSG");
    reveal_strlit("|");
    let rest = sender.push('|') + content;
    let text = msg_text(sender, content);
    assert(text =~= "MSG"@.push('|') + rest);
    tag_ends(text, "MSG"@, rest);
    tag_ends(rest, sender, content);
}

/// The announcement of a new member arrives with the name, where it holds no
/// `|`.
pub proof fn joined_round_trip(name: Seq<char>, now: Seq<char>)
    requires
        !name.contains('|'),
    ensures
        parsed(joined_text(name), now) == Some(EventView::UserJoined(name)),
{
    reveal_strlit("JOIN|");
    reveal_strlit("JOIN");
    reveal_strlit("MSG");
    assert(joined_text(name) =~= "JOIN"@.push('|') + name);
    tag_ends(joined_text(name), "JOIN"@, name);
    find_first(name, '|');
}

/// The announcement that a member has left arrives with the name, where it holds
/// no `|`.
pub proof fn left_round_trip(name: Seq<char>, now: Seq<char>)
    requires
        !name.contains('|'),
    ensures
        parsed(left_text(name), now) == Some(EventView::UserLeft(name)),
{
    reveal_strlit("LEAVE|");
    reveal_strlit("LEAVE");
    reveal_strlit("MSG");
    reveal_strlit("JOIN");
    assert(left_text(name) =~= "LEAVE"@.push('|') + name);
    tag_ends(left_text(name), "LEAVE"@, name);
    find_first(name, '|');
}

/// A list of members arrives name for name, both where a newcomer reads it and
/// where it comes later, where it is not empty and no name holds a `|`.
pub proof fn room_round_trip(names: Seq<Seq<char>>, now: Seq<char>)
    requires
        names.len() > 0,
        forall|i: int| 0 <= i < names.len() ==> !(#[trigger] names[i]).contains('|'),
    ensures
        room_names(room_text(names)) == names,
        parsed(room_text(names), now) == Some(EventView::RoomInfo(names)),
{
    reveal_strlit("ROOM|");
    reveal_strlit("ROOM");
    reveal_strlit("MSG");
    reveal_strlit("JOIN");
    reveal_strlit("LEAVE");
    let rest = join(names, '|');
    let text = room_text(names);
    split_join(names, '|');
    assert("ROOM|"@.is_prefix_of(text)) by {
        assert(text.subrange(0, 5) =~= "ROOM|"@);
    }
    assert(text.skip(5) =~= rest);
    assert(text =~= "ROOM"@.push('|') + rest);
    tag_ends(text, "ROOM"@, rest);
    assert("JOIN"@[0] == 'J');
    assert("ROOM"@[0] == 'R');
}

/// A text whose part before the first `|` is no known tag stands for no event.
pub proof fn unknown_tag_is_ignored(text: Seq<char>, now: Seq<char>)
    requires
        text.take(find(text, '|') as int) != "MSG"@,
        text.take(find(text, '|') as int) != "JOIN"@,
        text.take(find(text, '|') as int) != "LEAVE"@,
        text.take(find(text, '|') as int) != "ROOM"@,
    ensures
        parsed(text, now) is None,
{
    find_first(text, '|');
    assert(text.take(text.len() as int) =~= text);
}

/// Each text of the protocol is its tag with the names and the content as they
/// are behind it.
pub proof fn texts_hold_what_they_carry(name: Seq<char>, content: Seq<char>, names: Seq<Seq<char>>)
    ensures
        quit_text() == seq!['/', 'q', 'u', 'i', 't'],
        hello_text(name) == seq!['H', 'E', 'L', 'L', 'O', ':'] + name,
        msg_text(name, content) == seq!['M', 'S', 'G', '|'] + name + seq!['|'] + content,
        joined_text(name) == seq!['J', 'O', 'I', 'N', '|'] + name,
        left_text(name) == seq!['L', 'E', 'A', 'V', 'E', '|'] + name,
        room_text(names) == seq!['R', 'O', 'O', 'M', '|'] + join(names, '|'),
{
    reveal_strlit("/quit");
    reveal_strlit("HELLO:");
    reveal_strlit("MSG|");
    reveal_strlit("|");
    reveal_strlit("JOIN|");
    reveal_strlit("LEAVE|");
    reveal_strlit("ROOM|");
    assert("/quit"@ =~= seq!['/', 'q', 'u', 'i', 't']);
    assert("HELLO:"@ =~= seq!['H', 'E', 'L', 'L', 'O', ':']);
    assert("MSG|"@ =~= seq!['M', 'S', 'G', '|']);
    assert("|"@ =~= seq!['|']);
    assert("JOIN|"@ =~= seq!['J', 'O', 'I', 'N', '|']);
    assert("LEAVE|"@ =~= seq!['L', 'E', 'A', 'V', 'E', '|']);
    assert("ROOM|"@ =~= seq!['R', 'O', 'O', 'M', '|']);
}

/// The name in an introduction is what is left when every `HELLO:` in front and
/// the white space around are gone: a further `HELLO:` makes no difference, and
/// without one only white space goes.
pub proof fn name_behind_the_introductions(text: Seq<char>)
    ensures
        hello_name("HELLO:"@ + text) == hello_name(text),
        !"HELLO:"@.is_prefix_of(text) ==> hello_name(text) == trimmed(text),
{
    reveal_strlit("HELLO:");
    prefixes_come_off(text, "HELLO:"@);
}

/// A newcomer reads the pieces behind `ROOM|`, and from any other text nothing.
pub proof fn names_behind_the_tag(text: Seq<char>, rest: Seq<char>)
    ensures
        text == "ROOM|"@ + rest ==> room_names(text) == split(rest, '|'),
        !"ROOM|"@.is_prefix_of(text) ==> room_names(text).len() == 0,
{
    prefix_and_rest(text, "ROOM|"@, rest);
}

/// A list of members is read whatever its names, and so is one without any.
pub proof fn any_list_is_read(rest: Seq<char>, now: Seq<char>)
    ensures
        parsed("ROOM|"@ + rest, now) == Some(EventView::RoomInfo(split(rest, '|'))),
        parsed("ROOM"@, now) == Some(EventView::RoomInfo(Seq::empty())),
{
    reveal_strlit("ROOM|");
    reveal_strlit("ROOM");
    reveal_strlit("MSG");
    reveal_strlit("JOIN");
    reveal_strlit("LEAVE");
    assert("ROOM|"@ + rest =~= "ROOM"@.push('|') + rest);
    tag_ends("ROOM|"@ + rest, "ROOM"@, rest);
    find_first("ROOM"@, '|');
    assert("JOIN"@[0] == 'J');
    assert("ROOM"@[0] == 'R');
}

/// A message without a sender's end, and an announcement with more than a name,
/// stand for no event.
pub proof fn malformed_texts_are_ignored(rest: Seq<char>, now: Seq<char>)
    ensures
        !rest.contains('|') ==> parsed("MSG|"@ + rest, now) is None,
        rest.contains('|') ==> parsed("JOIN|"@ + rest, now) is None,
        rest.contains('|') ==> parsed("LEAVE|"@ + rest, now) is None,
{
    reveal_strlit("MSG|");
    reveal_strlit("MSG");
    reveal_strlit("JOIN|");
    reveal_strlit("JOIN");
    reveal_strlit("LEAVE|");
    reveal_strlit("LEAVE");
    reveal_strlit("ROOM");
    find_first(rest, '|');
    assert("MSG|"@ + rest =~= "MSG"@.push('|') + rest);
    assert("JOIN|"@ + rest =~= "JOIN"@.push('|') + rest);
    assert("LEAVE|"@ + rest =~= "LEAVE"@.push('|') + rest);
    tag_ends("MSG|"@ + rest, "MSG"@, rest);
    tag_ends("JOIN|"@ + rest, "JOIN"@, rest);
    tag_ends("LEAVE|"@ + rest, "LEAVE"@, rest);
    assert("JOIN"@[0] == 'J');
    assert("ROOM"@[0] == 'R');
}

/// A name is added to a list that lacks it, at the end, and to no other; the
/// names that are there stay where they are.
pub proof fn name_is_added_once(names: Seq<Seq<char>>, name: Seq<char>)
    ensures
        with_name(names, name).contains(name),
        names.contains(name) ==> with_name(names, name) == names,
        !names.contains(name) ==> with_name(names, name) == names + seq![name],
{
    if !names.contains(name) {
        assert(with_name(names, name).last() == name);
        assert(with_name(names, name) =~= names + seq![name]);
    }
}

/// The ordering of a list holds every name as often as the list does, each in
/// front of those that it precedes.
pub proof fn ordering_keeps_every_name(
    sorted: Seq<Seq<char>>,
    names: Seq<Seq<char>>,
    name: Seq<char>,
    i: int,
    j: int,
)
    requires
        ordering_of(sorted, names),
    ensures
        sorted.len() == names.len(),
        sorted.to_multiset().count(name) == names.to_multiset().count(name),
        sorted.contains(name) <==> names.contains(name),
        0 <= i < j < sorted.len() ==> lex_le(sorted[i], sorted[j]),
{
    to_multiset_len(sorted);
    to_multiset_len(names);
    to_multiset_contains(sorted, name);
    to_multiset_contains(names, name);
}

/// The first list of members that a newcomer shows holds the newcomer and
/// everybody whom the server has listed, as often as it did, and nobody else.
pub proof fn first_list_is_complete(
    users: Seq<Seq<char>>,
    names: Seq<Seq<char>>,
    my_name: Seq<char>,
    name: Seq<char>,
)
    requires
        ordering_of(users, with_name(names, my_name)),
    ensures
        users.contains(name) <==> names.contains(name) || name == my_name,
        users.len() == names.len() + if names.contains(my_name) {
            0int
        } else {
            1
        },
        name != my_name || names.contains(my_name) ==> users.to_multiset().count(name)
            == names.to_multiset().count(name),
{
    let all = with_name(names, my_name);
    to_multiset_len(users);
    to_multiset_len(all);
    to_multiset_contains(users, name);
    to_multiset_contains(all, name);
    to_multiset_build(names, my_name);
    if !names.contains(my_name) {
        assert(all.last() == my_name);
        if names.contains(name) {
            let k = choose|k: int| 0 <= k < names.len() && names[k] == name;
            assert(all[k] == name);
        }
        if all.contains(name) && name != my_name {
            let k = choose|k: int| 0 <= k < all.len() && all[k] == name;
            assert(names[k] == name);
        }
    }
}

} // verus!
