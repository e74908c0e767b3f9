//! What the chat window looks like.
use ratatui::layout::{Constraint, Direction, Layout, Rect};
use vstd::prelude::*;

use crate::event::{ChatMessage, MessageView};
use crate::text::{
    decimal, digits, digits_stand_for_the_number, pad_right, padded, padding_keeps_the_text,
    value_of,
};
use crate::ui::{App, AppView, Status};

verus! {

/// The colours in use.
#[derive(PartialEq, Eq, Clone, Copy, Structural)]
pub enum Color {
    Blue,
    Cyan,
    DarkGray,
    Gray,
    Green,
    Red,
    White,
    Yellow,
}

/// A rectangle of the screen, in character cells.
#[derive(PartialEq, Eq, Clone, Copy, Structural)]
pub struct Area {
    pub x: u16,
    pub y: u16,
    pub width: u16,
    pub height: u16,
}

/// A piece of text in one style.
pub struct Piece {
    pub text: String,
    pub color: Color,
    pub bold: bool,
    pub italic: bool,
}

/// The contents of a `Piece`.
#[verifier::ext_equal]
pub struct PieceView {
    pub text: Seq<char>,
    pub color: Color,
    pub bold: bool,
    pub italic: bool,
}

impl View for Piece {
    type V = PieceView;

    open spec fn view(&self) -> PieceView {
        PieceView { text: self.text@, color: self.color, bold: self.bold, italic: self.italic }
    }
}

/// The contents of a row of text.
pub open spec fn row_view(row: Seq<Piece>) -> Seq<PieceView> {
    row.map_values(|p: Piece| p@)
}

/// The contents of several rows of text.
pub open spec fn row_views(rows: Seq<Vec<Piece>>) -> Seq<Seq<PieceView>> {
    rows.map_values(|row: Vec<Piece>| row_view(row@))
}

impl PieceView {
    /// A piece in an upright, light style.
    pub open spec fn plain(text: Seq<char>, color: Color) -> PieceView {
        PieceView { text, color, bold: false, italic: false }
    }

    /// A piece in bold.
    pub open spec fn bold(text: Seq<char>, color: Color) -> PieceView {
        PieceView { text, color, bold: true, italic: false }
    }

    /// A piece in italics.
    pub open spec fn italic(text: Seq<char>, color: Color) -> PieceView {
        PieceView { text, color, bold: false, italic: true }
    }
}

/// The box at the top, with one row of text.
pub struct HeaderPane {
    pub area: Area,
    pub row: Vec<Piece>,
    pub border: Color,
}

/// The contents of a `HeaderPane`.
#[verifier::ext_equal]
pub struct HeaderView {
    pub area: Area,
    pub row: Seq<PieceView>,
    pub border: Color,
}

impl View for HeaderPane {
    type V = HeaderView;

    open spec fn view(&self) -> HeaderView {
        HeaderView { area: self.area, row: row_view(self.row@), border: self.border }
    }
}

/// The box in the middle, with a row for each message in sight.
pub struct MessagesPane {
    pub area: Area,
    pub title: String,
    pub rows: Vec<Vec<Piece>>,
    pub border: Color,
}

/// The contents of a `MessagesPane`.
#[verifier::ext_equal]
pub struct MessagesView {
    pub area: Area,
    pub title: Seq<char>,
    pub rows: Seq<Seq<PieceView>>,
    pub border: Color,
}

impl View for MessagesPane {
    type V = MessagesView;

    open spec fn view(&self) -> MessagesView {
        MessagesView {
            area: self.area,
            title: self.title@,
            rows: row_views(self.rows@),
            border: self.border,
        }
    }
}

/// The box at the bottom, with what is being typed and the column and row of the
/// cursor, where it is shown.
pub struct InputPane {
    pub area: Area,
    pub title: String,
    pub text: String,
    pub color: Color,
    pub border: Color,
    pub cursor: Option<(u16, u16)>,
}

/// The contents of an `InputPane`.
#[verifier::ext_equal]
pub struct InputView {
    pub area: Area,
    pub title: Seq<char>,
    pub text: Seq<char>,
    pub color: Color,
    pub border: Color,
    pub cursor: Option<(u16, u16)>,
}

impl View for InputPane {
    type V = InputView;

    open spec fn view(&self) -> InputView {
        InputView {
            area: self.area,
            title: self.title@,
            text: self.text@,
            color: self.color,
            border: self.border,
            cursor: self.cursor,
        }
    }
}

/// The whole screen.
pub struct Screen {
    pub header: HeaderPane,
    pub messages: MessagesPane,
    pub input: InputPane,
}

/// The text and the colour that show how the conversation stands.
pub open spec fn status_label(status: Status) -> (Seq<char>, Color) {
    match status {
        Status::Connected => ("🔒 Encrypted · Connected"@, Color::Green),
        Status::PeerLeft => ("⚠  Peer disconnected"@, Color::Yellow),
        Status::ConnectionLost => ("✖  Connection lost"@, Color::Red),
        Status::Quit => ("Disconnecting…"@, Color::DarkGray),
    }
}

/// The box at the top.
pub open spec fn header_of(app: AppView, area: Area) -> HeaderView {
    let (label, color) = status_label(app.status);
    HeaderView {
        area,
        row: seq![
            PieceView::bold(
                "  LocalChat  ·  "@ + app.my_name + " ↔ "@ + app.peer_name + "  "@,
                Color::Cyan,
            ),
            PieceView::bold("·  "@ + label, color),
        ],
        border: Color::Blue,
    }
}

/// The row that shows a message.
pub open spec fn message_row(msg: MessageView) -> Seq<PieceView> {
    if msg.is_system {
        seq![PieceView::italic("  ─  "@ + msg.content + "  ─"@, Color::DarkGray)]
    } else {
        seq![
            PieceView::plain(" ["@ + msg.timestamp + "] "@, Color::DarkGray),
            PieceView::bold(
                padded(msg.sender, 14),
                if msg.is_own {
                    Color::Green
                } else {
                    Color::Cyan
                },
            ),
            PieceView::plain(
                msg.content,
                if msg.is_own {
                    Color::White
                } else {
                    Color::Gray
                },
            ),
        ]
    }
}

/// A difference that does not fall below zero.
pub open spec fn less(a: int, b: int) -> int {
    if a >= b {
        a - b
    } else {
        0
    }
}

/// The messages in sight in a box of the given height, which has a border above
/// and below: as many as fit, up to the latest that is not skipped.
pub open spec fn in_sight(app: AppView, height: int) -> Seq<MessageView> {
    let end = less(app.messages.len() as int, app.scroll_offset);
    app.messages.subrange(less(end, less(height, 2)), end)
}

/// The title above the messages.
pub open spec fn messages_title(skipped: int) -> Seq<char> {
    if skipped > 0 {
        " Messages  ↑ scrolled ("@ + digits(skipped as nat) + " newer) ↓ "@
    } else {
        " Messages "@
    }
}

/// The box in the middle.
pub open spec fn messages_of(app: AppView, area: Area) -> MessagesView {
    MessagesView {
        area,
        title: messages_title(app.scroll_offset),
        rows: in_sight(app, area.height as int).map_values(|m: MessageView| message_row(m)),
        border: Color::Blue,
    }
}

/// The box at the bottom. Screen positions wrap around at 2^16.
pub open spec fn input_of(app: AppView, area: Area) -> InputView {
    let connected = app.status == Status::Connected;
    InputView {
        area,
        title: if connected {
            " /quit · Esc · Ctrl+C to exit "@
        } else {
            " Press any key to close "@
        },
        text: "> "@ + app.input,
        color: if connected {
            Color::Yellow
        } else {
            Color::DarkGray
        },
        border: if connected {
            Color::Cyan
        } else {
            Color::DarkGray
        },
        cursor: if connected {
            Some(
                (
                    ((area.x + 3 + app.cursor_pos) % 0x10000) as u16,
                    ((area.y + 1) % 0x10000) as u16,
                ),
            )
        } else {
            None
        },
    }
}

/// Whether three rows share the column and the width of `whole` and stack up to
/// it without gaps, the second with a height of at least `middle`, as far as
/// `whole` has it; and whether, where all fit, the first has height `top` and the
/// last height `bottom`.
pub open spec fn stacked(
    whole: Area,
    rows: (Area, Area, Area),
    top: u16,
    middle: u16,
    bottom: u16,
) -> bool {
    &&& rows.0.x == whole.x && rows.0.width == whole.width
    &&& rows.1.x == whole.x && rows.1.width == whole.width
    &&& rows.2.x == whole.x && rows.2.width == whole.width
    &&& whole.y + whole.height <= u16::MAX ==> {
        &&& rows.0.y == whole.y
        &&& rows.1.y == rows.0.y + rows.0.height
        &&& rows.2.y == rows.1.y + rows.1.height
        &&& rows.2.y + rows.2.height == whole.y + whole.height
        &&& rows.1.height >= middle || rows.1.height == whole.height
    }
    &&& top + middle + bottom <= whole.height && whole.y + whole.height <= u16::MAX ==> {
        &&& rows.0.y == whole.y && rows.0.height == top
        &&& rows.1.y == whole.y + top && rows.1.height == whole.height - top - bottom
        &&& rows.2.y == whole.y + whole.height - bottom && rows.2.height == bottom
    }
}

/// `Layout::split` of `ratatui`, from top to bottom: a row of height `top`, one
/// of at least `middle` that fills what is left, and one of height `bottom`.
/// Where there is no room for them, the rows still stack up to the whole and the
/// second comes before the others, but how those share the rest depends on the
/// order in which the solver behind it walks its hash maps, and is left unsaid.
#[verifier::external_body]
fn split_rows(whole: Area, top: u16, middle: u16, bottom: u16) -> (res: (Area, Area, Area))
    ensures
        stacked(whole, res, top, middle, bottom),
{
    let rows = Layout::default().direction(Direction::Vertical).constraints(
        [Constraint::Length(top), Constraint::Min(middle), Constraint::Length(bottom)],
    ).split(Rect { x: whole.x, y: whole.y, width: whole.width, height: whole.height });
    (
        Area { x: rows[0].x, y: rows[0].y, width: rows[0].width, height: rows[0].height },
        Area { x: rows[1].x, y: rows[1].y, width: rows[1].width, height: rows[1].height },
        Area { x: rows[2].x, y: rows[2].y, width: rows[2].width, height: rows[2].height },
    )
}

/// A piece in an upright, light style.
fn plain(text: String, color: Color) -> (res: Piece)
    ensures
        res@ == PieceView::plain(text@, color),
{
    Piece { text, color, bold: false, italic: false }
}

/// A piece in bold.
fn bold(text: String, color: Color) -> (res: Piece)
    ensures
        res@ == PieceView::bold(text@, color),
{
    Piece { text, color, bold: true, italic: false }
}

/// Draws the box at the top.
pub fn render_header(app: &App, area: Area) -> (res: HeaderPane)
    ensures
        res@ == header_of(app@, area),
{
    let (label, color) = match app.status {
        Status::Connected => ("🔒 Encrypted · Connected", Color::Green),
        Status::PeerLeft => ("⚠  Peer disconnected", Color::Yellow),
        Status::ConnectionLost => ("✖  Connection lost", Color::Red),
        Status::Quit => ("Disconnecting…", Color::DarkGray),
    };
    let mut names = "  LocalChat  ·  ".to_owned();
    names.append(app.my_name.as_str());
    names.append(" ↔ ");
    names.append(app.peer_name.as_str());
    names.append("  ");
    let mut state = "·  ".to_owned();
    state.append(label);
    let mut row: Vec<Piece> = Vec::new();
    row.push(bold(names, Color::Cyan));
    row.push(bold(state, color));
    let res = HeaderPane { area, row, border: Color::Blue };
    assert(res@ =~= header_of(app@, area));
    res
}

/// Draws a message as one row.
pub fn format_msg(msg: &ChatMessage) -> (res: Vec<Piece>)
    ensures
        row_view(res@) == message_row(msg@),
{
    let mut row: Vec<Piece> = Vec::new();
    if msg.is_system {
        let mut text = "  ─  ".to_owned();
        text.append(msg.content.as_str());
        text.append("  ─");
        row.push(Piece { text, color: Color::DarkGray, bold: false, italic: true });
    } else {
        let (name_color, content_color) = if msg.is_own {
            (Color::Green, Color::White)
        } else {
            (Color::Cyan, Color::Gray)
        };
        let mut time = " [".to_owned();
        time.append(msg.timestamp.as_str());
        time.append("] ");
        row.push(plain(time, Color::DarkGray));
        row.push(bold(pad_right(msg.sender.as_str(), 14), name_color));
        row.push(plain(msg.content.clone(), content_color));
    }
    assert(row_view(row@) =~= message_row(msg@));
    row
}

/// Draws the box in the middle.
pub fn render_messages(app: &App, area: Area) -> (res: MessagesPane)
    ensures
        res@ == messages_of(app@, area),
{
    let inner: usize = area.height.saturating_sub(2) as usize;
    let end: usize = app.messages.len().saturating_sub(app.scroll_offset);
    let start: usize = end.saturating_sub(inner);
    let mut rows: Vec<Vec<Piece>> = Vec::new();
    let ghost shown = in_sight(app@, area.height as int);
    for i in start..end
        invariant
            start <= i <= end <= app.messages@.len(),
            shown == app@.messages.subrange(start as int, end as int),
            row_views(rows@) == shown.take(i - start).map_values(|m: MessageView| message_row(m)),
    {
        let ghost before = row_views(rows@);
        rows.push(format_msg(&app.messages[i]));
        proof {
            assert(app@.messages[i as int] == app.messages@[i as int]@);
            assert(row_views(rows@) =~= before.push(message_row(shown[i - start])));
            assert(shown.take(i + 1 - start) =~= shown.take(i - start).push(shown[i - start]));
            assert(row_views(rows@) =~= shown.take(i + 1 - start).map_values(
                |m: MessageView| message_row(m),
            ));
        }
    }
    assert(shown.take(end - start) =~= shown);
    let title = if app.scroll_offset > 0 {
        let mut title = " Messages  ↑ scrolled (".to_owned();
        title.append(decimal(app.scroll_offset).as_str());
        title.append(" newer) ↓ ");
        title
    } else {
        " Messages ".to_owned()
    };
    MessagesPane { area, title, rows, border: Color::Blue }
}

/// Draws the box at the bottom.
pub fn render_input(app: &App, area: Area) -> (res: InputPane)
    ensures
        res@ == input_of(app@, area),
{
    let connected = app.status == Status::Connected;
    let mut text = "> ".to_owned();
    text.append(app.input.as_str());
    let column: usize = (app.cursor_pos % 0x10000 + 3 + area.x as usize) % 0x10000;
    let row: usize = (area.y as usize + 1) % 0x10000;
    if connected {
        InputPane {
            area,
            title: " /quit · Esc · Ctrl+C to exit ".to_owned(),
            text,
            color: Color::Yellow,
            border: Color::Cyan,
            cursor: Some((column as u16, row as u16)),
        }
    } else {
        InputPane {
            area,
            title: " Press any key to close ".to_owned(),
            text,
            color: Color::DarkGray,
            border: Color::DarkGray,
            cursor: None,
        }
    }
}

/// Draws the window in three given boxes.
pub fn render_in(app: &App, top: Area, middle: Area, bottom: Area) -> (res: Screen)
    ensures
        res.header@ == header_of(app@, top),
        res.messages@ == messages_of(app@, middle),
        res.input@ == input_of(app@, bottom),
{
    Screen {
        header: render_header(app, top),
        messages: render_messages(app, middle),
        input: render_input(app, bottom),
    }
}

/// Draws the window: three rows for the header and the input each, and the rest
/// for the messages.
pub fn render(app: &App, whole: Area) -> (res: Screen)
    ensures
        stacked(whole, (res.header.area, res.messages.area, res.input.area), 3, 1, 3),
        res.header@ == header_of(app@, res.header.area),
        res.messages@ == messages_of(app@, res.messages.area),
        res.input@ == input_of(app@, res.input.area),
{
    let (top, middle, bottom) = split_rows(whole, 3, 1, 3);
    render_in(app, top, middle, bottom)
}

// ---------------------------------------------------------------------------
// Laws
// ---------------------------------------------------------------------------

/// No more messages are in sight than rows fit between the borders, and they
/// stand in the order of the conversation.
pub proof fn sight_is_a_window(app: AppView, height: int)
    requires
        app.wf(),
        0 <= height,
    ensures
        in_sight(app, height).len() <= less(height, 2),
        exists|from: int|
            #![trigger app.messages.skip(from)]
            0 <= from <= app.messages.len() && in_sight(app, height).is_prefix_of(
                app.messages.skip(from),
            ),
{
    let end = less(app.messages.len() as int, app.scroll_offset);
    let from = less(end, less(height, 2));
    let shown = in_sight(app, height);
    assert(shown =~= app.messages.skip(from).take(shown.len() as int));
}

/// Without scrolling, the latest message is the last in sight, wherever one
/// fits.
pub proof fn latest_is_in_sight(app: AppView, height: int)
    requires
        app.wf(),
        app.scroll_offset == 0,
        app.messages.len() > 0,
        height > 2,
    ensures
        in_sight(app, height).len() > 0,
        in_sight(app, height).last() == app.messages.last(),
{
}

/// While the user has scrolled up, so many messages are newer than those in
/// sight as the title says, and a message that arrives shifts the sight by one.
pub proof fn scrolled_sight(app: AppView, height: int, msg: MessageView)
    requires
        app.wf(),
        app.scroll_offset < app.messages.len(),
        height > 2,
    ensures
        in_sight(app, height).last() == app.messages[app.messages.len() - app.scroll_offset - 1],
        in_sight(app.with(msg), height).last() == app.with(msg).messages[app.messages.len()
            - app.scroll_offset],
{
}

/// What has just been sent is in sight.
pub proof fn sent_is_in_sight(app: AppView, text: Seq<char>, now: Seq<char>, height: int)
    requires
        height > 2,
    ensures
        in_sight(app.after_send(text, true, now), height).last() == MessageView::own(
            app.my_name,
            text,
            now,
        ),
{
}

/// As many messages are in sight as rows fit between the borders, unless there
/// are fewer that are not skipped: no row stays empty while an older message
/// could fill it. They are the latest of those, in their order.
pub proof fn sight_is_filled(app: AppView, height: int)
    requires
        app.wf(),
        0 <= height,
    ensures
        height <= 2 ==> in_sight(app, height).len() == 0,
        height >= 2 ==> in_sight(app, height).len() == if height - 2 <= app.messages.len()
            - app.scroll_offset {
            height - 2
        } else {
            app.messages.len() - app.scroll_offset
        },
        forall|i: int|
            0 <= i < in_sight(app, height).len() ==> #[trigger] in_sight(app, height)[i]
                == app.messages[app.messages.len() - app.scroll_offset - in_sight(
                app,
                height,
            ).len() + i],
{
}

/// Where more messages are skipped than there are, none is in sight.
pub proof fn nothing_beyond_the_oldest(app: AppView, height: int)
    requires
        app.scroll_offset >= app.messages.len(),
    ensures
        in_sight(app, height).len() == 0,
{
}

/// The box in the middle has one row for each message in sight, in their order,
/// in the area that it was given.
pub proof fn row_for_each_message(app: AppView, area: Area, i: int)
    requires
        app.wf(),
    ensures
        messages_of(app, area).rows.len() == in_sight(app, area.height as int).len(),
        0 <= i < in_sight(app, area.height as int).len() ==> messages_of(app, area).rows[i]
            == message_row(in_sight(app, area.height as int)[i]),
        messages_of(app, area).area == area,
        messages_of(app, area).border == Color::Blue,
{
}

/// The title says how many newer messages are out of sight, where any are.
pub proof fn title_counts_the_newer(app: AppView, area: Area)
    ensures
        app.scroll_offset > 0 ==> messages_of(app, area).title == " Messages  ↑ scrolled ("@
            + digits(app.scroll_offset as nat) + " newer) ↓ "@,
        app.scroll_offset > 0 ==> value_of(digits(app.scroll_offset as nat)) == app.scroll_offset,
        app.scroll_offset <= 0 ==> messages_of(app, area).title == " Messages "@,
{
    digits_stand_for_the_number(app.scroll_offset as nat);
}

/// A notice is shown whole between two dashes. Any other message is shown with
/// its time, its sender and its whole content, in the colours of who wrote it.
pub proof fn message_is_shown_whole(msg: MessageView)
    ensures
        msg.is_system ==> message_row(msg) == seq![
            PieceView {
                text: "  ─  "@ + msg.content + "  ─"@,
                color: Color::DarkGray,
                bold: false,
                italic: true,
            },
        ],
        !msg.is_system ==> {
            &&& message_row(msg).len() == 3
            &&& message_row(msg)[0] == (PieceView {
                text: seq![' ', '['] + msg.timestamp + seq![']', ' '],
                color: Color::DarkGray,
                bold: false,
                italic: false,
            })
            &&& message_row(msg)[1].text.take(msg.sender.len() as int) == msg.sender
            &&& message_row(msg)[1].text.len() == if msg.sender.len() < 14 {
                14
            } else {
                msg.sender.len()
            }
            &&& forall|i: int|
                msg.sender.len() <= i < message_row(msg)[1].text.len()
                    ==> #[trigger] message_row(msg)[1].text[i] == ' '
            &&& message_row(msg)[1].color == if msg.is_own {
                Color::Green
            } else {
                Color::Cyan
            }
            &&& message_row(msg)[1].bold
            &&& !message_row(msg)[1].italic
            &&& message_row(msg)[2] == (PieceView {
                text: msg.content,
                color: if msg.is_own {
                    Color::White
                } else {
                    Color::Gray
                },
                bold: false,
                italic: false,
            })
        },
{
    reveal_strlit(" [");
    reveal_strlit("] ");
    assert(" ["@ =~= seq![' ', '[']);
    assert("] "@ =~= seq![']', ' ']);
    padding_keeps_the_text(msg.sender, 14);
}

/// The header names both sides in full and says how the conversation stands.
pub proof fn header_shows_names_and_state(app: AppView, area: Area)
    ensures
        header_of(app, area).area == area,
        header_of(app, area).border == Color::Blue,
        header_of(app, area).row.len() == 2,
        header_of(app, area).row[0] == (PieceView {
            text: "  LocalChat  ·  "@ + app.my_name + seq![' ', '↔', ' '] + app.peer_name + seq![
                ' ',
                ' ',
            ],
            color: Color::Cyan,
            bold: true,
            italic: false,
        }),
        header_of(app, area).row[1] == (PieceView {
            text: match app.status {
                Status::Connected => "·  "@ + "🔒 Encrypted · Connected"@,
                Status::PeerLeft => "·  "@ + "⚠  Peer disconnected"@,
                Status::ConnectionLost => "·  "@ + "✖  Connection lost"@,
                Status::Quit => "·  "@ + "Disconnecting…"@,
            },
            color: match app.status {
                Status::Connected => Color::Green,
                Status::PeerLeft => Color::Yellow,
                Status::ConnectionLost => Color::Red,
                Status::Quit => Color::DarkGray,
            },
            bold: true,
            italic: false,
        }),
{
    reveal_strlit(" ↔ ");
    reveal_strlit("  ");
    assert(" ↔ "@ =~= seq![' ', '↔', ' ']);
    assert("  "@ =~= seq![' ', ' ']);
}

/// The box at the bottom shows the whole input behind a prompt. While the
/// conversation lasts, the cursor stands as many columns behind the prompt as
/// characters stand before it.
pub proof fn input_is_shown_whole(app: AppView, area: Area)
    requires
        app.wf(),
    ensures
        input_of(app, area).area == area,
        input_of(app, area).text == seq!['>', ' '] + app.input,
        app.status == Status::Connected ==> {
            &&& input_of(app, area).title == " /quit · Esc · Ctrl+C to exit "@
            &&& input_of(app, area).color == Color::Yellow
            &&& input_of(app, area).border == Color::Cyan
            &&& input_of(app, area).cursor matches Some((x, y))
            &&& area.x + 3 + app.cursor_pos <= u16::MAX ==> x == area.x + 3 + app.cursor_pos
            &&& area.y < u16::MAX ==> y == area.y + 1
            &&& (area.x + 3 + app.cursor_pos - x) % 0x10000 == 0
            &&& (area.y + 1 - y) % 0x10000 == 0
        },
        app.status != Status::Connected ==> {
            &&& input_of(app, area).title == " Press any key to close "@
            &&& input_of(app, area).color == Color::DarkGray
            &&& input_of(app, area).border == Color::DarkGray
            &&& input_of(app, area).cursor is None
        },
{
    reveal_strlit("> ");
    assert("> "@ =~= seq!['>', ' ']);
}

/// Rows that are stacked up take no more and no less than the whole, and the
/// middle one is not squeezed out.
pub proof fn rows_share_the_whole(whole: Area, rows: (Area, Area, Area))
    requires
        stacked(whole, rows, 3, 1, 3),
        whole.y + whole.height <= u16::MAX,
    ensures
        rows.0.height + rows.1.height + rows.2.height == whole.height,
        whole.height >= 1 ==> rows.1.height >= 1,
        whole.height >= 7 ==> rows.0.height == 3 && rows.2.height == 3,
        rows.0.y == whole.y,
        rows.1.y == whole.y + rows.0.height,
        rows.2.y == whole.y + rows.0.height + rows.1.height,
        rows.0.x == whole.x && rows.1.x == whole.x && rows.2.x == whole.x,
        rows.0.width == whole.width && rows.1.width == whole.width && rows.2.width == whole.width,
{
}

/// What is drawn is seen with each of its parts as it is.
pub proof fn drawn_parts(
    piece: Piece,
    row: Seq<Piece>,
    rows: Seq<Vec<Piece>>,
    header: HeaderPane,
    messages: MessagesPane,
    input: InputPane,
    i: int,
)
    ensures
        piece@ == (PieceView {
            text: piece.text@,
            color: piece.color,
            bold: piece.bold,
            italic: piece.italic,
        }),
        row_view(row).len() == row.len(),
        0 <= i < row.len() ==> row_view(row)[i] == row[i]@,
        row_views(rows).len() == rows.len(),
        0 <= i < rows.len() ==> row_views(rows)[i] == row_view(rows[i]@),
        header@.area == header.area,
        header@.row == row_view(header.row@),
        header@.border == header.border,
        messages@.area == messages.area,
        messages@.title == messages.title@,
        messages@.rows == row_views(messages.rows@),
        messages@.border == messages.border,
        input@.area == input.area,
        input@.title == input.title@,
        input@.text == input.text@,
        input@.color == input.color,
        input@.border == input.border,
        input@.cursor == input.cursor,
{
}

} // verus!
