//! The log of a chat session.
use vstd::prelude::*;

use crate::clock::{date_time, file_stamp, is_date_time, is_file_stamp, is_time_of_day, time_of_day};
use crate::text::{replace_char, replaced};

verus! {

/// The name of a log file: the stamp and the peer's name, with underscores in
/// place of its spaces.
pub open spec fn log_file_name(stamp: Seq<char>, peer_name: Seq<char>) -> Seq<char> {
    stamp + "_"@ + replaced(peer_name, ' ', '_') + ".txt"@
}

/// The head of a log.
pub open spec fn log_header(my_name: Seq<char>, peer_name: Seq<char>, started: Seq<char>) -> Seq<
    char,
> {
    "╔══════════════════════════════════════════╗\n"@
        + "║           LocalChat Session Log          ║\n"@
        + "╚══════════════════════════════════════════╝\n"@
        + "  Participants : "@ + my_name + " ↔ "@ + peer_name + "\n"@
        + "  Started      : "@ + started + "\n"@
        + "  Encryption   : X25519 + ChaCha20-Poly1305\n"@
        + "──────────────────────────────────────────────\n"@
        + "\n"@
}

/// The line that records a message.
pub open spec fn message_line(timestamp: Seq<char>, sender: Seq<char>, content: Seq<char>) -> Seq<
    char,
> {
    "["@ + timestamp + "] "@ + sender + ": "@ + content + "\n"@
}

/// The line that records an event.
pub open spec fn event_line(event: Seq<char>, now: Seq<char>) -> Seq<char> {
    "── "@ + event + " ─ "@ + now + " ──\n"@
}

/// A log: the directory and the name of its file, and the text that still has to
/// be written there.
pub struct HistoryWriter {
    pub dir: String,
    pub file_name: String,
    pub pending: String,
}

/// The contents of a `HistoryWriter`.
#[verifier::ext_equal]
pub struct HistoryView {
    pub dir: Seq<char>,
    pub file_name: Seq<char>,
    pub pending: Seq<char>,
}

impl View for HistoryWriter {
    type V = HistoryView;

    open spec fn view(&self) -> HistoryView {
        HistoryView { dir: self.dir@, file_name: self.file_name@, pending: self.pending@ }
    }
}

impl HistoryView {
    /// The log of a session that begins.
    pub open spec fn begun(
        dir: Seq<char>,
        stamp: Seq<char>,
        started: Seq<char>,
        my_name: Seq<char>,
        peer_name: Seq<char>,
    ) -> HistoryView {
        HistoryView {
            dir,
            file_name: log_file_name(stamp, peer_name),
            pending: log_header(my_name, peer_name, started),
        }
    }

    /// The log with more text at its end.
    pub open spec fn with(self, line: Seq<char>) -> HistoryView {
        HistoryView { pending: self.pending + line, ..self }
    }
}

impl HistoryWriter {
    /// The log in `dir` of a session that begins, with the given stamp in its
    /// file name and the given start.
    pub fn new_at(
        dir: String,
        stamp: &str,
        started: &str,
        my_name: &str,
        peer_name: &str,
    ) -> (res: Self)
        ensures
            res@ == HistoryView::begun(dir@, stamp@, started@, my_name@, peer_name@),
    {
        let mut file_name = stamp.to_owned();
        file_name.append("_");
        file_name.append(replace_char(peer_name, ' ', '_').as_str());
        file_name.append(".txt");
        let mut pending = "╔══════════════════════════════════════════╗\n".to_owned();
        pending.append("║           LocalChat Session Log          ║\n");
        pending.append("╚══════════════════════════════════════════╝\n");
        pending.append("  Participants : ");
        pending.append(my_name);
        pending.append(" ↔ ");
        pending.append(peer_name);
        pending.append("\n");
        pending.append("  Started      : ");
        pending.append(started);
        pending.append("\n");
        pending.append("  Encryption   : X25519 + ChaCha20-Poly1305\n");
        pending.append("──────────────────────────────────────────────\n");
        pending.append("\n");
        HistoryWriter { dir, file_name, pending }
    }

    /// The log of a session that begins now, below the given home directory.
    /// Where there is none, there is no log.
    pub fn new(home: Option<&str>, my_name: &str, peer_name: &str) -> (res: Option<Self>)
        ensures
            res is Some <==> home is Some,
            res matches Some(log) ==> exists|stamp: Seq<char>, started: Seq<char>|
                is_file_stamp(stamp) && is_date_time(started) && log@
                    == #[trigger] HistoryView::begun(
                    log_dir(home->0@),
                    stamp,
                    started,
                    my_name@,
                    peer_name@,
                ),
    {
        match history_dir(home) {
            Some(dir) => {
                let ghost at = dir@;
                let stamp = file_stamp();
                let started = date_time();
                let res = Self::new_at(dir, stamp.as_str(), started.as_str(), my_name, peer_name);
                assert(res@ == HistoryView::begun(at, stamp@, started@, my_name@, peer_name@));
                Some(res)
            },
            None => None,
        }
    }

    /// The path of the log's file.
    pub fn path(&self) -> (res: String)
        ensures
            res@ == below(self@.dir, self@.file_name),
    {
        path_below(self.dir.as_str(), self.file_name.as_str())
    }

    /// Records a message.
    pub fn write_message(&mut self, timestamp: &str, sender: &str, content: &str)
        ensures
            final(self)@ == old(self)@.with(message_line(timestamp@, sender@, content@)),
    {
        let ghost before = self@.pending;
        self.pending.append("[");
        self.pending.append(timestamp);
        self.pending.append("] ");
        self.pending.append(sender);
        self.pending.append(": ");
        self.pending.append(content);
        self.pending.append("\n");
        assert(self.pending@ =~= before + message_line(timestamp@, sender@, content@));
    }

    /// Records an event at the given time.
    pub fn write_event_at(&mut self, event: &str, now: &str)
        ensures
            final(self)@ == old(self)@.with(event_line(event@, now@)),
    {
        let ghost before = self@.pending;
        self.pending.append("── ");
        self.pending.append(event);
        self.pending.append(" ─ ");
        self.pending.append(now);
        self.pending.append(" ──\n");
        assert(self.pending@ =~= before + event_line(event@, now@));
    }

    /// Records an event that happens now.
    pub fn write_event(&mut self, event: &str)
        ensures
            exists|now: Seq<char>|
                is_time_of_day(now) && final(self)@ == old(self)@.with(
                    #[trigger] event_line(event@, now),
                ),
    {
        let now = time_of_day();
        self.write_event_at(event, now.as_str());
        assert(self@ == old(self)@.with(event_line(event@, now@)));
    }

    /// Hands out the text that has to be appended to the file.
    pub fn take_pending(&mut self) -> (res: String)
        ensures
            res@ == old(self)@.pending,
            final(self)@ == (HistoryView { pending: seq![], ..old(self)@ }),
    {
        let mut res = String::new();
        std::mem::swap(&mut res, &mut self.pending);
        res
    }
}

/// The directory in which logs are kept, below the given home directory.
pub open spec fn log_dir(home: Seq<char>) -> Seq<char> {
    below(below(home, ".localchat"@), "history"@)
}

/// The path of `name` inside `dir`: a slash stands between them, unless `dir`
/// is empty or ends in one.
pub open spec fn below(dir: Seq<char>, name: Seq<char>) -> Seq<char> {
    if dir.len() == 0 || dir.last() == '/' {
        dir + name
    } else {
        dir.push('/') + name
    }
}

/// Joins a directory and a name.
fn path_below(dir: &str, name: &str) -> (res: String)
    ensures
        res@ == below(dir@, name@),
{
    let mut res = dir.to_owned();
    let len: usize = dir.unicode_len();
    if len > 0 && dir.get_char(len - 1) != '/' {
        res.push('/');
    }
    res.append(name);
    res
}

/// The directory in which logs are kept, where there is a home directory.
pub fn history_dir(home: Option<&str>) -> (res: Option<String>)
    ensures
        match (home, res) {
            (Some(h), Some(dir)) => dir@ == log_dir(h@),
            (None, None) => true,
            _ => false,
        },
{
    match home {
        Some(h) => {
            let base = path_below(h, ".localchat");
            Some(path_below(base.as_str(), "history"))
        },
        None => None,
    }
}

/// A human-readable path of the directory in which logs are kept.
pub fn history_dir_display(home: Option<&str>) -> (res: String)
    ensures
        res@ == match home {
            Some(h) => log_dir(h@),
            None => "~/.localchat/history"@,
        },
{
    match history_dir(home) {
        Some(dir) => dir,
        None => "~/.localchat/history".to_owned(),
    }
}

/// A log file's name holds no space beyond those of its stamp.
pub proof fn file_name_without_spaces(stamp: Seq<char>, peer_name: Seq<char>)
    requires
        !stamp.contains(' '),
    ensures
        !log_file_name(stamp, peer_name).contains(' '),
{
    reveal_strlit("_");
    reveal_strlit(".txt");
}

/// A log is seen with each of its parts as it is.
pub proof fn log_parts(log: HistoryWriter)
    ensures
        log@.dir == log.dir@,
        log@.file_name == log.file_name@,
        log@.pending == log.pending@,
{
}

/// What is recorded stands behind everything that was recorded before, in the
/// same file.
pub proof fn records_follow_each_other(log: HistoryView, line: Seq<char>)
    ensures
        log.with(line).pending == log.pending + line,
        log.with(line).dir == log.dir,
        log.with(line).file_name == log.file_name,
{
}

/// A message is recorded on one line with its time, its sender and its whole
/// content.
pub proof fn recorded_message(timestamp: Seq<char>, sender: Seq<char>, content: Seq<char>)
    ensures
        message_line(timestamp, sender, content) == seq!['['] + timestamp + seq![']', ' '] + sender
            + seq![':', ' '] + content + seq!['\n'],
{
    reveal_strlit("[");
    reveal_strlit("] ");
    reveal_strlit(": ");
    reveal_strlit("\n");
    assert("["@ =~= seq!['[']);
    assert("] "@ =~= seq![']', ' ']);
    assert(": "@ =~= seq![':', ' ']);
    assert("\n"@ =~= seq!['\n']);
}

/// An event is recorded on one line with its whole text and its time.
pub proof fn recorded_event(event: Seq<char>, now: Seq<char>)
    ensures
        event_line(event, now) == seq!['─', '─', ' '] + event + seq![' ', '─', ' '] + now + seq![
            ' ',
            '─',
            '─',
            '\n',
        ],
{
    reveal_strlit("── ");
    reveal_strlit(" ─ ");
    reveal_strlit(" ──\n");
    assert("── "@ =~= seq!['─', '─', ' ']);
    assert(" ─ "@ =~= seq![' ', '─', ' ']);
    assert(" ──\n"@ =~= seq![' ', '─', '─', '\n']);
}

/// The head of a log names both participants and the start in full.
pub proof fn header_names_everybody(my_name: Seq<char>, peer_name: Seq<char>, started: Seq<char>)
    ensures
        log_header(my_name, peer_name, started)
            == "╔══════════════════════════════════════════╗\n║           LocalChat Session Log          ║\n╚══════════════════════════════════════════╝\n  Participants : "@
            + my_name + seq![' ', '↔', ' '] + peer_name + "\n  Started      : "@ + started
            + "\n  Encryption   : X25519 + ChaCha20-Poly1305\n──────────────────────────────────────────────\n\n"@,
{
    reveal_strlit("╔══════════════════════════════════════════╗\n");
    reveal_strlit("║           LocalChat Session Log          ║\n");
    reveal_strlit("╚══════════════════════════════════════════╝\n");
    reveal_strlit("  Participants : ");
    reveal_strlit(" ↔ ");
    reveal_strlit("\n");
    reveal_strlit("  Started      : ");
    reveal_strlit("  Encryption   : X25519 + ChaCha20-Poly1305\n");
    reveal_strlit("──────────────────────────────────────────────\n");
    reveal_strlit("╔══════════════════════════════════════════╗\n║           LocalChat Session Log          ║\n╚══════════════════════════════════════════╝\n  Participants : ");
    reveal_strlit("\n  Started      : ");
    reveal_strlit("\n  Encryption   : X25519 + ChaCha20-Poly1305\n──────────────────────────────────────────────\n\n");
    assert("╔══════════════════════════════════════════╗\n"@
        + "║           LocalChat Session Log          ║\n"@
        + "╚══════════════════════════════════════════╝\n"@ + "  Participants : "@
        =~= "╔══════════════════════════════════════════╗\n║           LocalChat Session Log          ║\n╚══════════════════════════════════════════╝\n  Participants : "@);
    assert(" ↔ "@ =~= seq![' ', '↔', ' ']);
    assert("\n"@ + "  Started      : "@ =~= "\n  Started      : "@);
    assert("\n"@ + "  Encryption   : X25519 + ChaCha20-Poly1305\n"@
        + "──────────────────────────────────────────────\n"@ + "\n"@
        =~= "\n  Encryption   : X25519 + ChaCha20-Poly1305\n──────────────────────────────────────────────\n\n"@);
    let head = "╔══════════════════════════════════════════╗\n"@
        + "║           LocalChat Session Log          ║\n"@
        + "╚══════════════════════════════════════════╝\n"@ + "  Participants : "@;
    let middle = "\n"@ + "  Started      : "@;
    let tail = "\n"@ + "  Encryption   : X25519 + ChaCha20-Poly1305\n"@
        + "──────────────────────────────────────────────\n"@ + "\n"@;
    assert(log_header(my_name, peer_name, started) =~= head + my_name + " ↔ "@ + peer_name + middle
        + started + tail);
}

/// The name of a log file is the stamp, an underscore, and the peer's name with
/// nothing changed but its spaces.
pub proof fn file_name_tells_the_peer(stamp: Seq<char>, peer_name: Seq<char>, i: int)
    ensures
        log_file_name(stamp, peer_name).len() == stamp.len() + peer_name.len() + 5,
        log_file_name(stamp, peer_name).take(stamp.len() as int) == stamp,
        log_file_name(stamp, peer_name)[stamp.len() as int] == '_',
        0 <= i < peer_name.len() ==> log_file_name(stamp, peer_name)[stamp.len() + 1 + i]
            == if peer_name[i] == ' ' {
            '_'
        } else {
            peer_name[i]
        },
        log_file_name(stamp, peer_name).skip((stamp.len() + 1 + peer_name.len()) as int) == seq![
            '.',
            't',
            'x',
            't',
        ],
{
    reveal_strlit("_");
    reveal_strlit(".txt");
    assert(log_file_name(stamp, peer_name).take(stamp.len() as int) =~= stamp);
    assert(log_file_name(stamp, peer_name).skip((stamp.len() + 1 + peer_name.len()) as int) =~= seq![
        '.',
        't',
        'x',
        't',
    ]);
}

/// A log that begins lies where it was told to, under its name, and holds the head
/// only.
pub proof fn log_begins_with_its_head(
    dir: Seq<char>,
    stamp: Seq<char>,
    started: Seq<char>,
    my_name: Seq<char>,
    peer_name: Seq<char>,
)
    ensures
        HistoryView::begun(dir, stamp, started, my_name, peer_name).dir == dir,
        HistoryView::begun(dir, stamp, started, my_name, peer_name).file_name == log_file_name(
            stamp,
            peer_name,
        ),
        HistoryView::begun(dir, stamp, started, my_name, peer_name).pending == log_header(
            my_name,
            peer_name,
            started,
        ),
{
}

/// Logs are kept in `.localchat/history` below the home directory, whatever it
/// is.
pub proof fn logs_lie_below_home(home: Seq<char>)
    ensures
        home.len() > 0 && home.last() != '/' ==> log_dir(home) == home + "/.localchat/history"@,
        home.len() > 0 && home.last() == '/' ==> log_dir(home) == home + ".localchat/history"@,
        home.len() == 0 ==> log_dir(home) == ".localchat/history"@,
{
    reveal_strlit(".localchat");
    reveal_strlit("history");
    reveal_strlit("/.localchat/history");
    reveal_strlit(".localchat/history");
    let base = below(home, ".localchat"@);
    assert(base.last() == 't');
    assert(log_dir(home) == base.push('/') + "history"@);
    if home.len() > 0 && home.last() != '/' {
        assert(log_dir(home) =~= home + "/.localchat/history"@);
    } else {
        assert(log_dir(home) =~= home + ".localchat/history"@);
        if home.len() == 0 {
            assert(log_dir(home) =~= ".localchat/history"@);
        }
    }
}

/// A file lies in its directory: the path is the directory, one slash and the
/// name.
pub proof fn path_is_dir_and_name(dir: Seq<char>, name: Seq<char>)
    ensures
        below(dir.push('/'), name) == dir.push('/') + name,
        dir.len() > 0 && dir.last() != '/' ==> below(dir, name) == below(dir.push('/'), name),
        dir.len() == 0 ==> below(dir, name) == name,
{
    if dir.len() == 0 {
        assert(dir + name =~= name);
    }
}

} // verus!
