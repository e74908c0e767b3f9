use localchat::clock::{date_time, file_stamp, time_of_day};
use localchat::history::{history_dir, history_dir_display, HistoryWriter};

fn follows(s: &str, pattern: &str) -> bool {
    s.chars().count() == pattern.chars().count()
        && s.chars().zip(pattern.chars()).all(|(c, p)| {
            if p == '0' {
                c.is_ascii_digit()
            } else {
                c == p
            }
        })
}

const HEADER: &str = "╔══════════════════════════════════════════╗
║           LocalChat Session Log          ║
╚══════════════════════════════════════════╝
  Participants : ann ↔ Chat Room
  Started      : 2024-01-31 09:05:00
  Encryption   : X25519 + ChaCha20-Poly1305
──────────────────────────────────────────────

";

fn log() -> HistoryWriter {
    HistoryWriter::new_at(
        "/home/ann/.localchat/history".to_string(),
        "2024-01-31_09-04-59",
        "2024-01-31 09:05:00",
        "ann",
        "Chat Room",
    )
}

#[test]
fn the_clock_shows_the_time_in_three_forms() {
    let time = time_of_day();
    let number = |at: usize| time[at..at + 2].parse::<u32>().unwrap();
    assert!(number(0) <= 23 && number(3) <= 59 && number(6) <= 60);
    assert!(follows(&time, "00:00:00"));
    assert!(follows(&date_time(), "0000-00-00 00:00:00"));
    assert!(follows(&file_stamp(), "0000-00-00_00-00-00"));
}

#[test]
fn a_log_begins_with_a_header() {
    let mut log = log();
    assert_eq!(log.file_name, "2024-01-31_09-04-59_Chat_Room.txt");
    assert_eq!(
        log.path(),
        "/home/ann/.localchat/history/2024-01-31_09-04-59_Chat_Room.txt"
    );
    assert_eq!(log.take_pending(), HEADER);
    assert_eq!(log.take_pending(), "");
}

#[test]
fn a_log_records_messages_and_events_in_order() {
    let mut log = log();
    log.take_pending();
    log.write_message("09:05:01", "bob", "hi | there");
    log.write_event_at("session ended", "09:06:00");
    assert_eq!(
        log.take_pending(),
        "[09:05:01] bob: hi | there\n── session ended ─ 09:06:00 ──\n"
    );
}

#[test]
fn an_event_is_recorded_with_the_time() {
    let mut log = log();
    log.take_pending();
    log.write_event("it happened");
    assert!(follows(&log.take_pending(), "── it happened ─ 00:00:00 ──\n"));
}

#[test]
fn a_log_lies_below_the_home_directory() {
    let log = HistoryWriter::new(Some("/home/ann"), "ann", "a b").unwrap();
    assert_eq!(log.dir, "/home/ann/.localchat/history");
    assert!(follows(&log.file_name, "0000-00-00_00-00-00_a_b.txt"));
    assert!(!log.file_name.contains(' '));
    assert!(log.pending.contains("  Participants : ann ↔ a b\n"));
    assert!(HistoryWriter::new(None, "ann", "bob").is_none());
}

#[test]
fn the_directory_is_joined_as_a_path() {
    assert_eq!(history_dir(Some("/root/")), Some("/root/.localchat/history".to_string()));
    assert_eq!(history_dir(Some("")), Some(".localchat/history".to_string()));
    assert_eq!(history_dir(None), None);
    assert_eq!(history_dir_display(Some("/h")), "/h/.localchat/history");
    assert_eq!(history_dir_display(None), "~/.localchat/history");
}
