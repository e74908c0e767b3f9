use localchat::boundary::{at_boundary, split_at_byte, text_len};
use localchat::input::{insert_char, remove_char};
use localchat::setup::{bind_address, choose_role, host_address, read_role, user_name, Role, PORT};
use localchat::text::{
    decimal, holds_name, join_text, lower, pad_right, read_text, replace_char, same_text,
    split_text, strip_prefix, strip_prefixes,
};

fn strings(texts: &[&str]) -> Vec<String> {
    texts.iter().map(|s| s.to_string()).collect()
}

#[test]
fn compares_texts() {
    assert!(same_text("", ""));
    assert!(same_text("漢字", "漢字"));
    assert!(!same_text("a", "b"));
    assert!(!same_text("a", "ab"));
    assert!(!same_text("ab", "a"));
}

#[test]
fn replaces_a_character() {
    assert_eq!(replace_char("a b  c", ' ', '_'), "a_b__c");
    assert_eq!(replace_char("", ' ', '_'), "");
}

#[test]
fn strips_a_prefix_once() {
    assert_eq!(strip_prefix("ROOM|a|b", "ROOM|"), Some("a|b"));
    assert_eq!(strip_prefix("ROOM|", "ROOM|"), Some(""));
    assert_eq!(strip_prefix("ROOM", "ROOM|"), None);
    assert_eq!(strip_prefix("room|a", "ROOM|"), None);
    assert_eq!(strip_prefix("aé", "ab"), None);
    assert_eq!(strip_prefix("aé", "aé"), Some(""));
}

#[test]
fn strips_a_prefix_as_often_as_it_stands() {
    assert_eq!(strip_prefixes("HELLO:HELLO:bob", "HELLO:"), "bob");
    assert_eq!(strip_prefixes("bob", "HELLO:"), "bob");
    assert_eq!(strip_prefixes("HELLO:", "HELLO:"), "");
    let many = format!("{}é", "HELLO:".repeat(200_000));
    assert_eq!(strip_prefixes(&many, "HELLO:"), "é");
    assert_eq!(strip_prefixes("ééa", "é"), "a");
}

#[test]
fn splits_and_joins() {
    assert_eq!(split_text("a|b||c", '|'), strings(&["a", "b", "", "c"]));
    assert_eq!(split_text("", '|'), strings(&[""]));
    assert_eq!(split_text("|", '|'), strings(&["", ""]));
    assert_eq!(join_text(&strings(&["a", "", "c"]), '|'), "a||c");
    assert_eq!(join_text(&strings(&[]), '|'), "");
    let parts = strings(&["ä", "", "漢字"]);
    assert_eq!(split_text(&join_text(&parts, '|'), '|'), parts);
}

#[test]
fn writes_decimals() {
    assert_eq!(decimal(0), "0");
    assert_eq!(decimal(9), "9");
    assert_eq!(decimal(10), "10");
    assert_eq!(decimal(7777), "7777");
    assert_eq!(decimal(usize::MAX), usize::MAX.to_string());
}

#[test]
fn pads_on_the_right() {
    assert_eq!(pad_right("bob", 6), "bob   ");
    assert_eq!(pad_right("漢字", 3), "漢字 ");
    assert_eq!(pad_right("long enough", 4), "long enough");
    assert_eq!(pad_right("", 2), "  ");
}

#[test]
fn finds_a_name() {
    assert!(holds_name(&strings(&["ann", "bob"]), "bob"));
    assert!(!holds_name(&strings(&["ann", "bob"]), "bo"));
    assert!(!holds_name(&strings(&[]), ""));
}

#[test]
fn reads_bytes_as_text() {
    assert_eq!(read_text("naïve".as_bytes()), "naïve");
    assert_eq!(read_text(&[0x66, 0xc3, 0x66]), "f\u{fffd}f");
}

#[test]
fn lowers_letters() {
    assert_eq!(lower("HoSt-1"), "host-1");
    assert_eq!(lower("ÄÖ"), "äö");
}

#[test]
fn cuts_between_characters() {
    let s = "aä";
    assert_eq!(text_len(s), 3);
    assert!(at_boundary(s, 0) && at_boundary(s, 1) && at_boundary(s, 3));
    assert!(!at_boundary(s, 2) && !at_boundary(s, 4));
    assert_eq!(split_at_byte(s, 1), ("a", "ä"));
    assert_eq!(split_at_byte(s, 3), ("aä", ""));
}

#[test]
fn edits_at_characters() {
    let mut s = "aä".to_string();
    insert_char(&mut s, 1, '🎨');
    assert_eq!(s, "a🎨ä");
    remove_char(&mut s, 2);
    assert_eq!(s, "a🎨");
    remove_char(&mut s, 0);
    assert_eq!(s, "🎨");
    insert_char(&mut s, 1, '!');
    assert_eq!(s, "🎨!");
}

#[test]
fn addresses_carry_the_port() {
    assert_eq!(PORT, 7777);
    assert_eq!(bind_address(), "0.0.0.0:7777");
    assert_eq!(host_address(" 192.168.1.42 \n"), Some("192.168.1.42:7777".to_string()));
    assert_eq!(host_address(" \n"), None);
}

#[test]
fn names_are_trimmed_and_not_empty() {
    assert_eq!(user_name("  Alice B \r\n"), Some("Alice B".to_string()));
    assert_eq!(user_name("\u{3000}\t\n"), None);
    assert_eq!(user_name(""), None);
}

#[test]
fn roles_are_read_in_either_case() {
    for host in ["1", "host", "HOST", " Host\n"] {
        assert!(read_role(host) == Some(Role::Host));
    }
    for join in ["2\n", "join", "JOIN", "jOiN "] {
        assert!(read_role(join) == Some(Role::Join));
    }
    for other in ["", "3", "12", "hosts", "ho st", "ｈｏｓｔ"] {
        assert!(read_role(other).is_none());
    }
    assert!(choose_role("HOST").is_none());
    assert!(choose_role("host") == Some(Role::Host));
}
