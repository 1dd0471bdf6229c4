use slirc_client::buffer::{MessageType, RenderedMessage};
use slirc_client::ui::messages::{
    contains_mention, group_messages, group_messages_checked, parse_timestamp_seconds,
    timestamp_value, timestamps_within_window, window_is_safe,
};

fn m(ts: &str, sender: &str, text: &str, msg_type: MessageType) -> RenderedMessage {
    RenderedMessage { timestamp: ts.to_string(), sender: sender.to_string(), text: text.to_string(), msg_type }
}

#[test]
fn messages_test_parse_timestamp_seconds() {
    assert_eq!(parse_timestamp_seconds("00:00:00"), Some(0));
    assert_eq!(parse_timestamp_seconds("00:00:01"), Some(1));
    assert_eq!(parse_timestamp_seconds("00:01:00"), Some(60));
    assert_eq!(parse_timestamp_seconds("01:00:00"), Some(3600));
    assert_eq!(parse_timestamp_seconds("12:30:45"), Some(45045));
    assert_eq!(parse_timestamp_seconds("23:59:59"), Some(86399));
    assert_eq!(parse_timestamp_seconds("invalid"), None);
    assert_eq!(parse_timestamp_seconds("12:30"), None);
    assert_eq!(parse_timestamp_seconds(""), None);
    assert_eq!(parse_timestamp_seconds("aa:bb:cc"), None);
}

#[test]
fn messages_test_timestamps_within_window() {
    assert!(timestamps_within_window("12:00:00", "12:00:00"));
    assert!(timestamps_within_window("12:00:00", "12:04:59"));
    assert!(timestamps_within_window("12:00:00", "12:05:00"));
    assert!(!timestamps_within_window("12:00:00", "12:05:01"));
    assert!(!timestamps_within_window("12:00:00", "12:10:00"));
    assert!(timestamps_within_window("23:58:00", "00:01:00"));
    assert!(!timestamps_within_window("invalid", "12:00:00"));
    assert!(!timestamps_within_window("12:00:00", "invalid"));
}

#[test]
fn messages_test_contains_mention_basic() {
    assert!(contains_mention("hey alice how are you", "alice"));
    assert!(contains_mention("alice: check this out", "alice"));
    assert!(contains_mention("hello alice!", "alice"));
    assert!(contains_mention("Hey ALICE, how are you?", "alice"));
    assert!(contains_mention("Hey Alice, how are you?", "alice"));
    assert!(contains_mention("hey alice, how are you?", "ALICE"));
    assert!(contains_mention("@alice check this out", "alice"));
    assert!(contains_mention("hey @alice", "alice"));
}

#[test]
fn messages_test_contains_mention_word_boundaries() {
    assert!(!contains_mention("malice aforethought", "alice"));
    assert!(!contains_mention("bobcat is cute", "bob"));
    assert!(!contains_mention("jacoby is here", "jacob"));
    assert!(contains_mention("alice", "alice"));
    assert!(contains_mention("hi alice", "alice"));
    assert!(contains_mention("alice says hi", "alice"));
    assert!(contains_mention("alice's message", "alice"));
    assert!(contains_mention("(alice)", "alice"));
    assert!(contains_mention("[alice]", "alice"));
}

#[test]
fn messages_test_contains_mention_edge_cases() {
    assert!(!contains_mention("hello world", ""));
    assert!(!contains_mention("", "alice"));
    assert!(contains_mention("hey x what's up", "x"));
    assert!(!contains_mention("hex is cool", "x"));
}

#[test]
fn helpers_test_parse_timestamp_seconds() {
    assert_eq!(parse_timestamp_seconds("00:00:00"), Some(0));
    assert_eq!(parse_timestamp_seconds("00:00:01"), Some(1));
    assert_eq!(parse_timestamp_seconds("00:01:00"), Some(60));
    assert_eq!(parse_timestamp_seconds("01:00:00"), Some(3600));
    assert_eq!(parse_timestamp_seconds("12:30:45"), Some(45045));
    assert_eq!(parse_timestamp_seconds("23:59:59"), Some(86399));
    assert_eq!(parse_timestamp_seconds("invalid"), None);
    assert_eq!(parse_timestamp_seconds("12:30"), None);
    assert_eq!(parse_timestamp_seconds(""), None);
    assert_eq!(parse_timestamp_seconds("aa:bb:cc"), None);
}

#[test]
fn helpers_test_timestamps_within_window() {
    assert!(timestamps_within_window("12:00:00", "12:00:00"));
    assert!(timestamps_within_window("12:00:00", "12:04:59"));
    assert!(timestamps_within_window("12:00:00", "12:05:00"));
    assert!(!timestamps_within_window("12:00:00", "12:05:01"));
    assert!(!timestamps_within_window("12:00:00", "12:10:00"));
    assert!(timestamps_within_window("23:58:00", "00:01:00"));
    assert!(!timestamps_within_window("invalid", "12:00:00"));
    assert!(!timestamps_within_window("12:00:00", "invalid"));
}

#[test]
fn helpers_test_contains_mention_basic() {
    assert!(contains_mention("hey alice how are you", "alice"));
    assert!(contains_mention("alice: check this out", "alice"));
    assert!(contains_mention("hello alice!", "alice"));
    assert!(contains_mention("Hey ALICE, how are you?", "alice"));
    assert!(contains_mention("Hey Alice, how are you?", "alice"));
    assert!(contains_mention("hey alice, how are you?", "ALICE"));
    assert!(contains_mention("@alice check this out", "alice"));
    assert!(contains_mention("hey @alice", "alice"));
}

#[test]
fn helpers_test_contains_mention_word_boundaries() {
    assert!(!contains_mention("malice aforethought", "alice"));
    assert!(!contains_mention("bobcat is cute", "bob"));
    assert!(!contains_mention("jacoby is here", "jacob"));
    assert!(contains_mention("alice", "alice"));
    assert!(contains_mention("hi alice", "alice"));
    assert!(contains_mention("alice says hi", "alice"));
    assert!(contains_mention("alice's message", "alice"));
    assert!(contains_mention("(alice)", "alice"));
    assert!(contains_mention("[alice]", "alice"));
}

#[test]
fn helpers_test_contains_mention_edge_cases() {
    assert!(!contains_mention("hello world", ""));
    assert!(!contains_mention("", "alice"));
    assert!(contains_mention("hey x what's up", "x"));
    assert!(!contains_mention("hex is cool", "x"));
}

#[test]
fn messages_test_group_messages_time_gap() {
    let messages = vec![
        m("12:00:00", "alice", "Hello", MessageType::Normal),
        m("12:02:00", "alice", "Still here", MessageType::Normal),
        m("12:12:00", "alice", "Back again", MessageType::Normal),
    ];
    let groups = group_messages(&messages);
    assert_eq!(groups.len(), 2);
    assert_eq!(groups[0].messages.len(), 2);
    assert_eq!(groups[1].messages.len(), 1);
}

#[test]
fn messages_test_group_messages_different_senders() {
    let messages = vec![
        m("12:00:00", "alice", "Hello", MessageType::Normal),
        m("12:00:30", "bob", "Hi!", MessageType::Normal),
        m("12:01:00", "alice", "How are you?", MessageType::Normal),
    ];
    let groups = group_messages(&messages);
    assert_eq!(groups.len(), 3);
    assert_eq!(groups[0].sender, "alice");
    assert_eq!(groups[1].sender, "bob");
    assert_eq!(groups[2].sender, "alice");
}

#[test]
fn render_test_group_messages_time_gap() {
    let messages = vec![
        m("12:00:00", "alice", "Hello", MessageType::Normal),
        m("12:02:00", "alice", "Still here", MessageType::Normal),
        m("12:12:00", "alice", "Back again", MessageType::Normal),
    ];
    let groups = group_messages(&messages);
    assert_eq!(groups.len(), 2);
    assert_eq!(groups[0].messages.len(), 2);
    assert_eq!(groups[1].messages.len(), 1);
}

#[test]
fn render_test_group_messages_different_senders() {
    let messages = vec![
        m("12:00:00", "alice", "Hello", MessageType::Normal),
        m("12:00:30", "bob", "Hi!", MessageType::Normal),
        m("12:01:00", "alice", "How are you?", MessageType::Normal),
    ];
    let groups = group_messages(&messages);
    assert_eq!(groups.len(), 3);
    assert_eq!(groups[0].sender, "alice");
    assert_eq!(groups[1].sender, "bob");
    assert_eq!(groups[2].sender, "alice");
}

#[test]
fn system_messages_stand_alone_and_positions_partition() {
    let messages = vec![
        m("12:00:00", "alice", "a", MessageType::Normal),
        m("12:00:10", "alice", "b", MessageType::Action),
        m("12:00:20", "alice", "joined", MessageType::Join),
        m("12:00:30", "alice", "c", MessageType::Normal),
        m("12:00:40", "alice", "d", MessageType::Topic),
        m("12:00:50", "bob", "e", MessageType::Notice),
        m("12:01:00", "bob", "f", MessageType::Normal),
        m("12:01:05", "bob", "g", MessageType::NickChange),
    ];
    let groups = group_messages(&messages);
    let idx: Vec<Vec<usize>> = groups.iter().map(|g| g.messages.clone()).collect();
    assert_eq!(idx, vec![vec![0, 1], vec![2], vec![3], vec![4], vec![5, 6], vec![7]]);
    let sys: Vec<bool> = groups.iter().map(|g| g.is_system).collect();
    assert_eq!(sys, vec![false, true, false, true, false, true]);
    assert_eq!(groups[4].first_timestamp, "12:00:50");
    assert!(group_messages(&[]).is_empty());
}

#[test]
fn timestamp_values_and_overflow_guard() {
    assert_eq!(timestamp_value("+1:00:00"), Some(3600));
    assert_eq!(timestamp_value("1:2:3"), Some(3723));
    assert_eq!(timestamp_value("4294967295:00:00"), Some(4294967295u64 * 3600));
    assert_eq!(timestamp_value("4294967296:00:00"), None);
    assert_eq!(timestamp_value("1:2:3:4"), None);
    assert_eq!(timestamp_value("-1:00:00"), None);
}

#[test]
fn mentions_answer_every_pair() {
    assert!(contains_mention("Hey ALICE", "alice"));
    assert!(contains_mention("ÉLAN arrives", "élan"));
    assert!(!contains_mention("nothing here", "alice"));
    assert!(!contains_mention("anything", ""));
    assert!(!contains_mention("éa", "é"));
    assert!(contains_mention("é a", "É"));
    assert!(contains_mention("ping, bob", "BOB"));
    assert!(!contains_mention("İalice", "alice"));
    assert!(contains_mention("alice İ", "alice"));
}

#[test]
fn grouping_guard_rejects_overflowing_comparisons() {
    assert!(window_is_safe("12:00:00", "12:01:00"));
    assert!(window_is_safe("junk", "99999999999:00:00"));
    assert!(!window_is_safe("99:00:00", "00:00:00"));
    assert!(!window_is_safe("4294967295:00:00", "00:00:00"));
    assert!(window_is_safe("4294967296:00:00", "00:00:00"));
    let bad = vec![
        m("99:00:00", "alice", "a", MessageType::Normal),
        m("00:00:00", "alice", "b", MessageType::Normal),
    ];
    assert!(group_messages_checked(&bad).is_none());
    let split = vec![
        m("99:00:00", "alice", "a", MessageType::Normal),
        m("00:00:00", "bob", "b", MessageType::Normal),
    ];
    assert_eq!(group_messages_checked(&split).unwrap().len(), 2);
    let ok = vec![
        m("23:58:00", "alice", "a", MessageType::Normal),
        m("00:01:00", "alice", "b", MessageType::Normal),
    ];
    assert_eq!(group_messages_checked(&ok).unwrap().len(), 1);
}
