use slirc_client::buffer::{ChannelBuffer, RenderedMessage};
use slirc_client::buffers::BufferMap;
use slirc_client::events::event_adds_message;
use slirc_client::input_state::InputState;
use slirc_client::protocol::{GuiEvent, UserInfo};
use slirc_client::ui::links::{message_pieces, TextPiece};
use slirc_client::ui::menu::can_part_channel;
use slirc_client::ui::messages::contains_mention;
use slirc_client::ui::panels::categorize_buffers;
use slirc_client::ui::shortcuts::{ShortcutCategory, ShortcutRegistry};
use slirc_client::ui::topic_bar::{toggle_mute, topic_double_clicked, TopicBarAction};
use slirc_client::text::{char_is_control, char_is_whitespace};
use slirc_client::validation::{sanitize_message, validate_message, validate_server_address};

fn line(i: usize) -> RenderedMessage {
    RenderedMessage::new(format!("{}", i), "alice".into(), format!("m{}", i))
}

#[test]
fn pins_follow_their_messages_when_the_buffer_is_trimmed() {
    let mut buf = ChannelBuffer::new();
    for i in 0..2000 {
        buf.add_message(line(i), true, false);
    }
    buf.pinned_messages = vec![10, 600, 1999];
    buf.add_message(line(2000), true, false);
    assert_eq!(buf.messages.len(), 1501);
    assert_eq!(buf.pinned_messages, vec![100, 1499]);
    assert_eq!(buf.messages[100].text, "m600");
    assert_eq!(buf.messages[1499].text, "m1999");
}

#[test]
fn pins_stay_put_without_trimming() {
    let mut buf = ChannelBuffer::new();
    for i in 0..5 {
        buf.add_message(line(i), true, false);
    }
    buf.pinned_messages = vec![0, 3];
    buf.add_message(line(5), true, false);
    assert_eq!(buf.pinned_messages, vec![0, 3]);
}

#[test]
fn history_k_steps_up_then_down_restores_the_input() {
    for k in 1..6 {
        let mut input = InputState::new();
        input.history = vec!["one".into(), "two".into(), "three".into()];
        input.message_input = "typing".into();
        for _ in 0..k {
            input.history_up();
        }
        for _ in 0..k {
            input.history_down();
        }
        assert_eq!(input.message_input, "typing");
        assert!(input.history_pos.is_none());
        assert!(input.history_saved_input.is_none());
        assert_eq!(input.history.len(), 3);
    }
}

#[test]
fn server_address_round_trips_through_host_and_port() {
    for addr in ["irc.libera.chat", "irc.libera.chat:6697", "localhost:+7000", "h:1"] {
        let (host, port) = validate_server_address(addr).unwrap();
        let again = validate_server_address(&format!("{}:{}", host, port)).unwrap();
        assert_eq!(again, (host, port));
    }
    assert_eq!(validate_server_address("irc.libera.chat").unwrap(), ("irc.libera.chat".to_string(), 6667));
}

#[test]
fn buffer_sections_cover_every_buffer() {
    let order: Vec<String> = vec!["System".into(), "#rust".into(), "bob".into(), "&local".into(), "alice".into()];
    let (channels, direct, system) = categorize_buffers(&order, "");
    assert_eq!(channels.len() + direct.len() + system.len(), order.len());
    assert_eq!(channels, vec![1, 3]);
    assert_eq!(direct, vec![2, 4]);
    assert_eq!(system, vec![0]);
}

#[test]
fn shortcut_categories_add_up_to_all_shortcuts() {
    let registry = ShortcutRegistry::new();
    let total: usize = [
        ShortcutCategory::File,
        ShortcutCategory::Edit,
        ShortcutCategory::View,
        ShortcutCategory::Server,
        ShortcutCategory::Window,
        ShortcutCategory::Navigation,
    ]
    .iter()
    .map(|c| registry.by_category(*c).len())
    .sum();
    assert_eq!(total, registry.all().len());
}

#[test]
fn sanitized_line_is_a_subsequence_and_valid() {
    let raw = "hi\r\nthere\0 friend";
    let clean = sanitize_message(raw);
    assert_eq!(clean, "hithere friend");
    let mut rest = raw.chars();
    assert!(clean.chars().all(|c| rest.any(|d| d == c)));
    assert!(validate_message(&clean).is_ok());
    assert_eq!(sanitize_message(&clean), clean);
}

#[test]
fn lowercasing_makes_mentions_case_insensitive() {
    assert!(contains_mention("HEY ALICE", "alice"));
    assert!(contains_mention("hey alice", "ALICE"));
    assert!(!contains_mention("ALICES", "alice"));
}

#[test]
fn events_that_add_messages() {
    assert!(event_adds_message(&GuiEvent::MessageReceived {
        target: "#rust".into(),
        sender: "bob".into(),
        text: "hi".into(),
    }));
    assert!(event_adds_message(&GuiEvent::UserJoined { channel: "#rust".into(), nick: "bob".into() }));
    assert!(!event_adds_message(&GuiEvent::Connected));
    assert!(!event_adds_message(&GuiEvent::RawMessage("x".into())));
}

fn channel_with_modes(modes: &str) -> BufferMap {
    let mut buffers = BufferMap::new();
    let mut buffer = ChannelBuffer::new();
    buffer.channel_modes = modes.to_string();
    buffer.users = vec![
        UserInfo { nick: "alice".into(), prefix: None },
        UserInfo { nick: "bob".into(), prefix: Some('@') },
    ];
    buffers.insert("#test".to_string(), buffer);
    buffers
}

#[test]
fn refused_topic_edit_is_logged() {
    let buffers = channel_with_modes("t");
    let mut log: Vec<String> = vec!["earlier".into()];
    assert!(topic_double_clicked("#test", &buffers, "alice", &mut log).is_none());
    assert_eq!(log, vec!["earlier".to_string(), "You don't have permission to change the topic (channel is +t)".to_string()]);
    match topic_double_clicked("#test", &buffers, "bob", &mut log) {
        Some(TopicBarAction::EditTopic(c)) => assert_eq!(c, "#test"),
        other => panic!("unexpected {:?}", other),
    }
    assert_eq!(log.len(), 2);
    let open = channel_with_modes("");
    assert!(matches!(topic_double_clicked("#test", &open, "alice", &mut log), Some(TopicBarAction::EditTopic(_))));
    assert_eq!(log.len(), 2);
}

#[test]
fn mute_button_flips_notifications() {
    let mut buffers = channel_with_modes("");
    assert!(!buffers.get("#test").unwrap().notifications_muted);
    toggle_mute(&mut buffers, "#test");
    assert!(buffers.get("#test").unwrap().notifications_muted);
    toggle_mute(&mut buffers, "#test");
    assert!(!buffers.get("#test").unwrap().notifications_muted);
    toggle_mute(&mut buffers, "#missing");
    assert_eq!(buffers.len(), 1);
}

#[test]
fn links_are_found_anywhere_in_a_word() {
    let none: Vec<UserInfo> = Vec::new();
    let pieces = message_pieces("(http://x) https:// HTTP://y", &none);
    assert!(matches!(&pieces[0], TextPiece::Link { url, .. } if url == "(http://x)"));
    assert!(matches!(&pieces[1], TextPiece::Plain(w) if w == "https:// "));
    assert!(matches!(&pieces[2], TextPiece::Plain(w) if w == "HTTP://y"));
}

#[test]
fn buffer_keeps_at_most_two_thousand_messages() {
    let mut buf = ChannelBuffer::new();
    for i in 0..2100 {
        buf.add_message(line(i), true, false);
        assert!(buf.messages.len() <= 2000);
        assert_eq!(buf.messages.last().unwrap().text, format!("m{}", i));
    }
    assert_eq!(buf.messages.len(), 1600);
    assert_eq!(buf.messages[0].text, "m500");
}

#[test]
fn whitespace_and_control_agree_with_std_on_every_char() {
    for c in (0u32..=0x10FFFF).filter_map(char::from_u32) {
        assert_eq!(char_is_whitespace(c), c.is_whitespace(), "{:?}", c);
        assert_eq!(char_is_control(c), c.is_control(), "{:?}", c);
    }
}

#[test]
fn part_channel_is_offered_only_in_a_hash_channel_while_connected() {
    assert!(can_part_channel(true, "#rust"));
    assert!(!can_part_channel(false, "#rust"));
    assert!(!can_part_channel(true, "System"));
    assert!(!can_part_channel(true, "&local"));
    assert!(!can_part_channel(true, "bob"));
    assert!(!can_part_channel(true, ""));
}
