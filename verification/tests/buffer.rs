use slirc_client::buffer::{ChannelBuffer, MessageType, RenderedMessage, MAX_BUFFER_MESSAGES};
use slirc_client::buffers::BufferMap;
use slirc_client::protocol::UserInfo;
use slirc_client::users::{find_user, has_user, remove_user, rename_user};
use std::collections::HashMap;

fn msg(ts: &str, sender: &str, text: &str) -> RenderedMessage {
    RenderedMessage {
        timestamp: ts.to_string(),
        sender: sender.to_string(),
        text: text.to_string(),
        msg_type: MessageType::Normal,
    }
}

#[test]
fn test_add_message_unread_and_trim() {
    let mut buf = ChannelBuffer::new();
    for i in 0..10 {
        buf.add_message(
            RenderedMessage::new(format!("10:{:02}", i), "alice".into(), format!("msg{}", i)),
            false,
            false,
        );
    }
    assert_eq!(buf.unread_count, 10);

    for i in 0..(MAX_BUFFER_MESSAGES + 10) {
        buf.add_message(RenderedMessage::new(format!("11:{:02}", i), "bob".into(), "X".into()), true, false);
    }
    assert!(buf.messages.len() <= MAX_BUFFER_MESSAGES);
}

#[test]
fn test_clear_unread() {
    let mut buf = ChannelBuffer::new();
    buf.add_message(RenderedMessage::new("12:00".into(), "a".into(), "hello".into()), false, false);
    assert_eq!(buf.unread_count, 1);
    buf.clear_unread();
    assert_eq!(buf.unread_count, 0);
    assert!(!buf.has_highlight);
}

#[test]
fn test_multi_channel_buffer_state() {
    let mut buffers: HashMap<String, ChannelBuffer> = HashMap::new();
    buffers.insert("-server-".to_string(), ChannelBuffer::new());
    buffers.insert("#rust".to_string(), ChannelBuffer::new());
    buffers.insert("#test".to_string(), ChannelBuffer::new());
    assert_eq!(buffers.len(), 3);

    buffers.get_mut("#rust").unwrap().add_message(msg("12:00", "alice", "Hello #rust!"), false, false);
    buffers.get_mut("#test").unwrap().add_message(msg("12:01", "bob", "Hello #test!"), false, false);

    assert_eq!(buffers.get("#rust").unwrap().messages.len(), 1);
    assert_eq!(buffers.get("#test").unwrap().messages.len(), 1);
    assert_eq!(buffers.get("-server-").unwrap().messages.len(), 0);
    assert_eq!(buffers.get("#rust").unwrap().unread_count, 1);
    assert_eq!(buffers.get("#test").unwrap().unread_count, 1);
}

#[test]
fn test_channel_user_list_management() {
    let mut buffer = ChannelBuffer::new();
    buffer.users.push(UserInfo { nick: "alice".to_string(), prefix: Some('@') });
    buffer.users.push(UserInfo { nick: "bob".to_string(), prefix: Some('+') });
    buffer.users.push(UserInfo { nick: "charlie".to_string(), prefix: None });
    assert_eq!(buffer.users.len(), 3);
    assert_eq!(buffer.users[0].nick, "alice");
    assert_eq!(buffer.users[0].prefix, Some('@'));

    buffer.users.retain(|u| u.nick != "bob");
    assert_eq!(buffer.users.len(), 2);
    assert!(!buffer.users.iter().any(|u| u.nick == "bob"));

    if let Some(user) = buffer.users.iter_mut().find(|u| u.nick == "charlie") {
        user.prefix = Some('+');
    }
    assert_eq!(buffer.users.iter().find(|u| u.nick == "charlie").unwrap().prefix, Some('+'));
}

#[test]
fn test_message_type_handling() {
    let mut buffer = ChannelBuffer::new();
    let messages = vec![
        (MessageType::Normal, "Normal message"),
        (MessageType::Action, "ACTION message"),
        (MessageType::Join, "joined"),
        (MessageType::Part, "left"),
        (MessageType::Quit, "quit"),
        (MessageType::NickChange, "changed nick"),
        (MessageType::Topic, "changed topic"),
        (MessageType::Notice, "NOTICE"),
    ];
    for (msg_type, text) in messages {
        buffer.add_message(
            RenderedMessage {
                timestamp: "12:00".to_string(),
                sender: "system".to_string(),
                text: text.to_string(),
                msg_type: msg_type.clone(),
            },
            false,
            false,
        );
    }
    assert_eq!(buffer.messages.len(), 8);
    assert_eq!(buffer.messages[0].msg_type, MessageType::Normal);
    assert_eq!(buffer.messages[1].msg_type, MessageType::Action);
    assert_eq!(buffer.messages[7].msg_type, MessageType::Notice);
}

#[test]
fn test_buffer_message_trimming() {
    let mut buffer = ChannelBuffer::new();
    for i in 0..2100 {
        buffer.add_message(
            RenderedMessage {
                timestamp: format!("12:{:02}", i % 60),
                sender: "test".to_string(),
                text: format!("Message {}", i),
                msg_type: MessageType::Normal,
            },
            false,
            false,
        );
    }
    assert!(buffer.messages.len() <= 2000);
}

#[test]
fn test_channel_topic_management() {
    let mut buffer = ChannelBuffer::new();
    assert_eq!(buffer.topic, "");
    buffer.topic = "Welcome to #test!".to_string();
    assert_eq!(buffer.topic, "Welcome to #test!");
    buffer.topic = "New topic".to_string();
    assert_eq!(buffer.topic, "New topic");
}

#[test]
fn test_unread_and_highlight_tracking() {
    let mut buffer = ChannelBuffer::new();
    buffer.add_message(msg("12:00", "alice", "Hello"), false, false);
    assert_eq!(buffer.unread_count, 1);
    assert!(!buffer.has_highlight);

    buffer.add_message(msg("12:01", "bob", "mynick: ping!"), false, true);
    assert_eq!(buffer.unread_count, 2);
    assert!(buffer.has_highlight);

    buffer.clear_unread();
    assert_eq!(buffer.unread_count, 0);
    assert!(!buffer.has_highlight);

    buffer.add_message(msg("12:02", "charlie", "Message in active buffer"), true, false);
    assert_eq!(buffer.unread_count, 0);
}

#[test]
fn test_user_info_structure() {
    let users = [
        UserInfo { nick: "owner".to_string(), prefix: Some('~') },
        UserInfo { nick: "admin".to_string(), prefix: Some('&') },
        UserInfo { nick: "op".to_string(), prefix: Some('@') },
        UserInfo { nick: "halfop".to_string(), prefix: Some('%') },
        UserInfo { nick: "voice".to_string(), prefix: Some('+') },
        UserInfo { nick: "regular".to_string(), prefix: None },
    ];
    assert_eq!(users.len(), 6);
    assert_eq!(users[0].prefix, Some('~'));
    assert_eq!(users[5].prefix, None);
}

#[test]
fn test_buffer_state_isolation() {
    let mut buffers: HashMap<String, ChannelBuffer> = HashMap::new();
    buffers.insert("#channel1".to_string(), ChannelBuffer::new());
    buffers.insert("#channel2".to_string(), ChannelBuffer::new());

    buffers.get_mut("#channel1").unwrap().users.push(UserInfo { nick: "alice".to_string(), prefix: Some('@') });
    buffers.get_mut("#channel2").unwrap().add_message(msg("12:00", "bob", "Hello"), false, false);

    assert_eq!(buffers.get("#channel1").unwrap().users.len(), 1);
    assert_eq!(buffers.get("#channel1").unwrap().messages.len(), 0);
    assert_eq!(buffers.get("#channel2").unwrap().users.len(), 0);
    assert_eq!(buffers.get("#channel2").unwrap().messages.len(), 1);
}

#[test]
fn test_buffer_state_management() {
    let mut buffer = ChannelBuffer::new();
    buffer.add_message(msg("12:00", "Alice", "Hello!"), false, false);
    buffer.add_message(msg("12:01", "Bob", "Hi there!"), false, false);
    assert_eq!(buffer.messages.len(), 2);
    assert_eq!(buffer.unread_count, 2);

    buffer.clear_unread();
    assert_eq!(buffer.unread_count, 0);

    buffer.users.push(UserInfo { nick: "Alice".to_string(), prefix: Some('@') });
    buffer.users.push(UserInfo { nick: "Bob".to_string(), prefix: None });
    assert_eq!(buffer.users.len(), 2);
}

#[test]
fn test_event_processing_flow() {
    let mut buffers = HashMap::new();
    let mut buffers_order = Vec::new();
    let names = vec![
        UserInfo { nick: "alice".to_string(), prefix: Some('@') },
        UserInfo { nick: "bob".to_string(), prefix: None },
    ];
    buffers.insert("#test".to_string(), ChannelBuffer::new());
    buffers_order.push("#test".to_string());

    let buffer = buffers.get_mut("#test").expect("Buffer should exist");
    buffer.users = names.clone();

    assert_eq!(buffer.users.len(), 2);
    assert!(buffer.users.iter().any(|u| u.nick == "alice"));
    assert!(buffer.users.iter().any(|u| u.nick == "bob"));
    assert_eq!(buffers_order.len(), 1);
}

#[test]
fn trimming_drops_the_oldest_messages() {
    let mut buffer = ChannelBuffer::new();
    for i in 0..=MAX_BUFFER_MESSAGES {
        buffer.add_message(msg("00:00", "s", &format!("m{}", i)), true, false);
    }
    // 2001 messages pushed: the oldest 500 are dropped, 1501 remain.
    assert_eq!(buffer.messages.len(), 1501);
    assert_eq!(buffer.messages[0].text, "m500");
    assert_eq!(buffer.messages[1500].text, "m2000");
    assert_eq!(buffer.unread_count, 0);
}

#[test]
fn buffer_map_insert_get_remove() {
    let mut map = BufferMap::new();
    assert_eq!(map.len(), 0);
    map.insert("#a".to_string(), ChannelBuffer::new());
    map.insert("#b".to_string(), ChannelBuffer::new());
    let mut replaced = ChannelBuffer::new();
    replaced.topic = "t".to_string();
    map.insert("#a".to_string(), replaced);
    assert_eq!(map.len(), 2);
    assert!(map.contains_key("#a"));
    assert_eq!(map.get("#a").unwrap().topic, "t");
    assert!(map.get("#c").is_none());
    let removed = map.remove("#a").unwrap();
    assert_eq!(removed.topic, "t");
    assert!(!map.contains_key("#a"));
    assert!(map.remove("#a").is_none());
    assert_eq!(map.len(), 1);
}

#[test]
fn user_list_helpers() {
    let mut users = vec![
        UserInfo { nick: "alice".to_string(), prefix: Some('@') },
        UserInfo { nick: "bob".to_string(), prefix: None },
    ];
    assert_eq!(find_user(&users, "bob"), Some(1));
    assert!(has_user(&users, "alice"));
    rename_user(&mut users, "bob", "robert");
    assert_eq!(users[1].nick, "robert");
    assert!(!has_user(&users, "bob"));
    remove_user(&mut users, "alice");
    assert_eq!(users.len(), 1);
    assert_eq!(find_user(&users, "alice"), None);
}
