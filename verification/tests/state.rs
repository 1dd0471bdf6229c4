use slirc_client::compose::submit_input;
use slirc_client::compose::{cancel_input, note_edit, tab_complete};
use slirc_client::buffer_events::close_buffer;
use slirc_client::dialog_manager::auto_connect_index;
use slirc_client::ui::panels::categorize_buffers;
use slirc_client::ui::topic_bar::is_channel_op;
use slirc_client::backend::handlers::route_message;
use slirc_client::backend::message::{CapSub, ChannelModeKind, IrcCommand, IrcMessage, ModeChange, OutgoingMessage};
use slirc_client::backend::state::{ActionIo, AfterWrite, BackendState, RegistrationState, SaslSubState};
use slirc_client::buffer::MessageType;
use slirc_client::buffers::BufferMap;
use slirc_client::buffer::ChannelBuffer;
use slirc_client::events::{has_unread_room, process_event};
use slirc_client::input_state::InputState;
use slirc_client::protocol::{BackendAction, GuiEvent, UserInfo};
use slirc_client::state::ClientState;

#[test]
fn test_input_state_new() {
    let input = InputState::new();
    assert!(input.message_input.is_empty());
    assert!(input.history.is_empty());
    assert!(input.history_pos.is_none());
}

#[test]
fn test_history_navigation() {
    let mut input = InputState::new();
    input.history = vec!["first".into(), "second".into(), "third".into()];
    input.message_input = "current".into();

    input.history_up();
    assert_eq!(input.message_input, "third");
    assert_eq!(input.history_saved_input, Some("current".into()));
    input.history_up();
    assert_eq!(input.message_input, "second");
    input.history_up();
    assert_eq!(input.message_input, "first");

    input.history_down();
    assert_eq!(input.message_input, "second");
    input.history_down();
    assert_eq!(input.message_input, "third");
    input.history_down();
    assert_eq!(input.message_input, "current");
    assert!(input.history_pos.is_none());
}

#[test]
fn test_word_bounds() {
    let mut input = InputState::new();
    input.message_input = "hello world test".into();
    let (start, end) = input.current_last_word_bounds();
    assert_eq!(start, 12);
    assert_eq!(end, 16);
    assert_eq!(&input.message_input[start..end], "test");
}

#[test]
fn test_apply_completion_nick() {
    let mut input = InputState::new();
    input.message_input = "tes".into();
    input.apply_completion("testuser", 0, 3);
    assert_eq!(input.message_input, "testuser: ");
}

#[test]
fn test_apply_completion_command() {
    let mut input = InputState::new();
    input.message_input = "/jo".into();
    input.apply_completion("/join", 0, 3);
    assert_eq!(input.message_input, "/join ");
}

#[test]
fn completion_mid_line_and_unicode_bounds() {
    let mut input = InputState::new();
    input.message_input = "hi al".into();
    let (start, _) = input.current_last_word_bounds();
    assert_eq!(start, 3);
    input.apply_completion("alice", start, 5);
    assert_eq!(input.message_input, "hi alice ");

    input.message_input = "héllo wörld".into();
    let (start, end) = input.current_last_word_bounds();
    assert_eq!((start, end), (7, 13));
    assert_eq!(&input.message_input[start..end], "wörld");
}

#[test]
fn completions_are_sorted_and_cycle() {
    let mut buffers = BufferMap::new();
    let mut chan = ChannelBuffer::new();
    chan.users = vec![
        UserInfo { nick: "bob".to_string(), prefix: None },
        UserInfo { nick: "alice".to_string(), prefix: Some('@') },
        UserInfo { nick: "albert".to_string(), prefix: None },
    ];
    buffers.insert("#rust".to_string(), chan);
    let order = vec!["#rust".to_string(), "#random".to_string()];
    let input = InputState::new();
    assert_eq!(input.collect_completions("al", &order, "#rust", &buffers), vec!["albert", "alice"]);
    assert_eq!(input.collect_completions("@al", &order, "#rust", &buffers), vec!["@albert", "@alice"]);
    assert_eq!(input.collect_completions("#r", &order, "#rust", &buffers), vec!["#random", "#rust"]);
    assert_eq!(input.collect_completions("/jo", &order, "#rust", &buffers), vec!["/join"]);

    let mut input = InputState::new();
    input.message_input = "al".into();
    input.completions = vec!["albert".to_string(), "alice".to_string()];
    assert!(input.cycle_completion(1));
    assert_eq!(input.message_input, "albert: ");
    assert_eq!(input.completion_index, Some(0));
    input.message_input = "al".into();
    assert!(input.cycle_completion(1));
    assert_eq!(input.completion_index, Some(1));
    assert_eq!(input.message_input, "alice: ");
    input.completions.clear();
    assert!(!input.cycle_completion(1));
}

#[test]
fn test_client_state_new() {
    let state = ClientState::new();
    assert!(!state.is_connected);
    assert!(state.buffers.contains_key("System"));
    assert_eq!(state.active_buffer, "System");
    assert_eq!(state.buffers_order, vec!["System"]);
}

#[test]
fn test_ensure_buffer() {
    let mut state = ClientState::new();
    state.ensure_buffer("#test");
    assert!(state.buffers.contains_key("#test"));
    assert!(state.buffers_order.contains(&"#test".to_string()));
}

#[test]
fn test_next_prev_buffer() {
    let mut state = ClientState::new();
    state.ensure_buffer("#chan1");
    state.ensure_buffer("#chan2");
    assert_eq!(state.active_buffer, "System");
    state.next_buffer();
    assert_eq!(state.active_buffer, "#chan1");
    state.next_buffer();
    assert_eq!(state.active_buffer, "#chan2");
    state.next_buffer();
    assert_eq!(state.active_buffer, "System");
    state.prev_buffer();
    assert_eq!(state.active_buffer, "#chan2");
}

#[test]
fn test_switch_to_buffer() {
    let mut state = ClientState::new();
    state.ensure_buffer("#test");
    state.switch_to_buffer("#test");
    assert_eq!(state.active_buffer, "#test");
    state.switch_to_buffer("#nonexistent");
    assert_eq!(state.active_buffer, "#test");
}

fn apply(state: &mut ClientState, nick: &mut String, e: GuiEvent) -> Option<slirc_client::logging::LogEntry> {
    assert!(has_unread_room(state));
    process_event(state, e, nick, "10:00:00", 100, "irc.test", &None)
}

#[test]
fn event_flow_channel_lifecycle() {
    let mut state = ClientState::new();
    let mut nick = "me".to_string();

    apply(&mut state, &mut nick, GuiEvent::Connected);
    assert!(state.is_connected);
    assert_eq!(state.system_log.last().unwrap(), "[10:00:00] ✓ Connected and registered!");
    assert_eq!(state.status_messages.last().unwrap().0, "Connected to irc.test");
    assert!(state.expanded_networks.contains(&"irc.test".to_string()));

    apply(&mut state, &mut nick, GuiEvent::JoinedChannel("#rust".to_string()));
    assert_eq!(state.active_buffer, "#rust");
    assert_eq!(state.buffers_order, vec!["System", "#rust"]);
    assert_eq!(state.system_log.last().unwrap(), "[10:00:00] ✓ Joined #rust");

    apply(&mut state, &mut nick, GuiEvent::Names {
        channel: "#rust".to_string(),
        names: vec![
            UserInfo { nick: "me".to_string(), prefix: None },
            UserInfo { nick: "bob".to_string(), prefix: Some('@') },
        ],
    });
    apply(&mut state, &mut nick, GuiEvent::UserJoined { channel: "#rust".to_string(), nick: "carol".to_string() });
    {
        let b = state.buffers.get("#rust").unwrap();
        assert!(b.users.iter().any(|u| u.nick == "carol"));
        let last = b.messages.last().unwrap();
        assert_eq!(last.text, "carol joined");
        assert_eq!(last.sender, "→");
        assert_eq!(last.msg_type, MessageType::Join);
        assert_eq!(b.unread_count, 0);
    }

    let entry = apply(&mut state, &mut nick, GuiEvent::MessageReceived {
        target: "#rust".to_string(),
        sender: "dave".to_string(),
        text: "hello me".to_string(),
    })
    .unwrap();
    assert_eq!(entry.channel, "#rust");
    assert_eq!(entry.network, "irc.test");
    assert_eq!(entry.nick, "dave");
    assert_eq!(entry.message, "hello me");
    assert!(state.buffers.get("#rust").unwrap().users.iter().any(|u| u.nick == "dave"));

    // A private message goes to a buffer named after the sender, unread.
    let entry = apply(&mut state, &mut nick, GuiEvent::MessageReceived {
        target: "me".to_string(),
        sender: "erin".to_string(),
        text: "\x01ACTION waves\x01".to_string(),
    })
    .unwrap();
    assert_eq!(entry.channel, "erin");
    let pm = state.buffers.get("erin").unwrap();
    assert_eq!(pm.unread_count, 1);
    assert_eq!(pm.messages[0].msg_type, MessageType::Action);

    apply(&mut state, &mut nick, GuiEvent::UserParted {
        channel: "#rust".to_string(),
        nick: "carol".to_string(),
        message: Some("bye".to_string()),
    });
    {
        let b = state.buffers.get("#rust").unwrap();
        assert!(!b.users.iter().any(|u| u.nick == "carol"));
        assert_eq!(b.messages.last().unwrap().text, "carol left (bye)");
    }

    apply(&mut state, &mut nick, GuiEvent::NickChanged { old: "me".to_string(), new: "me2".to_string() });
    assert_eq!(nick, "me2");
    assert!(state.buffers.get("#rust").unwrap().users.iter().any(|u| u.nick == "me2"));
    assert_eq!(state.system_log.last().unwrap(), "[10:00:00] Nick changed to me2 (was: me)");

    apply(&mut state, &mut nick, GuiEvent::Topic { channel: "#rust".to_string(), topic: "Rust!".to_string() });
    assert_eq!(state.buffers.get("#rust").unwrap().topic, "Rust!");

    apply(&mut state, &mut nick, GuiEvent::PartedChannel("#rust".to_string()));
    assert!(!state.buffers.contains_key("#rust"));
    assert_eq!(state.active_buffer, "System");
    assert!(!state.buffers_order.contains(&"#rust".to_string()));

    apply(&mut state, &mut nick, GuiEvent::Disconnected("bye".to_string()));
    assert!(!state.is_connected);
    assert_eq!(state.system_log.last().unwrap(), "[10:00:00] ✗ Disconnected: bye");
}

#[test]
fn event_flow_quit_mode_and_raw() {
    let mut state = ClientState::new();
    let mut nick = "me".to_string();
    apply(&mut state, &mut nick, GuiEvent::Names {
        channel: "#a".to_string(),
        names: vec![UserInfo { nick: "bob".to_string(), prefix: None }],
    });
    apply(&mut state, &mut nick, GuiEvent::UserMode {
        channel: "#a".to_string(),
        nick: "bob".to_string(),
        prefix: Some('@'),
        added: true,
    });
    assert_eq!(state.buffers.get("#a").unwrap().users[0].prefix, Some('@'));
    apply(&mut state, &mut nick, GuiEvent::UserQuit { nick: "bob".to_string(), message: None });
    assert!(state.buffers.get("#a").unwrap().users.is_empty());

    apply(&mut state, &mut nick, GuiEvent::RawMessage("hello".to_string()));
    assert_eq!(state.system_log.last().unwrap(), "[10:00:00] hello");
    apply(&mut state, &mut nick, GuiEvent::Error("boom".to_string()));
    assert_eq!(state.system_log.last().unwrap(), "[10:00:00] ⚠ Error: boom");
    assert_eq!(state.status_messages.last().unwrap().0, "Error: boom");
    let before = state.system_log.len();
    assert!(apply(&mut state, &mut nick, GuiEvent::ChannelListEnd).is_none());
    assert_eq!(state.system_log.len(), before);
}

fn msg(source: Option<&str>, command: IrcCommand) -> IrcMessage {
    IrcMessage { source_nick: source.map(|s| s.to_string()), command }
}

#[test]
fn routing_numeric_and_commands() {
    let (ev, renamed) = route_message(
        &msg(None, IrcCommand::Response {
            code: 353,
            args: vec!["me".into(), "=".into(), "#a".into(), "@op +voice plain".into()],
        }),
        "me",
    );
    assert!(renamed.is_none());
    match &ev[..] {
        [GuiEvent::Names { channel, names }] => {
            assert_eq!(channel, "#a");
            let got: Vec<(String, Option<char>)> = names.iter().map(|u| (u.nick.clone(), u.prefix)).collect();
            assert_eq!(got, vec![("op".into(), Some('@')), ("voice".into(), Some('+')), ("plain".into(), None)]);
        }
        other => panic!("{:?}", other),
    }
    let (ev, _) = route_message(
        &msg(None, IrcCommand::Response { code: 322, args: vec!["me".into(), "#a".into(), "x".into(), "t".into()] }),
        "me",
    );
    assert!(matches!(&ev[..], [GuiEvent::ChannelListItem { user_count: 0, .. }]));
    let (ev, _) = route_message(
        &msg(None, IrcCommand::Response { code: 322, args: vec!["me".into(), "#a".into(), "42".into(), "t".into()] }),
        "me",
    );
    assert!(matches!(&ev[..], [GuiEvent::ChannelListItem { user_count: 42, .. }]));
    let (ev, _) = route_message(&msg(Some("me"), IrcCommand::Join("#a".into())), "me");
    assert!(matches!(&ev[..], [GuiEvent::JoinedChannel(c)] if c == "#a"));
    let (ev, _) = route_message(&msg(Some("bob"), IrcCommand::Join("#a".into())), "me");
    assert!(matches!(&ev[..], [GuiEvent::UserJoined { nick, .. }] if nick == "bob"));
    let (ev, renamed) = route_message(&msg(Some("me"), IrcCommand::Nick("you".into())), "me");
    assert_eq!(renamed.as_deref(), Some("you"));
    assert!(matches!(&ev[..], [GuiEvent::NickChanged { old, new }] if old == "me" && new == "you"));
    let (ev, _) = route_message(&msg(None, IrcCommand::Notice { target: "me".into(), text: "hi".into() }), "me");
    assert!(matches!(&ev[..], [GuiEvent::MessageReceived { sender, .. }] if sender == "-server-"));
    let (ev, _) = route_message(&msg(None, IrcCommand::Quit(None)), "me");
    assert!(ev.is_empty());
}

#[test]
fn routing_channel_modes() {
    let modes = vec![
        ModeChange::Plus(ChannelModeKind::Oper, Some("bob".into())),
        ModeChange::Plus(ChannelModeKind::Moderated, None),
        ModeChange::Minus(ChannelModeKind::ProtectedTopic, None),
        ModeChange::Minus(ChannelModeKind::Voice, Some("carol".into())),
        ModeChange::Plus(ChannelModeKind::Ban, None),
    ];
    let (ev, _) = route_message(&msg(Some("op"), IrcCommand::ChannelMode { channel: "#a".into(), modes }), "me");
    assert_eq!(ev.len(), 3);
    assert!(matches!(&ev[0], GuiEvent::UserMode { nick, prefix: Some('@'), added: true, .. } if nick == "bob"));
    assert!(matches!(&ev[1], GuiEvent::UserMode { nick, prefix: Some('+'), added: false, .. } if nick == "carol"));
    match &ev[2] {
        GuiEvent::ChannelMode { channel, modes, set_by } => {
            assert_eq!(channel, "#a");
            assert_eq!(modes, "+m-t");
            assert_eq!(set_by, "op");
        }
        other => panic!("{:?}", other),
    }
}

fn server(state: &mut BackendState, command: IrcCommand) -> (Vec<OutgoingMessage>, Vec<GuiEvent>) {
    state.handle_server_message(IrcMessage { source_nick: None, command })
}

#[test]
fn registration_with_sasl() {
    let mut st = BackendState::new();
    let out = st.handle_backend_action(BackendAction::Connect {
        server: "irc.test".into(),
        port: 6697,
        nickname: "me".into(),
        username: "user".into(),
        realname: "Real".into(),
        use_tls: true,
        auto_reconnect: false,
        sasl_password: Some("pw".into()),
    });
    assert!(matches!(&out.events[..], [GuiEvent::RawMessage(m)] if m == "Connecting to irc.test:6697 via TLS..."));
    assert!(matches!(out.io, ActionIo::Connect { port: 6697, use_tls: true, .. }));
    assert_eq!(st.reg_state, RegistrationState::Initial);

    let (ev, first) = st.connect_finished(Ok(()));
    assert!(matches!(&ev[..], [GuiEvent::RawMessage(m)] if m == "Starting CAP negotiation..."));
    assert!(matches!(first, Some(OutgoingMessage::CapLs)));
    assert!(st.write_finished(AfterWrite::CapLsSent, Ok(())).is_empty());
    assert!(st.connected);
    assert_eq!(st.reg_state, RegistrationState::CapLsSent);

    let (o, e) = server(&mut st, IrcCommand::Cap {
        sub: CapSub::Ls,
        star_or_caps: Some("*".into()),
        maybe_caps: Some("multi-prefix sasl=PLAIN".into()),
    });
    assert!(o.is_empty() && e.is_empty());
    let (o, e) = server(&mut st, IrcCommand::Cap {
        sub: CapSub::Ls,
        star_or_caps: Some("server-time away-notify".into()),
        maybe_caps: None,
    });
    assert!(matches!(&o[..], [OutgoingMessage::CapReq(c)] if c == "multi-prefix server-time away-notify sasl"));
    assert_eq!(e.len(), 2);
    assert!(matches!(&e[0], GuiEvent::RawMessage(m) if m.starts_with("Server capabilities: {")));
    assert!(matches!(&e[1], GuiEvent::RawMessage(m) if m == "Requesting capabilities: multi-prefix server-time away-notify sasl"));
    assert_eq!(st.reg_state, RegistrationState::CapReqSent);

    let (o, _) = server(&mut st, IrcCommand::Cap {
        sub: CapSub::Ack,
        star_or_caps: Some("multi-prefix server-time away-notify sasl".into()),
        maybe_caps: None,
    });
    assert!(matches!(&o[..], [OutgoingMessage::AuthenticateMechanism(m)] if m == "PLAIN"));
    assert_eq!(st.reg_state, RegistrationState::SaslAuth(SaslSubState::MechanismSent));

    let (o, _) = server(&mut st, IrcCommand::Authenticate("+".into()));
    assert!(matches!(&o[..], [OutgoingMessage::AuthenticatePlain { username, password }] if username == "user" && password == "pw"));
    assert_eq!(st.reg_state, RegistrationState::SaslAuth(SaslSubState::CredentialsSent));

    let (o, e) = server(&mut st, IrcCommand::Response { code: 903, args: vec!["me".into(), "You are now logged in".into()] });
    assert!(matches!(&e[0], GuiEvent::SaslResult { success: true, message } if message == "You are now logged in"));
    assert!(matches!(&e[1], GuiEvent::RawMessage(m) if m == "SASL authentication successful: You are now logged in"));
    assert!(matches!(&o[..], [OutgoingMessage::CapEnd, OutgoingMessage::Nick(n), OutgoingMessage::User { .. }] if n == "me"));
    assert_eq!(st.reg_state, RegistrationState::Registering);

    let (o, e) = server(&mut st, IrcCommand::Response { code: 1, args: vec![] });
    assert!(o.is_empty());
    assert!(matches!(&e[..], [GuiEvent::Connected]));
    assert_eq!(st.reg_state, RegistrationState::Registered);
    assert!(st.pending_reg.is_none());

    let (o, _) = server(&mut st, IrcCommand::Ping("srv".into()));
    assert!(matches!(&o[..], [OutgoingMessage::Pong(s)] if s == "srv"));
}

#[test]
fn registration_without_caps_and_actions_when_offline() {
    let mut st = BackendState::new();
    let out = st.handle_backend_action(BackendAction::Join("#a".into()));
    assert!(out.events.is_empty());
    assert!(matches!(out.io, ActionIo::Nothing));
    let out = st.handle_backend_action(BackendAction::Whois("bob".into()));
    assert!(matches!(&out.events[..], [GuiEvent::Error(m)] if m == "Not connected"));

    let _ = st.handle_backend_action(BackendAction::Connect {
        server: "h".into(),
        port: 6667,
        nickname: "me".into(),
        username: "u".into(),
        realname: "r".into(),
        use_tls: false,
        auto_reconnect: true,
        sasl_password: None,
    });
    let _ = st.write_finished(AfterWrite::CapLsSent, Ok(()));
    let (o, _) = server(&mut st, IrcCommand::Cap { sub: CapSub::Ls, star_or_caps: Some("sasl".into()), maybe_caps: None });
    assert!(matches!(&o[..], [OutgoingMessage::CapEnd, OutgoingMessage::Nick(_), OutgoingMessage::User { .. }]));
    assert_eq!(st.reg_state, RegistrationState::Registering);

    let out = st.handle_backend_action(BackendAction::Nick("new".into()));
    match out.io {
        ActionIo::Write(OutgoingMessage::Nick(n), after) => {
            assert_eq!(n, "new");
            let ev = st.write_finished(after, Ok(()));
            assert!(matches!(&ev[..], [GuiEvent::NickChanged { old, new }] if old == "me" && new == "new"));
            assert_eq!(st.current_nick, "new");
        }
        other => panic!("{:?}", other),
    }
    let out = st.handle_backend_action(BackendAction::SendMessage { target: "#a".into(), text: "x".into() });
    match out.io {
        ActionIo::Write(_, after) => {
            let ev = st.write_finished(after, Err("broken".into()));
            assert!(matches!(&ev[..], [GuiEvent::Error(m)] if m == "Failed to send: broken"));
        }
        other => panic!("{:?}", other),
    }
    let ev = st.connection_closed();
    assert_eq!(ev.len(), 2);
    assert!(!st.connected);
    let ev = st.read_failed("eof");
    assert!(matches!(&ev[0], GuiEvent::Error(m) if m == "Read error: eof"));
    let out = st.handle_backend_action(BackendAction::Disconnect);
    assert!(matches!(out.io, ActionIo::Close(None)));
    assert!(matches!(&out.events[..], [GuiEvent::Disconnected(m)] if m == "User disconnected"));
}

#[test]
fn enter_sends_commands_and_messages() {
    let mut state = ClientState::new();
    let mut input = InputState::new();
    let mut nick = "me".to_string();

    assert!(submit_input(&mut input, &mut state, &mut nick, "10:00:00").is_none());
    assert!(input.history.is_empty());

    input.message_input = "hello".into();
    assert!(submit_input(&mut input, &mut state, &mut nick, "10:00:00").is_none());
    assert_eq!(state.system_log.last().unwrap(), "[10:00:00] ⚠ Not connected: message not sent");
    assert!(input.message_input.is_empty());
    assert!(input.history.is_empty());

    state.is_connected = true;
    input.message_input = "hello".into();
    assert!(submit_input(&mut input, &mut state, &mut nick, "10:00:00").is_none());
    assert!(input.history.is_empty());

    state.ensure_buffer("#rust");
    state.switch_to_buffer("#rust");
    input.message_input = "hello".into();
    match submit_input(&mut input, &mut state, &mut nick, "10:00:00") {
        Some(BackendAction::SendMessage { target, text }) => {
            assert_eq!(target, "#rust");
            assert_eq!(text, "hello");
        }
        other => panic!("{:?}", other),
    }
    assert_eq!(input.history, vec!["hello"]);

    input.message_input = "/nick other".into();
    input.history_pos = Some(0);
    assert!(matches!(submit_input(&mut input, &mut state, &mut nick, "10:00:00"), Some(BackendAction::Nick(_))));
    assert_eq!(nick, "other");
    assert_eq!(input.history, vec!["hello", "/nick other"]);
    assert!(input.history_pos.is_none());

    input.message_input = "/bogus".into();
    assert!(submit_input(&mut input, &mut state, &mut nick, "10:00:00").is_none());
    assert_eq!(state.system_log.last().unwrap(), "Unknown command: /bogus");
    assert_eq!(input.history.len(), 3);
}

#[test]
fn tab_completes_and_cycles() {
    let mut state = ClientState::new();
    state.ensure_buffer("#rust");
    let mut chan = ChannelBuffer::new();
    chan.users = vec![
        UserInfo { nick: "alice".to_string(), prefix: None },
        UserInfo { nick: "albert".to_string(), prefix: None },
    ];
    state.buffers.insert("#rust".to_string(), chan);
    state.switch_to_buffer("#rust");

    let mut input = InputState::new();
    input.message_input = "hi al".into();
    assert!(tab_complete(&mut input, false, &state));
    assert_eq!(input.message_input, "hi albert ");
    assert_eq!(input.completion_prefix.as_deref(), Some("al"));
    assert!(!input.completion_target_channel);
    // the completed word is followed by a space, so the next Tab appends
    assert!(tab_complete(&mut input, false, &state));
    assert_eq!(input.message_input, "hi albert alice ");
    assert_eq!(input.completion_index, Some(1));
    assert!(tab_complete(&mut input, true, &state));
    assert_eq!(input.message_input, "hi albert alice albert ");
    assert_eq!(input.completion_index, Some(0));
    note_edit(&mut input, true);
    assert_eq!(input.completions.len(), 2);
    input.message_input.push('x');
    note_edit(&mut input, false);
    assert!(input.completions.is_empty());
    assert!(input.completion_index.is_none());

    input.message_input = "zz".into();
    assert!(!tab_complete(&mut input, false, &state));
    assert_eq!(input.message_input, "zz");
    assert_eq!(input.completion_prefix.as_deref(), Some("zz"));

    cancel_input(&mut input);
    assert!(input.message_input.is_empty());
    assert!(input.completion_prefix.is_none());
}

#[test]
fn buffer_sections_and_closing() {
    let order: Vec<String> = ["System", "#Rust", "alice", "&local", "bob", "#go"].iter().map(|s| s.to_string()).collect();
    let (c, d, s) = categorize_buffers(&order, "");
    assert_eq!((c, d, s), (vec![1, 3, 5], vec![2, 4], vec![0]));
    let (c, d, s) = categorize_buffers(&order, "RU");
    assert_eq!((c, d, s), (vec![1], vec![], vec![]));
    let (c, d, s) = categorize_buffers(&order, "o");
    assert_eq!((c, d, s), (vec![3, 5], vec![4], vec![]));

    let mut state = ClientState::new();
    state.ensure_buffer("#a");
    state.ensure_buffer("#b");
    state.switch_to_buffer("#a");
    close_buffer(&mut state, "#a");
    assert_eq!(state.active_buffer, "System");
    assert_eq!(state.buffers_order, vec!["System", "#b"]);
    assert!(!state.buffers.contains_key("#a"));

    let mut chan = ChannelBuffer::new();
    chan.users = vec![
        UserInfo { nick: "me".to_string(), prefix: Some('%') },
        UserInfo { nick: "boss".to_string(), prefix: Some('~') },
    ];
    state.buffers.insert("#b".to_string(), chan);
    assert!(!is_channel_op("#b", &state.buffers, "me"));
    assert!(is_channel_op("#b", &state.buffers, "boss"));
    assert!(!is_channel_op("#none", &state.buffers, "boss"));

    let mk = |auto: bool, servers: Vec<&str>| slirc_client::config::Network {
        name: "n".into(),
        servers: servers.into_iter().map(String::from).collect(),
        nick: "x".into(),
        auto_connect: auto,
        favorite_channels: vec![],
        nickserv_password: None,
        use_tls: false,
        auto_reconnect: true,
    };
    let nets = vec![mk(false, vec!["a"]), mk(true, vec![]), mk(true, vec!["b"]), mk(true, vec!["c"])];
    assert_eq!(auto_connect_index(&nets), Some(2));
    assert_eq!(auto_connect_index(&nets[..2]), None);
}

#[test]
fn ensure_buffer_twice_is_once() {
    let mut state = ClientState::new();
    state.ensure_buffer("#x");
    state.ensure_buffer("#x");
    assert_eq!(state.buffers_order, vec!["System", "#x"]);
    assert_eq!(state.buffers.len(), 2);
}

#[test]
fn word_start_after_wide_space_and_channel_suffix() {
    let mut input = InputState::new();
    input.message_input = "hi\u{3000}wo".into();
    let (start, end) = input.current_last_word_bounds();
    assert_eq!((start, end), (5, 7));
    assert_eq!(&input.message_input[start..end], "wo");
    input.apply_completion("world", start, end);
    assert_eq!(input.message_input, "hi\u{3000}world ");

    input.message_input = "#ru".into();
    input.apply_completion("#rust", 0, 3);
    assert_eq!(input.message_input, "#rust ");
    input.message_input = "@al".into();
    input.apply_completion("@alice", 0, 3);
    assert_eq!(input.message_input, "@alice: ");
}
