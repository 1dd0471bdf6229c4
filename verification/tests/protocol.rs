use slirc_client::protocol::UserInfo;
use slirc_client::ui::links::{classify_piece, message_pieces, split_pieces, TextPiece};
use crossbeam_channel::unbounded;
use slirc_client::buffer::ChannelBuffer;
use slirc_client::buffers::BufferMap;
use slirc_client::commands::{handle_user_command, make_channel_arg};
use slirc_client::config::Network;
use slirc_client::protocol::{BackendAction, GuiEvent};
use slirc_client::ui::format::parse_irc_formatting;
use slirc_client::ui::theme::{mirc_color, Rgb};

fn connect(server: &str, port: u16, nick: &str, use_tls: bool) -> BackendAction {
    BackendAction::Connect {
        server: server.to_string(),
        port,
        nickname: nick.to_string(),
        username: nick.to_string(),
        realname: "User".to_string(),
        use_tls,
        auto_reconnect: true,
        sasl_password: None,
    }
}

#[test]
fn test_action_channel_communication() {
    let (action_tx, action_rx) = unbounded::<BackendAction>();
    action_tx.send(BackendAction::Disconnect).unwrap();
    action_tx.send(BackendAction::Join("#test".to_string())).unwrap();
    action_tx.send(BackendAction::Part { channel: "#test".to_string(), message: None }).unwrap();
    assert!(matches!(action_rx.recv().unwrap(), BackendAction::Disconnect));
    assert!(matches!(action_rx.recv().unwrap(), BackendAction::Join(_)));
    assert!(matches!(action_rx.recv().unwrap(), BackendAction::Part { .. }));
}

#[test]
fn test_gui_event_types() {
    let (event_tx, event_rx) = unbounded::<GuiEvent>();
    event_tx.send(GuiEvent::Connected).unwrap();
    event_tx.send(GuiEvent::Disconnected("test".to_string())).unwrap();
    event_tx.send(GuiEvent::Error("test error".to_string())).unwrap();
    event_tx.send(GuiEvent::JoinedChannel("#test".to_string())).unwrap();
    assert!(matches!(event_rx.recv().unwrap(), GuiEvent::Connected));
    assert!(matches!(event_rx.recv().unwrap(), GuiEvent::Disconnected(_)));
    assert!(matches!(event_rx.recv().unwrap(), GuiEvent::Error(_)));
    assert!(matches!(event_rx.recv().unwrap(), GuiEvent::JoinedChannel(_)));
}

#[test]
fn test_tls_configuration_parsing() {
    let network = Network {
        name: "Test".to_string(),
        servers: vec!["irc.libera.chat:6697".to_string()],
        nick: "testuser".to_string(),
        auto_connect: false,
        favorite_channels: vec![],
        nickserv_password: None,
        use_tls: true,
        auto_reconnect: true,
    };
    assert!(network.use_tls);
    assert_eq!(network.servers[0], "irc.libera.chat:6697");
}

#[test]
fn test_command_parsing() {
    let (action_tx, action_rx) = unbounded();
    let buffers = BufferMap::new();
    let mut system_log = Vec::new();
    let mut nickname = "test".to_string();

    let (is_cmd, action) = handle_user_command("/join #test", "System", &buffers, &mut system_log, &mut nickname);
    if let Some(a) = action {
        action_tx.send(a).unwrap();
    }
    assert!(is_cmd);
    let action = action_rx.recv().unwrap();
    assert!(matches!(action, BackendAction::Join(_)));
}

#[test]
fn test_protocol_action_serialization() {
    let action = BackendAction::Connect {
        server: "test.server".to_string(),
        port: 6667,
        nickname: "testuser".to_string(),
        username: "testuser".to_string(),
        realname: "Test User".to_string(),
        use_tls: false,
        auto_reconnect: true,
        sasl_password: None,
    };
    let cloned = action.clone();
    assert!(matches!(cloned, BackendAction::Connect { .. }));
}

#[test]
fn test_backend_action_channel() {
    let (action_tx, action_rx) = unbounded::<BackendAction>();
    action_tx
        .send(BackendAction::Connect {
            server: "irc.example.com".to_string(),
            port: 6667,
            nickname: "testbot".to_string(),
            username: "testuser".to_string(),
            realname: "Test User".to_string(),
            use_tls: false,
            auto_reconnect: true,
            sasl_password: None,
        })
        .unwrap();
    action_tx.send(BackendAction::Join("#test".to_string())).unwrap();
    action_tx
        .send(BackendAction::SendMessage { target: "#test".to_string(), text: "Hello world!".to_string() })
        .unwrap();
    action_tx.send(BackendAction::Disconnect).unwrap();

    match action_rx.recv().unwrap() {
        BackendAction::Connect { server, .. } => assert_eq!(server, "irc.example.com"),
        _ => panic!("Expected Connect action"),
    }
    match action_rx.recv().unwrap() {
        BackendAction::Join(channel) => assert_eq!(channel, "#test"),
        _ => panic!("Expected Join action"),
    }
    match action_rx.recv().unwrap() {
        BackendAction::SendMessage { target, text } => {
            assert_eq!(target, "#test");
            assert_eq!(text, "Hello world!");
        }
        _ => panic!("Expected SendMessage action"),
    }
    assert!(matches!(action_rx.recv().unwrap(), BackendAction::Disconnect));
}

#[test]
fn test_gui_event_channel() {
    let (event_tx, event_rx) = unbounded::<GuiEvent>();
    event_tx.send(GuiEvent::Connected).unwrap();
    event_tx.send(GuiEvent::JoinedChannel("#test".to_string())).unwrap();
    event_tx
        .send(GuiEvent::MessageReceived {
            target: "#test".to_string(),
            sender: "alice".to_string(),
            text: "Hello!".to_string(),
        })
        .unwrap();
    event_tx.send(GuiEvent::Disconnected("Server closed connection".to_string())).unwrap();

    assert!(matches!(event_rx.recv().unwrap(), GuiEvent::Connected));
    assert!(matches!(event_rx.recv().unwrap(), GuiEvent::JoinedChannel(_)));
    match event_rx.recv().unwrap() {
        GuiEvent::MessageReceived { target, sender, text } => {
            assert_eq!(target, "#test");
            assert_eq!(sender, "alice");
            assert_eq!(text, "Hello!");
        }
        _ => panic!("Expected MessageReceived event"),
    }
    assert!(matches!(event_rx.recv().unwrap(), GuiEvent::Disconnected(_)));
}

#[test]
fn test_tls_backend_action() {
    let (action_tx, action_rx) = unbounded::<BackendAction>();
    action_tx.send(connect("irc.libera.chat", 6697, "testuser", true)).unwrap();
    match action_rx.try_recv().unwrap() {
        BackendAction::Connect { server, port, use_tls, .. } => {
            assert_eq!(server, "irc.libera.chat");
            assert_eq!(port, 6697);
            assert!(use_tls, "TLS should be enabled");
        }
        _ => panic!("Expected Connect action"),
    }
}

#[test]
fn test_tls_state_propagation() {
    let (action_tx, action_rx) = unbounded::<BackendAction>();
    action_tx.send(connect("secure.server.com", 6697, "user", true)).unwrap();
    if let BackendAction::Connect { use_tls, .. } = action_rx.try_recv().unwrap() {
        assert!(use_tls);
    }
    action_tx.send(connect("plain.server.com", 6667, "user", false)).unwrap();
    if let BackendAction::Connect { use_tls, .. } = action_rx.try_recv().unwrap() {
        assert!(!use_tls);
    }
}

#[test]
fn test_hostname_extraction_for_sni() {
    let test_cases = vec![
        ("irc.libera.chat", "irc.libera.chat"),
        ("irc.libera.chat:6697", "irc.libera.chat"),
        ("192.168.1.1", "192.168.1.1"),
        ("192.168.1.1:6667", "192.168.1.1"),
        ("irc.example.com:9999", "irc.example.com"),
    ];
    for (input, expected) in test_cases {
        let hostname = input.split(':').next().unwrap_or(input);
        assert_eq!(hostname, expected, "Failed for input: {}", input);
    }
}

#[test]
fn test_tls_error_event_handling() {
    let (event_tx, event_rx) = unbounded::<GuiEvent>();
    let mut system_log: Vec<String> = Vec::new();
    event_tx.send(GuiEvent::Error("TLS handshake failed: certificate verify failed".to_string())).unwrap();
    if let Ok(GuiEvent::Error(msg)) = event_rx.try_recv() {
        system_log.push(format!("Error: {}", msg));
        assert!(msg.contains("TLS"));
        assert!(msg.contains("certificate"));
    }
    assert_eq!(system_log.len(), 1);
    assert!(system_log[0].contains("TLS handshake failed"));
}

#[test]
fn test_port_selection_for_tls() {
    let tls_port = 6697;
    let plain_port = 6667;
    assert_eq!(tls_port, 6697);
    assert_ne!(tls_port, plain_port);
    assert_eq!(plain_port, 6667);
}

#[test]
fn test_irc_color_codes_parsing() {
    let test_cases = vec![
        "\x0304Red text",
        "\x0304,02Red on blue",
        "\x03Reset colors",
        "Normal \x0312blue\x03 normal",
        "\x02Bold\x02 normal",
        "\x1DItalic\x1D normal",
        "\x02\x0304Bold red\x0F reset all",
        "\x0399,01Light green on black",
        "Mixed \x02bold\x0304red\x1Ditalic\x0F",
    ];
    for text in test_cases {
        let chars: Vec<char> = text.chars().collect();
        assert!(!chars.is_empty(), "Test case should not be empty");
        let has_formatting =
            text.contains('\x02') || text.contains('\x03') || text.contains('\x1D') || text.contains('\x0F');
        if text.len() < 20 {
            assert!(has_formatting || text == "\x03Reset colors", "Expected formatting in: {:?}", text);
        }
        let spans = parse_irc_formatting(text);
        assert!(spans.iter().all(|s| !s.text.is_empty()));
    }
}

#[test]
fn test_irc_formatting_edge_cases() {
    let edge_cases = vec![
        "",
        "\x03",
        "\x02",
        "\x03\x02\x1D\x0F",
        "\x0399",
        "\x03,",
        "\x03,,",
        "Text\x03\x03\x03",
        "\x02\x02\x02Text",
        "\x0F\x0FNormal",
    ];
    for text in edge_cases {
        let chars: Vec<char> = text.chars().collect();
        let mut i = 0;
        while i < chars.len() {
            match chars[i] {
                '\x02' | '\x1D' | '\x0F' => {
                    assert!(chars[i] < ' ', "Control code verified");
                }
                '\x03' => {
                    i += 1;
                    while i < chars.len() && chars[i].is_ascii_digit() {
                        i += 1;
                    }
                    continue;
                }
                _ => {}
            }
            i += 1;
        }
        let _ = parse_irc_formatting(text);
    }
}

#[test]
fn test_mirc_color_palette() {
    let colors: Vec<_> = (0..16).map(mirc_color).collect();
    assert_eq!(colors[0], Rgb { r: 255, g: 255, b: 255 });
    assert_eq!(colors[1], Rgb { r: 0, g: 0, b: 0 });
    assert_eq!(mirc_color(99), Rgb { r: 255, g: 255, b: 255 });
}

#[test]
fn formatting_spans_exact() {
    let spans = parse_irc_formatting("a\x02b\x0304,02c\x03d\x1De\x0Ff");
    let texts: Vec<&str> = spans.iter().map(|s| s.text.as_str()).collect();
    assert_eq!(texts, vec!["a", "b", "c", "d", "e", "f"]);
    assert!(!spans[0].bold);
    assert!(spans[1].bold);
    assert_eq!(spans[2].fg_color, Some(mirc_color(4)));
    assert_eq!(spans[2].bg_color, Some(mirc_color(2)));
    assert!(spans[2].bold);
    assert_eq!(spans[3].fg_color, None);
    assert_eq!(spans[3].bg_color, None);
    assert!(spans[4].italic && spans[4].bold);
    assert!(!spans[5].italic && !spans[5].bold);
    // a comma without digits is dropped, keeping the foreground
    let spans = parse_irc_formatting("\x0312,x");
    assert_eq!(spans.len(), 1);
    assert_eq!(spans[0].text, "x");
    assert_eq!(spans[0].fg_color, Some(mirc_color(12)));
    assert!(parse_irc_formatting("").is_empty());
    assert!(parse_irc_formatting("\x02\x03\x0F").is_empty());
}

fn run(line: &str, active: &str, buffers: &BufferMap) -> (bool, Option<BackendAction>, Vec<String>, String) {
    let mut log = Vec::new();
    let mut nick = "me".to_string();
    let (c, a) = handle_user_command(line, active, buffers, &mut log, &mut nick);
    (c, a, log, nick)
}

#[test]
fn command_branches_exact() {
    let mut buffers = BufferMap::new();
    let mut chan = ChannelBuffer::new();
    chan.topic = "Rust talk".to_string();
    buffers.insert("#rust".to_string(), chan);
    buffers.insert("#empty".to_string(), ChannelBuffer::new());

    let (c, a, log, _) = run("hello", "#rust", &buffers);
    assert!(!c && a.is_none() && log.is_empty());

    match run("/J rust", "System", &buffers).1 {
        Some(BackendAction::Join(ch)) => assert_eq!(ch, "#rust"),
        other => panic!("{:?}", other),
    }
    match run("  /part #a bye now ", "System", &buffers).1 {
        Some(BackendAction::Part { channel, message }) => {
            assert_eq!(channel, "#a");
            assert_eq!(message.as_deref(), Some("bye now"));
        }
        other => panic!("{:?}", other),
    }
    match run("/part", "#rust", &buffers).1 {
        Some(BackendAction::Part { channel, message }) => {
            assert_eq!(channel, "#rust");
            assert!(message.is_none());
        }
        other => panic!("{:?}", other),
    }
    assert_eq!(run("/part", "System", &buffers).2, vec!["Usage: /part <channel>"]);
    match run("/msg bob  hi   there", "System", &buffers).1 {
        Some(BackendAction::SendMessage { target, text }) => {
            assert_eq!(target, "bob");
            assert_eq!(text, "hi there");
        }
        other => panic!("{:?}", other),
    }
    assert_eq!(run("/msg bob", "System", &buffers).2, vec!["Usage: /msg <target> <message>"]);
    match run("/me waves", "#rust", &buffers).1 {
        Some(BackendAction::SendMessage { target, text }) => {
            assert_eq!(target, "#rust");
            assert_eq!(text, "\x01ACTION waves\x01");
        }
        other => panic!("{:?}", other),
    }
    assert_eq!(run("/me waves", "System", &buffers).2, vec!["/me can only be used in a channel or PM"]);
    assert_eq!(run("/topic", "#rust", &buffers).2, vec!["Topic for #rust: Rust talk"]);
    assert_eq!(run("/topic", "#empty", &buffers).2, vec!["No topic set for #empty"]);
    let (c, a, log, _) = run("/topic", "#missing", &buffers);
    assert!(c && a.is_none() && log.is_empty());
    match run("/t new topic", "#rust", &buffers).1 {
        Some(BackendAction::SetTopic { channel, topic }) => {
            assert_eq!(channel, "#rust");
            assert_eq!(topic, "new topic");
        }
        other => panic!("{:?}", other),
    }
    match run("/kick bob spamming", "#rust", &buffers).1 {
        Some(BackendAction::Kick { channel, nick, reason }) => {
            assert_eq!(channel, "#rust");
            assert_eq!(nick, "bob");
            assert_eq!(reason.as_deref(), Some("spamming"));
        }
        other => panic!("{:?}", other),
    }
    let (c, a, log, nick) = run("/nick newme", "System", &buffers);
    assert!(c);
    assert!(matches!(a, Some(BackendAction::Nick(ref n)) if n == "newme"));
    assert!(log.is_empty());
    assert_eq!(nick, "newme");
    assert!(matches!(run("/quit", "System", &buffers).1, Some(BackendAction::Quit(None))));
    assert_eq!(run("/foo", "System", &buffers).2, vec!["Unknown command: /foo"]);
    assert_eq!(run("/whois", "System", &buffers).2, vec!["Usage: /whois <nick>"]);
    assert_eq!(make_channel_arg("rust"), "#rust");
    assert_eq!(make_channel_arg("&local"), "&local");
}

#[test]
fn message_words_links_and_nicks() {
    assert_eq!(split_pieces("see https://x.org  now"), vec!["see ", "https://x.org ", " ", "now"]);
    assert!(split_pieces("").is_empty());
    assert_eq!(split_pieces(" a"), vec![" ", "a"]);
    let users = vec![UserInfo { nick: "alice".to_string(), prefix: None }];
    let pieces = message_pieces("hi @alice https://a.b http:// httpx://q", &users);
    match &pieces[..] {
        [TextPiece::Plain(a), TextPiece::Nick { word, nick }, TextPiece::Link { word: lw, url }, TextPiece::Plain(b), TextPiece::Plain(c)] => {
            assert_eq!(a, "hi ");
            assert_eq!(word, "@alice ");
            assert_eq!(nick, "alice");
            assert_eq!(lw, "https://a.b ");
            assert_eq!(url, "https://a.b");
            assert_eq!(b, "http:// ");
            assert_eq!(c, "httpx://q");
        }
        other => panic!("{:?}", other),
    }
    assert!(matches!(classify_piece(" @@alice\t", false, &users), TextPiece::Nick { ref nick, .. } if nick == "alice"));
    assert!(matches!(classify_piece(" x ", true, &users), TextPiece::Link { ref url, .. } if url == "x"));
    assert!(matches!(classify_piece("bob", false, &users), TextPiece::Plain(ref w) if w == "bob"));
}
