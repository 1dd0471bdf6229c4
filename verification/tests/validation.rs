use slirc_client::validation::{
    sanitize_message, validate_channel_name, validate_message, validate_nickname, validate_server_address,
};

#[test]
fn test_validate_channel_name() {
    assert!(validate_channel_name("#test").is_ok());
    assert!(validate_channel_name("&local").is_ok());
    assert!(validate_channel_name("#rust-lang").is_ok());

    assert!(validate_channel_name("").is_err());
    assert!(validate_channel_name("test").is_err()); // Missing #
    assert!(validate_channel_name("#test channel").is_err()); // Space
    assert!(validate_channel_name("#test,other").is_err()); // Comma
    assert!(validate_channel_name(&"#".to_string().repeat(51)).is_err()); // Too long
}

#[test]
fn test_validate_nickname() {
    assert!(validate_nickname("alice").is_ok());
    assert!(validate_nickname("Bob123").is_ok());
    assert!(validate_nickname("user_name").is_ok());
    assert!(validate_nickname("[guest]").is_ok());

    assert!(validate_nickname("").is_err());
    assert!(validate_nickname("123user").is_err()); // Starts with number
    assert!(validate_nickname("user name").is_err()); // Space
    assert!(validate_nickname(&"a".repeat(31)).is_err()); // Too long
}

#[test]
fn test_validate_server_address() {
    assert_eq!(validate_server_address("irc.example.com:6667").unwrap(), ("irc.example.com".to_string(), 6667));
    assert_eq!(validate_server_address("irc.example.com").unwrap(), ("irc.example.com".to_string(), 6667));
    assert_eq!(validate_server_address("192.168.1.1:6697").unwrap(), ("192.168.1.1".to_string(), 6697));

    assert!(validate_server_address("").is_err());
    assert!(validate_server_address(":6667").is_err());
    assert!(validate_server_address("host:abc").is_err());
    assert!(validate_server_address("host:0").is_err());
}

#[test]
fn test_validate_message() {
    assert!(validate_message("Hello, world!").is_ok());
    assert!(validate_message("Test message with 日本語").is_ok());

    assert!(validate_message("").is_err());
    assert!(validate_message("Line1\nLine2").is_err());
    assert!(validate_message("Line1\rLine2").is_err());
    assert!(validate_message(&"x".repeat(401)).is_err());
}

#[test]
fn test_sanitize_message() {
    assert_eq!(sanitize_message("Hello, world!"), "Hello, world!");
    assert_eq!(sanitize_message("Line1\nLine2"), "Line1Line2");
    assert_eq!(sanitize_message("CR\rLF"), "CRLF");
    assert_eq!(sanitize_message(&"x".repeat(500)), "x".repeat(400));
}

#[test]
fn test_connection_validation() {
    // Valid server addresses
    assert!(validate_server_address("irc.libera.chat:6667").is_ok());
    assert!(validate_server_address("irc.libera.chat").is_ok());

    // Invalid server addresses
    assert!(validate_server_address("").is_err());
    assert!(validate_server_address(":6667").is_err());
    assert!(validate_server_address("host:0").is_err());

    // Valid nicknames
    assert!(validate_nickname("alice").is_ok());
    assert!(validate_nickname("Bob123").is_ok());
    assert!(validate_nickname("[guest]").is_ok());

    // Invalid nicknames
    assert!(validate_nickname("").is_err());
    assert!(validate_nickname("123user").is_err());
    assert!(validate_nickname(&"a".repeat(31)).is_err());
}

#[test]
fn test_channel_validation() {
    assert!(validate_channel_name("#general").is_ok());
    assert!(validate_channel_name("&local").is_ok());
    assert!(validate_channel_name("#rust-lang").is_ok());

    assert!(validate_channel_name("").is_err());
    assert!(validate_channel_name("notachannel").is_err());
    assert!(validate_channel_name("#test channel").is_err());
    assert!(validate_channel_name(&"#".to_string().repeat(51)).is_err());
}

#[test]
fn test_message_validation() {
    assert!(validate_message("Hello, world!").is_ok());
    assert!(validate_message("Test 123").is_ok());

    assert!(validate_message("").is_err());
    assert!(validate_message("Line1\nLine2").is_err());
    assert!(validate_message(&"x".repeat(401)).is_err());
}

#[test]
fn test_message_sanitization() {
    assert_eq!(sanitize_message("Hello"), "Hello");
    assert_eq!(sanitize_message("Line1\nLine2"), "Line1Line2");
    assert_eq!(sanitize_message(&"x".repeat(500)), "x".repeat(400));
}

#[test]
fn test_error_handling_in_validation() {
    match validate_channel_name("invalid") {
        Err(msg) => assert!(msg.contains("must start with")),
        Ok(_) => panic!("Should have failed"),
    }

    match validate_nickname("") {
        Err(msg) => assert!(msg.contains("cannot be empty")),
        Ok(_) => panic!("Should have failed"),
    }

    match validate_message("") {
        Err(msg) => assert!(msg.contains("cannot be empty")),
        Ok(_) => panic!("Should have failed"),
    }
}

#[test]
fn validation_error_messages_are_exact() {
    assert_eq!(validate_message("").unwrap_err(), "Message cannot be empty");
    assert_eq!(validate_message(&"x".repeat(401)).unwrap_err(), "Message too long (max 400 characters)");
    assert_eq!(validate_message("a\nb").unwrap_err(), "Message cannot contain newline characters");
    // 134 three-byte characters are 402 bytes
    assert!(validate_message(&"日".repeat(134)).is_err());
    assert!(validate_message(&"日".repeat(133)).is_ok());
    assert!(validate_server_address("host:65535").is_ok());
    assert!(validate_server_address("host:65536").is_err());
    assert_eq!(validate_server_address("host:+7000").unwrap(), ("host".to_string(), 7000));
}

#[test]
fn sanitized_message_is_clean_and_stable() {
    let s = sanitize_message("a\r\nb\0c");
    assert_eq!(s, "abc");
    assert_eq!(sanitize_message(&s), s);
    let long = format!("{}\n{}", "y".repeat(300), "z".repeat(300));
    let once = sanitize_message(&long);
    assert_eq!(once.chars().count(), 400);
    assert_eq!(sanitize_message(&once), once);
}
