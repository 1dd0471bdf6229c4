use slirc_client::buffer::ChannelBuffer;
use slirc_client::buffers::BufferMap;
use slirc_client::config::Network;
use slirc_client::dialog_manager::{network_connect_actions, DialogManager};
use slirc_client::logging::{format_log_entry, log_cache_key, log_file_parts, sanitize_filename, LogEntry};
use slirc_client::protocol::{BackendAction, UserInfo};
use slirc_client::ui::dialogs::{
    ChannelBrowserDialog, ChannelListItem, DialogAction, HelpDialog, NetworkForm, NetworkManagerDialog,
    NickChangeDialog, TopicEditorDialog,
};
use slirc_client::ui::quick_switcher::QuickSwitcher;
use slirc_client::ui::shortcuts::{ShortcutCategory, ShortcutRegistry};
use slirc_client::ui::theme::{nick_color, prefix_rank, SlircTheme};
use slirc_client::ui::topic_bar::{check_topic_permission, format_mode_description};
use slirc_client::ui::widgets::generate_identicon_pattern;

fn net1() -> Network {
    Network {
        name: "Net1".to_string(),
        servers: vec!["irc.net1.com:6667".to_string()],
        nick: "user1".to_string(),
        auto_connect: false,
        favorite_channels: vec![],
        nickserv_password: None,
        use_tls: false,
        auto_reconnect: true,
    }
}

#[test]
fn test_channel_browser_creation() {
    let dialog = ChannelBrowserDialog::new();
    assert!(dialog.channels.is_empty());
    assert!(dialog.filter.is_empty());
    assert!(dialog.is_loading);
}

#[test]
fn test_channel_browser_with_channels() {
    let mut dialog = ChannelBrowserDialog::new();
    dialog.add_channel(ChannelListItem {
        channel: "#rust".to_string(),
        user_count: 100,
        topic: "Welcome to Rust!".to_string(),
    });
    dialog.set_loading_complete();
    assert_eq!(dialog.channels.len(), 1);
    assert!(!dialog.is_loading);
}

#[test]
fn test_channel_browser_add_channel() {
    let mut dialog = ChannelBrowserDialog::new();
    dialog.add_channel(ChannelListItem { channel: "#test".to_string(), user_count: 50, topic: "Test channel".to_string() });
    assert_eq!(dialog.channels.len(), 1);
    assert_eq!(dialog.channels[0].channel, "#test");
}

#[test]
fn test_channel_browser_clear() {
    let mut dialog = ChannelBrowserDialog::new();
    dialog.add_channel(ChannelListItem { channel: "#test".to_string(), user_count: 10, topic: "Test".to_string() });
    dialog.set_loading_complete();
    dialog.filter = "test".to_string();
    dialog.clear();
    assert!(dialog.channels.is_empty());
    assert!(dialog.filter.is_empty());
    assert!(dialog.is_loading);
}

#[test]
fn channel_browser_filter_is_case_insensitive() {
    let mut dialog = ChannelBrowserDialog::new();
    dialog.add_channel(ChannelListItem { channel: "#Rust".to_string(), user_count: 1, topic: "lang".to_string() });
    dialog.add_channel(ChannelListItem { channel: "#go".to_string(), user_count: 1, topic: "RUSTY gophers".to_string() });
    dialog.add_channel(ChannelListItem { channel: "#c".to_string(), user_count: 1, topic: "pointers".to_string() });
    assert_eq!(dialog.filtered_positions(), vec![0, 1, 2]);
    dialog.filter = "rust".to_string();
    assert_eq!(dialog.filtered_positions(), vec![0, 1]);
}

#[test]
fn test_help_dialog_toggle() {
    let mut dialog = HelpDialog::new();
    assert!(!dialog.open);
    dialog.toggle();
    assert!(dialog.open);
    dialog.toggle();
    assert!(!dialog.open);
}

#[test]
fn test_help_dialog_show_hide() {
    let mut dialog = HelpDialog::new();
    dialog.show();
    assert!(dialog.open);
    dialog.dismiss();
    assert!(!dialog.open);
}

#[test]
fn test_network_form_default() {
    let form = NetworkForm::default();
    assert!(form.name.is_empty());
    assert!(form.servers.is_empty());
    assert!(!form.is_valid());
}

#[test]
fn test_network_form_from_network() {
    let network = Network {
        name: "TestNet".to_string(),
        servers: vec!["irc.test.com:6667".to_string(), "irc2.test.com:6697".to_string()],
        nick: "testuser".to_string(),
        auto_connect: true,
        favorite_channels: vec!["#test".to_string(), "#rust".to_string()],
        nickserv_password: Some("secret".to_string()),
        use_tls: true,
        auto_reconnect: true,
    };
    let form = NetworkForm::from_network(&network);
    assert_eq!(form.name, "TestNet");
    assert_eq!(form.servers, "irc.test.com:6667, irc2.test.com:6697");
    assert_eq!(form.nick, "testuser");
    assert!(form.auto_connect);
    assert_eq!(form.favorite_channels, "#test, #rust");
    assert_eq!(form.nickserv_password, "secret");
    assert!(form.use_tls);
}

#[test]
fn test_network_form_to_network() {
    let form = NetworkForm {
        name: "NewNet".to_string(),
        servers: "irc.new.com:6667, irc2.new.com:6697".to_string(),
        nick: "newuser".to_string(),
        auto_connect: false,
        favorite_channels: "#new, #test".to_string(),
        nickserv_password: String::new(),
        use_tls: false,
    };
    let network = form.to_network();
    assert_eq!(network.name, "NewNet");
    assert_eq!(network.servers, vec!["irc.new.com:6667", "irc2.new.com:6697"]);
    assert_eq!(network.nick, "newuser");
    assert!(!network.auto_connect);
    assert_eq!(network.favorite_channels, vec!["#new", "#test"]);
    assert!(network.nickserv_password.is_none());
    assert!(!network.use_tls);
}

#[test]
fn test_network_form_is_valid() {
    let mut form = NetworkForm::default();
    assert!(!form.is_valid());
    form.name = "Test".to_string();
    assert!(!form.is_valid());
    form.servers = "irc.test.com:6667".to_string();
    assert!(!form.is_valid());
    form.nick = "testuser".to_string();
    assert!(form.is_valid());
}

#[test]
fn test_network_manager_creation() {
    let networks = vec![net1()];
    let dialog = NetworkManagerDialog::new(networks.clone());
    assert_eq!(dialog.networks.len(), 1);
    assert_eq!(dialog.networks[0].name, "Net1");
    assert!(!dialog.was_modified());
}

#[test]
fn test_network_manager_get_networks() {
    let dialog = NetworkManagerDialog::new(vec![net1()]);
    let result = dialog.get_networks();
    assert_eq!(result.len(), 1);
    assert_eq!(result[0].name, "Net1");
}

#[test]
fn network_manager_edit_save_delete() {
    let mut dialog = NetworkManagerDialog::new(vec![net1()]);
    dialog.start_edit(0);
    assert!(dialog.is_editing());
    assert_eq!(dialog.form.name, "Net1");
    dialog.form.nick = "renamed".to_string();
    let saved = dialog.save_form();
    assert!(matches!(saved, Some(DialogAction::NetworkSave { index: Some(0), .. })));
    assert_eq!(dialog.networks[0].nick, "renamed");
    assert!(dialog.was_modified());

    dialog.start_add();
    dialog.form.name = "".to_string();
    assert!(dialog.save_form().is_none());

    assert!(!dialog.is_expanded("Net1"));
    dialog.toggle_expanded("Net1");
    assert!(dialog.is_expanded("Net1"));
    dialog.toggle_expanded("Net1");
    assert!(!dialog.is_expanded("Net1"));

    assert!(matches!(dialog.delete_network(0), DialogAction::NetworkDelete(0)));
    assert!(dialog.networks.is_empty());
}

#[test]
fn test_nick_change_dialog_creation() {
    let dialog = NickChangeDialog::new("testuser");
    assert!(dialog.open);
    assert_eq!(dialog.nick_input, "testuser");
    assert_eq!(dialog.current_nick, "testuser");
}

#[test]
fn test_nick_change_dialog_is_open() {
    let mut dialog = NickChangeDialog::new("testuser");
    assert!(dialog.is_open());
    dialog.open = false;
    assert!(!dialog.is_open());
}

#[test]
fn nick_change_submit_trims_and_refuses_same_nick() {
    let mut dialog = NickChangeDialog::new("me");
    assert!(!dialog.can_save());
    assert!(dialog.submit().is_none());
    dialog.nick_input = "  newnick ".to_string();
    assert!(dialog.can_save());
    match dialog.submit() {
        Some(DialogAction::ChangeNick(n)) => assert_eq!(n, "newnick"),
        other => panic!("{:?}", other),
    }
}

#[test]
fn test_topic_editor_creation() {
    let dialog = TopicEditorDialog::new("#rust", "Welcome to #rust!");
    assert_eq!(dialog.channel, "#rust");
    assert_eq!(dialog.topic_input, "Welcome to #rust!");
    assert_eq!(dialog.original_topic, "Welcome to #rust!");
}

#[test]
fn test_topic_editor_channel() {
    let dialog = TopicEditorDialog::new("#test", "Test topic");
    assert_eq!(dialog.channel, "#test");
}

#[test]
fn topic_editor_save_only_when_changed() {
    let mut dialog = TopicEditorDialog::new("#t", "old");
    assert!(!dialog.is_changed());
    assert!(dialog.save_action().is_none());
    dialog.topic_input = "new".to_string();
    match dialog.save_action() {
        Some(DialogAction::SetTopic { channel, topic }) => {
            assert_eq!(channel, "#t");
            assert_eq!(topic, "new");
        }
        other => panic!("{:?}", other),
    }
}

#[test]
fn test_dialog_manager_new() {
    let dm = DialogManager::new();
    assert!(dm.nick_change_dialog.is_none());
    assert!(dm.topic_editor_dialog.is_none());
    assert!(dm.network_manager_dialog.is_none());
    assert!(dm.channel_browser_dialog.is_none());
}

#[test]
fn test_open_nick_change() {
    let mut dm = DialogManager::new();
    dm.open_nick_change("testuser");
    assert!(dm.nick_change_dialog.is_some());
}

#[test]
fn test_open_topic_editor() {
    let mut dm = DialogManager::new();
    dm.open_topic_editor("#test", "Test topic");
    assert!(dm.topic_editor_dialog.is_some());
}

#[test]
fn test_open_network_manager() {
    let mut dm = DialogManager::new();
    dm.open_network_manager(vec![]);
    assert!(dm.network_manager_dialog.is_some());
}

#[test]
fn test_open_channel_browser() {
    let mut dm = DialogManager::new();
    dm.open_channel_browser();
    assert!(dm.channel_browser_dialog.is_some());
}

#[test]
fn dialog_manager_channel_list_flow() {
    let mut dm = DialogManager::new();
    dm.add_channel_to_browser(ChannelListItem { channel: "#x".to_string(), user_count: 1, topic: String::new() });
    assert!(dm.channel_browser_dialog.is_none());
    dm.open_channel_browser();
    dm.add_channel_to_browser(ChannelListItem { channel: "#a".to_string(), user_count: 3, topic: String::new() });
    let browser = dm.channel_browser_dialog.as_ref().unwrap();
    assert_eq!(browser.channels.len(), 1);
    assert!(browser.is_loading);
    dm.channel_browser_complete();
    assert!(!dm.channel_browser_dialog.as_ref().unwrap().is_loading);
    dm.toggle_help();
    assert!(dm.help_dialog.open);
}

#[test]
fn connect_actions_for_a_network() {
    let mut n = net1();
    n.servers = vec!["irc.example.org:7000".to_string()];
    n.favorite_channels = vec!["#a".to_string(), "#b".to_string()];
    let actions = network_connect_actions(&n, None);
    assert_eq!(actions.len(), 3);
    match &actions[0] {
        BackendAction::Connect { server, port, nickname, realname, .. } => {
            assert_eq!(server, "irc.example.org");
            assert_eq!(*port, 7000);
            assert_eq!(nickname, "user1");
            assert_eq!(realname, "SLIRC User (user1)");
        }
        other => panic!("{:?}", other),
    }
    assert!(matches!(&actions[2], BackendAction::Join(c) if c == "#b"));
    n.servers = vec!["plain.host".to_string()];
    match &network_connect_actions(&n, None)[0] {
        BackendAction::Connect { port, .. } => assert_eq!(*port, 6667),
        other => panic!("{:?}", other),
    }
    n.servers = vec![];
    assert!(network_connect_actions(&n, None).is_empty());
}

#[test]
fn test_registry_initialization() {
    let registry = ShortcutRegistry::new();
    assert!(!registry.all().is_empty(), "Registry should have shortcuts");
}

#[test]
fn test_find_shortcut() {
    let registry = ShortcutRegistry::new();
    let shortcut = registry.find("file.connect");
    assert!(shortcut.is_some(), "Should find file.connect shortcut");
    assert_eq!(shortcut.unwrap().key_text, "Ctrl+N");
    assert!(registry.find("no.such.action").is_none());
}

#[test]
fn test_by_category() {
    let registry = ShortcutRegistry::new();
    assert!(!registry.by_category(ShortcutCategory::File).is_empty(), "Should have File shortcuts");
    assert!(!registry.by_category(ShortcutCategory::Navigation).is_empty(), "Should have Navigation shortcuts");
}

#[test]
fn test_all_categories_represented() {
    let registry = ShortcutRegistry::new();
    for category in [
        ShortcutCategory::File,
        ShortcutCategory::Edit,
        ShortcutCategory::View,
        ShortcutCategory::Server,
        ShortcutCategory::Window,
        ShortcutCategory::Navigation,
    ] {
        let shortcuts = registry.by_category(category);
        assert!(!shortcuts.is_empty(), "Category {:?} should have shortcuts", category);
        assert!(shortcuts.iter().all(|s| s.category == category));
    }
}

#[test]
fn test_nick_color_deterministic() {
    let c1 = nick_color("alice");
    let c2 = nick_color("alice");
    assert_eq!(c1, c2);
    let c3 = nick_color("bob");
    assert_ne!(c1, c3);
}

#[test]
fn test_prefix_rank_ordering() {
    assert!(prefix_rank(Some('~')) > prefix_rank(Some('@')));
    assert!(prefix_rank(Some('@')) > prefix_rank(Some('+')));
    assert!(prefix_rank(Some('+')) > prefix_rank(None));
}

#[test]
fn test_theme_creation() {
    let dark = SlircTheme::dark();
    assert_eq!(dark.name, "Dark");
    assert_eq!(dark.surface.len(), 7);
    let light = SlircTheme::light();
    assert_eq!(light.name, "Light");
    assert_eq!(light.surface.len(), 7);
}

#[test]
fn test_identicon_pattern_deterministic() {
    let pattern1 = generate_identicon_pattern("alice");
    let pattern2 = generate_identicon_pattern("alice");
    assert_eq!(pattern1, pattern2, "Same nick should produce same pattern");
    let pattern3 = generate_identicon_pattern("bob");
    assert_ne!(pattern1, pattern3, "Different nicks should produce different patterns");
}

#[test]
fn test_identicon_pattern_has_visible_bits() {
    let pattern = generate_identicon_pattern("x");
    assert!(pattern != 0, "Pattern should not be empty");
    assert!(pattern & 0x0084 != 0, "Pattern should have center bits set");
}

#[test]
fn test_format_mode_description() {
    assert_eq!(
        format_mode_description("mtn"),
        "+m: Moderated (only voiced+ can speak)\n+t: Topic restricted to operators\n+n: No external messages"
    );
    assert_eq!(format_mode_description(""), "No modes set");
    assert_eq!(format_mode_description("si"), "+s: Secret channel (hidden from /list)\n+i: Invite only");
}

fn users(list: &[(&str, Option<char>)]) -> Vec<UserInfo> {
    list.iter().map(|(n, p)| UserInfo { nick: n.to_string(), prefix: *p }).collect()
}

#[test]
fn test_check_topic_permission_no_t_mode() {
    let mut buffers = BufferMap::new();
    let mut buffer = ChannelBuffer::new();
    buffer.users = users(&[("alice", None), ("bob", Some('@'))]);
    buffers.insert("#test".to_string(), buffer);
    assert!(check_topic_permission("#test", &buffers, "alice"));
    assert!(check_topic_permission("#test", &buffers, "bob"));
    assert!(!check_topic_permission("#test", &buffers, "charlie"));
}

#[test]
fn test_check_topic_permission_with_t_mode() {
    let mut buffers = BufferMap::new();
    let mut buffer = ChannelBuffer::new();
    buffer.channel_modes = "t".to_string();
    buffer.users = users(&[("alice", None), ("bob", Some('@')), ("carol", Some('%')), ("dave", Some('+'))]);
    buffers.insert("#test".to_string(), buffer);
    assert!(!check_topic_permission("#test", &buffers, "alice"));
    assert!(check_topic_permission("#test", &buffers, "bob"));
    assert!(check_topic_permission("#test", &buffers, "carol"));
    assert!(!check_topic_permission("#test", &buffers, "dave"));
    assert!(!check_topic_permission("#missing", &buffers, "bob"));
}

#[test]
fn test_sanitize_filename() {
    assert_eq!(sanitize_filename("#rust"), "_rust");
    assert_eq!(sanitize_filename("irc.libera.chat"), "irc.libera.chat");
    assert_eq!(sanitize_filename("test/path"), "test_path");
}

#[test]
fn log_entry_formatting() {
    let e = LogEntry {
        network: "irc.libera.chat".to_string(),
        channel: "#rust".to_string(),
        timestamp: "12:00:00".to_string(),
        nick: "alice".to_string(),
        message: "hi".to_string(),
    };
    assert_eq!(format_log_entry(&e), "[12:00:00] <alice> hi");
    let (n, c, f) = log_file_parts(&e, "2024-01-02");
    assert_eq!((n.as_str(), c.as_str(), f.as_str()), ("irc.libera.chat", "_rust", "2024-01-02.log"));
    assert_eq!(log_cache_key(&e, "2024-01-02"), "irc.libera.chat/_rust/2024-01-02");
}

#[test]
fn quick_switcher_orders_prefix_matches_first() {
    let mut buffers = BufferMap::new();
    for n in ["#rust", "#trust", "#go", "alice"] {
        buffers.insert(n.to_string(), ChannelBuffer::new());
    }
    let mut qs = QuickSwitcher::new();
    qs.show();
    qs.update_matches(&buffers);
    assert_eq!(qs.matches, vec!["#go", "#rust", "#trust", "System", "alice"]);
    qs.query = "RU".to_string();
    qs.update_matches(&buffers);
    assert_eq!(qs.matches, vec!["#rust", "#trust"]);
    qs.query = "#r".to_string();
    qs.update_matches(&buffers);
    assert_eq!(qs.matches, vec!["#rust"]);
    qs.query = "s".to_string();
    qs.update_matches(&buffers);
    assert_eq!(qs.matches, vec!["System", "#rust", "#trust"]);
    qs.select_next();
    assert_eq!(qs.take_selection().as_deref(), Some("#rust"));
    assert!(!qs.visible);
}

#[test]
fn network_form_round_trip() {
    let network = Network {
        name: "TestNet".to_string(),
        servers: vec!["irc.test.com:6667".to_string(), "irc2.test.com:6697".to_string()],
        nick: "testuser".to_string(),
        auto_connect: true,
        favorite_channels: vec!["#test".to_string(), "#rust".to_string()],
        nickserv_password: Some("secret".to_string()),
        use_tls: true,
        auto_reconnect: true,
    };
    let back = NetworkForm::from_network(&network).to_network();
    assert_eq!(back.name, network.name);
    assert_eq!(back.servers, network.servers);
    assert_eq!(back.nick, network.nick);
    assert_eq!(back.auto_connect, network.auto_connect);
    assert_eq!(back.favorite_channels, network.favorite_channels);
    assert_eq!(back.nickserv_password, network.nickserv_password);
    assert_eq!(back.use_tls, network.use_tls);
    assert_eq!(back.auto_reconnect, network.auto_reconnect);
    // an entry with a comma does not read back the same
    let mut odd = network.clone();
    odd.favorite_channels = vec!["#a,#b".to_string()];
    assert_eq!(NetworkForm::from_network(&odd).to_network().favorite_channels, vec!["#a", "#b"]);
}
