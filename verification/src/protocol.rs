//! Messages exchanged between the user interface and the network backend.

use vstd::prelude::*;
use crate::config::opt_string_view;

verus! {

/// Actions sent from the UI to the Backend
#[derive(Debug)]
pub enum BackendAction {
    /// Connect to an IRC server
    Connect {
        server: String,
        port: u16,
        nickname: String,
        username: String,
        realname: String,
        use_tls: bool,
        auto_reconnect: bool,
        /// Optional SASL password for authentication
        sasl_password: Option<String>,
    },
    /// Disconnect from the server
    Disconnect,
    /// Join a channel
    Join(String),
    /// Part (leave) a channel
    Part { channel: String, message: Option<String> },
    /// Change nick
    Nick(String),
    /// Quit the server
    Quit(Option<String>),
    /// Send a message to a target (channel or user)
    SendMessage { target: String, text: String },
    /// Set the topic for a channel
    SetTopic { channel: String, topic: String },
    /// Request WHOIS information for a nick
    Whois(String),
    /// Kick a user from a channel
    Kick { channel: String, nick: String, reason: Option<String> },
    /// Set a user mode in a channel by sending MODE <channel> <+/-mode> <nick>
    SetUserMode { channel: String, nick: String, mode: String },
    /// Request channel list from server
    List,
}

/// A backend action as plain values.
pub enum ActionView {
    Connect {
        server: Seq<char>,
        port: u16,
        nickname: Seq<char>,
        username: Seq<char>,
        realname: Seq<char>,
        use_tls: bool,
        auto_reconnect: bool,
        sasl_password: Option<Seq<char>>,
    },
    Disconnect,
    Join(Seq<char>),
    Part { channel: Seq<char>, message: Option<Seq<char>> },
    Nick(Seq<char>),
    Quit(Option<Seq<char>>),
    SendMessage { target: Seq<char>, text: Seq<char> },
    SetTopic { channel: Seq<char>, topic: Seq<char> },
    Whois(Seq<char>),
    Kick { channel: Seq<char>, nick: Seq<char>, reason: Option<Seq<char>> },
    SetUserMode { channel: Seq<char>, nick: Seq<char>, mode: Seq<char> },
    List,
}

impl View for BackendAction {
    type V = ActionView;

    open spec fn view(&self) -> ActionView {
        match self {
            BackendAction::Connect { server, port, nickname, username, realname, use_tls, auto_reconnect, sasl_password } =>
                ActionView::Connect {
                    server: server@,
                    port: *port,
                    nickname: nickname@,
                    username: username@,
                    realname: realname@,
                    use_tls: *use_tls,
                    auto_reconnect: *auto_reconnect,
                    sasl_password: opt_string_view(*sasl_password),
                },
            BackendAction::Disconnect => ActionView::Disconnect,
            BackendAction::Join(c) => ActionView::Join(c@),
            BackendAction::Part { channel, message } => ActionView::Part { channel: channel@, message: opt_string_view(*message) },
            BackendAction::Nick(n) => ActionView::Nick(n@),
            BackendAction::Quit(m) => ActionView::Quit(opt_string_view(*m)),
            BackendAction::SendMessage { target, text } => ActionView::SendMessage { target: target@, text: text@ },
            BackendAction::SetTopic { channel, topic } => ActionView::SetTopic { channel: channel@, topic: topic@ },
            BackendAction::Whois(n) => ActionView::Whois(n@),
            BackendAction::Kick { channel, nick, reason } =>
                ActionView::Kick { channel: channel@, nick: nick@, reason: opt_string_view(*reason) },
            BackendAction::SetUserMode { channel, nick, mode } =>
                ActionView::SetUserMode { channel: channel@, nick: nick@, mode: mode@ },
            BackendAction::List => ActionView::List,
        }
    }
}

fn clone_opt(o: &Option<String>) -> (r: Option<String>)
    ensures
        opt_string_view(r) == opt_string_view(*o),
{
    match o {
        Some(s) => Some(s.clone()),
        None => None,
    }
}

impl Clone for BackendAction {
    fn clone(&self) -> (r: Self)
        ensures
            r@ == self@,
    {
        match self {
            BackendAction::Connect { server, port, nickname, username, realname, use_tls, auto_reconnect, sasl_password } =>
                BackendAction::Connect {
                    server: server.clone(),
                    port: *port,
                    nickname: nickname.clone(),
                    username: username.clone(),
                    realname: realname.clone(),
                    use_tls: *use_tls,
                    auto_reconnect: *auto_reconnect,
                    sasl_password: clone_opt(sasl_password),
                },
            BackendAction::Disconnect => BackendAction::Disconnect,
            BackendAction::Join(c) => BackendAction::Join(c.clone()),
            BackendAction::Part { channel, message } => BackendAction::Part { channel: channel.clone(), message: clone_opt(message) },
            BackendAction::Nick(n) => BackendAction::Nick(n.clone()),
            BackendAction::Quit(m) => BackendAction::Quit(clone_opt(m)),
            BackendAction::SendMessage { target, text } => BackendAction::SendMessage { target: target.clone(), text: text.clone() },
            BackendAction::SetTopic { channel, topic } => BackendAction::SetTopic { channel: channel.clone(), topic: topic.clone() },
            BackendAction::Whois(n) => BackendAction::Whois(n.clone()),
            BackendAction::Kick { channel, nick, reason } =>
                BackendAction::Kick { channel: channel.clone(), nick: nick.clone(), reason: clone_opt(reason) },
            BackendAction::SetUserMode { channel, nick, mode } =>
                BackendAction::SetUserMode { channel: channel.clone(), nick: nick.clone(), mode: mode.clone() },
            BackendAction::List => BackendAction::List,
        }
    }
}

/// Events sent from the Backend to the UI
#[derive(Debug)]
#[allow(inconsistent_fields)]
pub enum GuiEvent {
    /// Successfully connected and registered
    Connected,
    /// Disconnected from server
    Disconnected(String),
    /// Connection error
    Error(String),
    /// A message was received (for any target)
    MessageReceived { target: String, sender: String, text: String },
    /// We successfully joined a channel
    JoinedChannel(String),
    /// We left a channel
    PartedChannel(String),
    /// Someone joined a channel we're in
    UserJoined { channel: String, nick: String },
    /// Someone left a channel we're in
    UserParted { channel: String, nick: String, message: Option<String> },
    /// A user quit from the server (affects all channels they were in)
    UserQuit { nick: String, message: Option<String> },
    /// A user mode was changed in a channel (e.g. +o/-o), used to update the
    /// nickname prefix in the UI.
    UserMode { channel: String, nick: String, prefix: Option<char>, added: bool },
    /// Channel-level mode changes (e.g. "+m-t") and who set them.
    ChannelMode { channel: String, modes: String, set_by: String },
    /// Raw server message for the system log
    RawMessage(String),
    /// MOTD line
    Motd(String),
    /// Topic for a channel
    Topic { channel: String, topic: String },
    /// Names list for a channel. Each name carries any mode prefix that was
    /// included in the NAMES reply (e.g. `@`, `+`, `%`, `~`, `&`).
    Names { channel: String, names: Vec<UserInfo> },
    /// Notification that the nick changed locally
    NickChanged { old: String, new: String },
    /// Channel list entry from server (RPL_LIST 322)
    ChannelListItem { channel: String, user_count: usize, topic: String },
    /// End of channel list (RPL_LISTEND 323)
    ChannelListEnd,
    /// Server capabilities negotiated (network name, casemapping)
    ServerInfo { network: Option<String>, casemapping: Option<String> },
    /// SASL authentication result
    SaslResult { success: bool, message: String },
}

/// A backend event as plain values.
pub enum EventView {
    Connected,
    Disconnected(Seq<char>),
    Error(Seq<char>),
    MessageReceived { target: Seq<char>, sender: Seq<char>, text: Seq<char> },
    JoinedChannel(Seq<char>),
    PartedChannel(Seq<char>),
    UserJoined { channel: Seq<char>, nick: Seq<char> },
    UserParted { channel: Seq<char>, nick: Seq<char>, message: Option<Seq<char>> },
    UserQuit { nick: Seq<char>, message: Option<Seq<char>> },
    UserMode { channel: Seq<char>, nick: Seq<char>, prefix: Option<char>, added: bool },
    ChannelMode { channel: Seq<char>, modes: Seq<char>, set_by: Seq<char> },
    RawMessage(Seq<char>),
    Motd(Seq<char>),
    Topic { channel: Seq<char>, topic: Seq<char> },
    Names { channel: Seq<char>, names: Seq<UserView> },
    NickChanged { old: Seq<char>, new: Seq<char> },
    ChannelListItem { channel: Seq<char>, user_count: usize, topic: Seq<char> },
    ChannelListEnd,
    ServerInfo { network: Option<Seq<char>>, casemapping: Option<Seq<char>> },
    SaslResult { success: bool, message: Seq<char> },
}

impl View for GuiEvent {
    type V = EventView;

    open spec fn view(&self) -> EventView {
        match self {
            GuiEvent::Connected => EventView::Connected,
            GuiEvent::Disconnected(r) => EventView::Disconnected(r@),
            GuiEvent::Error(m) => EventView::Error(m@),
            GuiEvent::MessageReceived { target, sender, text } =>
                EventView::MessageReceived { target: target@, sender: sender@, text: text@ },
            GuiEvent::JoinedChannel(c) => EventView::JoinedChannel(c@),
            GuiEvent::PartedChannel(c) => EventView::PartedChannel(c@),
            GuiEvent::UserJoined { channel, nick } => EventView::UserJoined { channel: channel@, nick: nick@ },
            GuiEvent::UserParted { channel, nick, message } =>
                EventView::UserParted { channel: channel@, nick: nick@, message: opt_string_view(*message) },
            GuiEvent::UserQuit { nick, message } => EventView::UserQuit { nick: nick@, message: opt_string_view(*message) },
            GuiEvent::UserMode { channel, nick, prefix, added } =>
                EventView::UserMode { channel: channel@, nick: nick@, prefix: *prefix, added: *added },
            GuiEvent::ChannelMode { channel, modes, set_by } =>
                EventView::ChannelMode { channel: channel@, modes: modes@, set_by: set_by@ },
            GuiEvent::RawMessage(m) => EventView::RawMessage(m@),
            GuiEvent::Motd(m) => EventView::Motd(m@),
            GuiEvent::Topic { channel, topic } => EventView::Topic { channel: channel@, topic: topic@ },
            GuiEvent::Names { channel, names } => EventView::Names { channel: channel@, names: users_view(names@) },
            GuiEvent::NickChanged { old, new } => EventView::NickChanged { old: old@, new: new@ },
            GuiEvent::ChannelListItem { channel, user_count, topic } =>
                EventView::ChannelListItem { channel: channel@, user_count: *user_count, topic: topic@ },
            GuiEvent::ChannelListEnd => EventView::ChannelListEnd,
            GuiEvent::ServerInfo { network, casemapping } =>
                EventView::ServerInfo { network: opt_string_view(*network), casemapping: opt_string_view(*casemapping) },
            GuiEvent::SaslResult { success, message } => EventView::SaslResult { success: *success, message: message@ },
        }
    }
}

/// The views of a sequence of events.
pub open spec fn events_view(v: Seq<GuiEvent>) -> Seq<EventView> {
    v.map_values(|e: GuiEvent| e@)
}

/// A nick and any prefix/mode associated with it in a NAMES reply
/// (e.g. `@` for ops, `+` for voice).
#[derive(Debug)]
pub struct UserInfo {
    pub nick: String,
    /// A single-character prefix if present (e.g. '@', '+', '%', '&', '~'), or
    /// `None` for regular users.
    pub prefix: Option<char>,
}

/// A user as plain values: nick and optional prefix.
pub struct UserView {
    pub nick: Seq<char>,
    pub prefix: Option<char>,
}

impl View for UserInfo {
    type V = UserView;

    open spec fn view(&self) -> UserView {
        UserView { nick: self.nick@, prefix: self.prefix }
    }
}

/// The views of a sequence of users.
pub open spec fn users_view(v: Seq<UserInfo>) -> Seq<UserView> {
    v.map_values(|u: UserInfo| u@)
}

impl Clone for UserInfo {
    fn clone(&self) -> (r: Self)
        ensures
            r == *self,
    {
        UserInfo { nick: self.nick.clone(), prefix: self.prefix }
    }
}

} // verus!
