//! IRC messages as the client's logic sees them.

use vstd::prelude::*;

verus! {

/// Channel modes that the client tells apart.
#[derive(Debug)]
pub enum ChannelModeKind {
    Oper,
    Voice,
    Halfop,
    Admin,
    Founder,
    Ban,
    Exception,
    InviteException,
    Quiet,
    Moderated,
    ProtectedTopic,
    NoExternalMessages,
    Secret,
    InviteOnly,
    RegisteredOnly,
    Key,
    Limit,
    /// A mode letter the client has no name for.
    Unknown(char),
    /// A mode the protocol library knows but the client does not show.
    Other,
}

/// One mode change: added (`+`) or removed (`-`), with its argument.
#[derive(Debug)]
pub enum ModeChange {
    Plus(ChannelModeKind, Option<String>),
    Minus(ChannelModeKind, Option<String>),
}

/// Sub-commands of `CAP`.
#[derive(Debug)]
pub enum CapSub {
    Ls,
    Ack,
    Nak,
    /// `NEW`, `DEL`, `LIST` and the others.
    Other,
}

/// The command of an incoming IRC message.
#[derive(Debug)]
pub enum IrcCommand {
    Ping(String),
    /// `CAP <target> <sub> [*] :<caps>`: the third and fourth fields are the
    /// optional parameters after the sub-command.
    Cap { sub: CapSub, star_or_caps: Option<String>, maybe_caps: Option<String> },
    Authenticate(String),
    /// A numeric reply with its arguments.
    Response { code: u16, args: Vec<String> },
    /// `RPL_ISUPPORT` (005), with the network name and case mapping it
    /// advertises.
    Isupport { network: Option<String>, casemapping: Option<String> },
    Privmsg { target: String, text: String },
    Notice { target: String, text: String },
    Join(String),
    Part { channel: String, message: Option<String> },
    Nick(String),
    Quit(Option<String>),
    Error(String),
    ChannelMode { channel: String, modes: Vec<ModeChange> },
    /// Anything else.
    Other,
}

/// An incoming IRC message: the nickname of its source (when the source is a
/// user) and its command.
#[derive(Debug)]
pub struct IrcMessage {
    pub source_nick: Option<String>,
    pub command: IrcCommand,
}

/// An IRC message the client sends.
#[derive(Debug)]
pub enum OutgoingMessage {
    /// `CAP LS 302`
    CapLs,
    /// `CAP REQ :<caps>`
    CapReq(String),
    /// `CAP END`
    CapEnd,
    /// `AUTHENTICATE <mechanism>`
    AuthenticateMechanism(String),
    /// `AUTHENTICATE <base64 of \0user\0password>` (SASL PLAIN)
    AuthenticatePlain { username: String, password: String },
    Nick(String),
    User { username: String, realname: String },
    Pong(String),
    Join(String),
    Part { channel: String, message: Option<String> },
    Quit(Option<String>),
    Privmsg { target: String, text: String },
    Whois(String),
    Topic { channel: String, topic: String },
    Kick { channel: String, nick: String, reason: Option<String> },
    /// `MODE <channel> <mode> <nick>`
    Mode { channel: String, mode: String, nick: String },
    List,
}

/// An outgoing message as plain values.
pub enum OutgoingView {
    CapLs,
    CapReq(Seq<char>),
    CapEnd,
    AuthenticateMechanism(Seq<char>),
    AuthenticatePlain { username: Seq<char>, password: Seq<char> },
    Nick(Seq<char>),
    User { username: Seq<char>, realname: Seq<char> },
    Pong(Seq<char>),
    Join(Seq<char>),
    Part { channel: Seq<char>, message: Option<Seq<char>> },
    Quit(Option<Seq<char>>),
    Privmsg { target: Seq<char>, text: Seq<char> },
    Whois(Seq<char>),
    Topic { channel: Seq<char>, topic: Seq<char> },
    Kick { channel: Seq<char>, nick: Seq<char>, reason: Option<Seq<char>> },
    Mode { channel: Seq<char>, mode: Seq<char>, nick: Seq<char> },
    List,
}

impl View for OutgoingMessage {
    type V = OutgoingView;

    open spec fn view(&self) -> OutgoingView {
        match self {
            OutgoingMessage::CapLs => OutgoingView::CapLs,
            OutgoingMessage::CapReq(c) => OutgoingView::CapReq(c@),
            OutgoingMessage::CapEnd => OutgoingView::CapEnd,
            OutgoingMessage::AuthenticateMechanism(m) => OutgoingView::AuthenticateMechanism(m@),
            OutgoingMessage::AuthenticatePlain { username, password } =>
                OutgoingView::AuthenticatePlain { username: username@, password: password@ },
            OutgoingMessage::Nick(n) => OutgoingView::Nick(n@),
            OutgoingMessage::User { username, realname } => OutgoingView::User { username: username@, realname: realname@ },
            OutgoingMessage::Pong(s) => OutgoingView::Pong(s@),
            OutgoingMessage::Join(c) => OutgoingView::Join(c@),
            OutgoingMessage::Part { channel, message } =>
                OutgoingView::Part { channel: channel@, message: crate::config::opt_string_view(*message) },
            OutgoingMessage::Quit(m) => OutgoingView::Quit(crate::config::opt_string_view(*m)),
            OutgoingMessage::Privmsg { target, text } => OutgoingView::Privmsg { target: target@, text: text@ },
            OutgoingMessage::Whois(n) => OutgoingView::Whois(n@),
            OutgoingMessage::Topic { channel, topic } => OutgoingView::Topic { channel: channel@, topic: topic@ },
            OutgoingMessage::Kick { channel, nick, reason } =>
                OutgoingView::Kick { channel: channel@, nick: nick@, reason: crate::config::opt_string_view(*reason) },
            OutgoingMessage::Mode { channel, mode, nick } => OutgoingView::Mode { channel: channel@, mode: mode@, nick: nick@ },
            OutgoingMessage::List => OutgoingView::List,
        }
    }
}

/// The views of a sequence of outgoing messages.
pub open spec fn outgoing_view(v: Seq<OutgoingMessage>) -> Seq<OutgoingView> {
    v.map_values(|m: OutgoingMessage| m@)
}

} // verus!
