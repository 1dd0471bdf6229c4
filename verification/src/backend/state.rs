//! The connection's registration state machine: IRCv3 capability negotiation
//! and SASL PLAIN, and what each UI action and each server message does to it.
//! The application performs the I/O each step asks for and hands back the
//! outcome.

use vstd::prelude::*;
use crate::backend::message::{OutgoingMessage, OutgoingView, outgoing_view, IrcMessage, IrcCommand, CapSub};
use crate::backend::caps::{no_duplicates, cap_ls_fold, cap_ack_fold, apply_cap_ls, apply_cap_ack, debug_set,
    debug_set_string, contains_string};
use crate::backend::handlers::{route_spec, route_message};
use crate::text::{words, join_words, join_from, str_equal};
use crate::config::{strings_view, opt_string_view};
use crate::protocol::{BackendAction, ActionView, GuiEvent, EventView, events_view};
use crate::text::{to_owned_string, concat2, concat4, decimal, decimal_string};

verus! {

/// SASL sub-states within the authentication flow
#[derive(Debug, Clone, Copy, PartialEq, Eq, Structural)]
pub enum SaslSubState {
    /// Sent AUTHENTICATE <mechanism>, waiting for server "+" challenge
    MechanismSent,
    /// Sent credentials, waiting for 903 success or 904 failure
    CredentialsSent,
}

/// Connection registration state machine for IRCv3 CAP negotiation
#[derive(Debug, Clone, Copy, PartialEq, Eq, Structural)]
pub enum RegistrationState {
    /// Initial state after transport connected, haven't sent CAP LS yet
    Initial,
    /// Sent CAP LS 302, waiting for server CAP LS response (may be multi-line)
    CapLsSent,
    /// Received all CAP LS lines, sent CAP REQ, waiting for ACK/NAK
    CapReqSent,
    /// SASL authentication in progress
    SaslAuth(SaslSubState),
    /// Sent CAP END (or skipping CAP), waiting for registration to complete
    Registering,
    /// Fully registered (received 001 RPL_WELCOME)
    Registered,
}

/// Server capabilities discovered and enabled during negotiation. The two
/// capability lists are sets: no name occurs twice in either.
#[derive(Debug)]
pub struct ServerCaps {
    /// All capabilities advertised by server in CAP LS
    pub available: Vec<String>,
    /// Capabilities we've successfully enabled via CAP ACK
    pub enabled: Vec<String>,
    /// SASL mechanism names if the server advertised "sasl=PLAIN,EXTERNAL,..."
    pub sasl_mechanisms: Vec<String>,
    /// Whether we're still receiving multi-line CAP LS (* prefix)
    pub cap_ls_more: bool,
}

/// Pending registration info saved while doing CAP negotiation
#[derive(Debug)]
pub struct PendingRegistration {
    pub nickname: String,
    pub username: String,
    pub realname: String,
    pub sasl_password: Option<String>,
}

/// The parameters of the last connection, kept for reconnecting.
#[derive(Debug)]
pub struct ConnectionParams {
    pub server: String,
    pub port: u16,
    pub nickname: String,
    pub username: String,
    pub realname: String,
    pub use_tls: bool,
    pub auto_reconnect: bool,
}

/// The backend's state between steps.
#[derive(Debug)]
pub struct BackendState {
    /// Whether a connection is open.
    pub connected: bool,
    /// Our nick as the server knows it.
    pub current_nick: String,
    /// Connection state for auto-reconnect.
    pub last_connection_params: Option<ConnectionParams>,
    pub reg_state: RegistrationState,
    pub server_caps: ServerCaps,
    pub pending_reg: Option<PendingRegistration>,
}

/// Capabilities as plain values.
pub struct CapsView {
    pub available: Seq<Seq<char>>,
    pub enabled: Seq<Seq<char>>,
    pub sasl_mechanisms: Seq<Seq<char>>,
    pub cap_ls_more: bool,
}

/// A pending registration as plain values.
pub struct PendingView {
    pub nickname: Seq<char>,
    pub username: Seq<char>,
    pub realname: Seq<char>,
    pub sasl_password: Option<Seq<char>>,
}

/// Connection parameters as plain values.
pub struct ParamsView {
    pub server: Seq<char>,
    pub port: u16,
    pub nickname: Seq<char>,
    pub username: Seq<char>,
    pub realname: Seq<char>,
    pub use_tls: bool,
    pub auto_reconnect: bool,
}

/// The backend state as plain values.
pub struct BackendView {
    pub connected: bool,
    pub current_nick: Seq<char>,
    pub params: Option<ParamsView>,
    pub reg_state: RegistrationState,
    pub caps: CapsView,
    pub pending: Option<PendingView>,
}

impl View for ServerCaps {
    type V = CapsView;

    open spec fn view(&self) -> CapsView {
        CapsView {
            available: strings_view(self.available@),
            enabled: strings_view(self.enabled@),
            sasl_mechanisms: strings_view(self.sasl_mechanisms@),
            cap_ls_more: self.cap_ls_more,
        }
    }
}

impl View for PendingRegistration {
    type V = PendingView;

    open spec fn view(&self) -> PendingView {
        PendingView {
            nickname: self.nickname@,
            username: self.username@,
            realname: self.realname@,
            sasl_password: opt_string_view(self.sasl_password),
        }
    }
}

impl View for ConnectionParams {
    type V = ParamsView;

    open spec fn view(&self) -> ParamsView {
        ParamsView {
            server: self.server@,
            port: self.port,
            nickname: self.nickname@,
            username: self.username@,
            realname: self.realname@,
            use_tls: self.use_tls,
            auto_reconnect: self.auto_reconnect,
        }
    }
}

/// The view of an optional pending registration.
pub open spec fn pending_view(p: Option<PendingRegistration>) -> Option<PendingView> {
    match p {
        Some(r) => Some(r@),
        None => None,
    }
}

/// The view of optional connection parameters.
pub open spec fn params_view(p: Option<ConnectionParams>) -> Option<ParamsView> {
    match p {
        Some(c) => Some(c@),
        None => None,
    }
}

impl View for BackendState {
    type V = BackendView;

    open spec fn view(&self) -> BackendView {
        BackendView {
            connected: self.connected,
            current_nick: self.current_nick@,
            params: params_view(self.last_connection_params),
            reg_state: self.reg_state,
            caps: self.server_caps@,
            pending: pending_view(self.pending_reg),
        }
    }
}

/// No capability is listed twice.
pub open spec fn caps_wf(c: CapsView) -> bool {
    no_duplicates(c.available) && no_duplicates(c.enabled)
}

/// Capabilities before any negotiation.
pub open spec fn empty_caps() -> CapsView {
    CapsView { available: Seq::empty(), enabled: Seq::empty(), sasl_mechanisms: Seq::empty(), cap_ls_more: false }
}

impl ServerCaps {
    /// No capabilities known.
    pub fn new() -> (r: Self)
        ensures
            r@ == empty_caps(),
    {
        let r = ServerCaps { available: Vec::new(), enabled: Vec::new(), sasl_mechanisms: Vec::new(), cap_ls_more: false };
        assert(r@.available =~= Seq::<Seq<char>>::empty());
        assert(r@.enabled =~= Seq::<Seq<char>>::empty());
        assert(r@.sasl_mechanisms =~= Seq::<Seq<char>>::empty());
        r
    }
}

/// What to do with the result of writing a message.
#[derive(Debug)]
pub enum AfterWrite {
    /// Nothing, whatever the result.
    Ignore,
    /// On failure, report `Error(<prefix><error>)`.
    ReportFailure(String),
    /// A NICK was sent: on success our nick becomes this one.
    NickSent(String),
    /// A PRIVMSG was sent: on success it is echoed to the UI as our own.
    MessageSent { target: String, text: String },
    /// CAP LS was sent on a new connection: on success negotiation starts.
    CapLsSent,
}

/// The I/O a UI action asks for.
#[derive(Debug)]
pub enum ActionIo {
    Nothing,
    /// Open a connection (TCP or TLS).
    Connect { server: String, port: u16, use_tls: bool },
    /// Write a message and hand the result to `write_finished`.
    Write(OutgoingMessage, AfterWrite),
    /// Write a message if there is one (ignoring the result), then close the
    /// connection.
    Close(Option<OutgoingMessage>),
}

/// What a UI action does: events for the UI, then the I/O to perform.
#[derive(Debug)]
pub struct ActionOutcome {
    pub events: Vec<GuiEvent>,
    pub io: ActionIo,
}

/// `AfterWrite` as plain values.
pub enum AfterView {
    Ignore,
    ReportFailure(Seq<char>),
    NickSent(Seq<char>),
    MessageSent { target: Seq<char>, text: Seq<char> },
    CapLsSent,
}

/// `ActionIo` as plain values.
pub enum IoView {
    Nothing,
    Connect { server: Seq<char>, port: u16, use_tls: bool },
    Write(OutgoingView, AfterView),
    Close(Option<OutgoingView>),
}

impl View for AfterWrite {
    type V = AfterView;

    open spec fn view(&self) -> AfterView {
        match self {
            AfterWrite::Ignore => AfterView::Ignore,
            AfterWrite::ReportFailure(p) => AfterView::ReportFailure(p@),
            AfterWrite::NickSent(n) => AfterView::NickSent(n@),
            AfterWrite::MessageSent { target, text } => AfterView::MessageSent { target: target@, text: text@ },
            AfterWrite::CapLsSent => AfterView::CapLsSent,
        }
    }
}

impl View for ActionIo {
    type V = IoView;

    open spec fn view(&self) -> IoView {
        match self {
            ActionIo::Nothing => IoView::Nothing,
            ActionIo::Connect { server, port, use_tls } => IoView::Connect { server: server@, port: *port, use_tls: *use_tls },
            ActionIo::Write(m, a) => IoView::Write(m@, a@),
            ActionIo::Close(m) => IoView::Close(match m { Some(x) => Some(x@), None => None }),
        }
    }
}

/// The state right after a Connect action: our nick, the parameters kept for
/// reconnecting, negotiation reset and the registration pending.
pub open spec fn connect_state(pre: BackendView, server: Seq<char>, port: u16, nickname: Seq<char>,
    username: Seq<char>, realname: Seq<char>, use_tls: bool, auto_reconnect: bool,
    sasl_password: Option<Seq<char>>) -> BackendView {
    BackendView {
        current_nick: nickname,
        params: Some(ParamsView { server, port, nickname, username, realname, use_tls, auto_reconnect }),
        reg_state: RegistrationState::Initial,
        caps: empty_caps(),
        pending: Some(PendingView { nickname, username, realname, sasl_password }),
        ..pre
    }
}

/// A write whose failure is reported with `prefix`, when connected.
pub open spec fn write_or_nothing(pre: BackendView, m: OutgoingView, prefix: Seq<char>) -> (BackendView, Seq<EventView>, IoView) {
    if pre.connected {
        (pre, Seq::empty(), IoView::Write(m, AfterView::ReportFailure(prefix)))
    } else {
        (pre, Seq::empty(), IoView::Nothing)
    }
}

/// A write whose failure is reported with `prefix`, or `Not connected`.
pub open spec fn write_or_not_connected(pre: BackendView, m: OutgoingView, prefix: Seq<char>) -> (BackendView, Seq<EventView>, IoView) {
    if pre.connected {
        (pre, Seq::empty(), IoView::Write(m, AfterView::ReportFailure(prefix)))
    } else {
        (pre, seq![EventView::Error("Not connected"@)], IoView::Nothing)
    }
}

/// Closing the connection: a farewell message when connected, the connection
/// and the reconnect parameters dropped, and the UI told why.
pub open spec fn close_step(pre: BackendView, farewell: OutgoingView, why: Seq<char>) -> (BackendView, Seq<EventView>, IoView) {
    (
        BackendView { connected: false, params: None, ..pre },
        seq![EventView::Disconnected(why)],
        IoView::Close(if pre.connected { Some(farewell) } else { None }),
    )
}

/// What a UI action does: the new state, the events, the I/O.
pub open spec fn action_step(pre: BackendView, a: ActionView) -> (BackendView, Seq<EventView>, IoView) {
    match a {
        ActionView::Connect { server, port, nickname, username, realname, use_tls, auto_reconnect, sasl_password } => (
            connect_state(pre, server, port, nickname, username, realname, use_tls, auto_reconnect, sasl_password),
            seq![EventView::RawMessage("Connecting to "@ + server + ":"@ + decimal(port as nat) + " via "@
                + (if use_tls { "TLS"@ } else { "TCP"@ }) + "..."@)],
            IoView::Connect { server, port, use_tls },
        ),
        ActionView::Disconnect => close_step(pre, OutgoingView::Quit(Some("Leaving"@)), "User disconnected"@),
        ActionView::Join(c) => write_or_nothing(pre, OutgoingView::Join(c), "Failed to join: "@),
        ActionView::Part { channel, message } =>
            write_or_nothing(pre, OutgoingView::Part { channel, message }, "Failed to part: "@),
        ActionView::Nick(n) => if pre.connected {
            (pre, Seq::empty(), IoView::Write(OutgoingView::Nick(n), AfterView::NickSent(n)))
        } else {
            (pre, seq![EventView::Error("Not connected"@)], IoView::Nothing)
        },
        ActionView::Whois(t) => write_or_not_connected(pre, OutgoingView::Whois(t), "Failed to send WHOIS: "@),
        ActionView::SetTopic { channel, topic } =>
            write_or_nothing(pre, OutgoingView::Topic { channel, topic }, "Failed to set topic: "@),
        ActionView::Kick { channel, nick, reason } =>
            write_or_nothing(pre, OutgoingView::Kick { channel, nick, reason }, "Failed to kick: "@),
        ActionView::SetUserMode { channel, nick, mode } =>
            write_or_nothing(pre, OutgoingView::Mode { channel, mode, nick }, "Failed to set user mode: "@),
        ActionView::Quit(reason) => close_step(pre, OutgoingView::Quit(reason), "User quit"@),
        ActionView::List => write_or_not_connected(pre, OutgoingView::List, "Failed to request channel list: "@),
        ActionView::SendMessage { target, text } => if pre.connected {
            (pre, Seq::empty(), IoView::Write(OutgoingView::Privmsg { target, text }, AfterView::MessageSent { target, text }))
        } else {
            (pre, Seq::empty(), IoView::Nothing)
        },
    }
}

/// What the result of a write does: the new state and the events.
pub open spec fn write_step(pre: BackendView, after: AfterView, result: Result<(), Seq<char>>) -> (BackendView, Seq<EventView>) {
    match after {
        AfterView::Ignore => (pre, Seq::empty()),
        AfterView::ReportFailure(prefix) => match result {
            Ok(_) => (pre, Seq::empty()),
            Err(e) => (pre, seq![EventView::Error(prefix + e)]),
        },
        AfterView::NickSent(n) => match result {
            Ok(_) => (BackendView { current_nick: n, ..pre }, seq![EventView::NickChanged { old: pre.current_nick, new: n }]),
            Err(e) => (pre, seq![EventView::Error("Failed to send NICK: "@ + e)]),
        },
        AfterView::MessageSent { target, text } => match result {
            Ok(_) => (pre, seq![EventView::MessageReceived { target, sender: pre.current_nick, text }]),
            Err(e) => (pre, seq![EventView::Error("Failed to send: "@ + e)]),
        },
        AfterView::CapLsSent => match result {
            Ok(_) => (BackendView { connected: true, reg_state: RegistrationState::CapLsSent, ..pre }, Seq::empty()),
            Err(e) => (pre, seq![EventView::Error("Failed to send CAP LS: "@ + e)]),
        },
    }
}

/// The view of a write's result.
pub open spec fn result_view(r: Result<(), String>) -> Result<(), Seq<char>> {
    match r {
        Ok(_) => Ok(()),
        Err(e) => Err(e@),
    }
}

/// One event, as a vector.
fn one_event(e: GuiEvent) -> (r: Vec<GuiEvent>)
    ensures
        events_view(r@) == seq![e@],
{
    let mut v: Vec<GuiEvent> = Vec::new();
    v.push(e);
    assert(events_view(v@) =~= seq![e@]);
    v
}

/// No events.
fn no_events() -> (r: Vec<GuiEvent>)
    ensures
        events_view(r@) == Seq::<EventView>::empty(),
{
    let v: Vec<GuiEvent> = Vec::new();
    assert(events_view(v@) =~= Seq::<EventView>::empty());
    v
}

impl BackendState {
    /// Well formed: no capability listed twice.
    pub open spec fn wf(&self) -> bool {
        caps_wf(self.server_caps@)
    }

    /// Not connected, no nick yet, and considered registered (no registration
    /// in progress).
    pub fn new() -> (r: Self)
        ensures
            r.wf(),
            r@ == (BackendView {
                connected: false,
                current_nick: Seq::empty(),
                params: None,
                reg_state: RegistrationState::Registered,
                caps: empty_caps(),
                pending: None,
            }),
    {
        let r = BackendState {
            connected: false,
            current_nick: String::new(),
            last_connection_params: None,
            reg_state: RegistrationState::Registered,
            server_caps: ServerCaps::new(),
            pending_reg: None,
        };
        r
    }

    /// A UI action: updates the state and says which events to emit and
    /// which I/O to perform.
    pub fn handle_backend_action(&mut self, action: BackendAction) -> (r: ActionOutcome)
        requires
            old(self).wf(),
        ensures
            final(self).wf(),
            (final(self)@, events_view(r.events@), r.io@) == action_step(old(self)@, action@),
    {
        match action {
            BackendAction::Connect { server, port, nickname, username, realname, use_tls, auto_reconnect, sasl_password } => {
                self.current_nick = nickname.clone();
                self.last_connection_params = Some(ConnectionParams {
                    server: server.clone(),
                    port,
                    nickname: nickname.clone(),
                    username: username.clone(),
                    realname: realname.clone(),
                    use_tls,
                    auto_reconnect,
                });
                self.reg_state = RegistrationState::Initial;
                self.server_caps = ServerCaps::new();
                self.pending_reg = Some(PendingRegistration { nickname, username, realname, sasl_password });
                let port_text = decimal_string(port as u64);
                let protocol = if use_tls { "TLS" } else { "TCP" };
                let line = concat4("Connecting to ", server.as_str(), ":", port_text.as_str());
                let line = concat4(line.as_str(), " via ", protocol, "...");
                let events = one_event(GuiEvent::RawMessage(line));
                ActionOutcome { events, io: ActionIo::Connect { server, port, use_tls } }
            },
            BackendAction::Disconnect => {
                let m = if self.connected {
                    Some(OutgoingMessage::Quit(Some(to_owned_string("Leaving"))))
                } else {
                    None
                };
                self.connected = false;
                self.last_connection_params = None;
                ActionOutcome {
                    events: one_event(GuiEvent::Disconnected(to_owned_string("User disconnected"))),
                    io: ActionIo::Close(m),
                }
            },
            BackendAction::Join(channel) => self.write_or_nothing(OutgoingMessage::Join(channel), "Failed to join: "),
            BackendAction::Part { channel, message } =>
                self.write_or_nothing(OutgoingMessage::Part { channel, message }, "Failed to part: "),
            BackendAction::Nick(newnick) => {
                if self.connected {
                    let n2 = newnick.clone();
                    ActionOutcome { events: no_events(), io: ActionIo::Write(OutgoingMessage::Nick(newnick), AfterWrite::NickSent(n2)) }
                } else {
                    ActionOutcome { events: one_event(GuiEvent::Error(to_owned_string("Not connected"))), io: ActionIo::Nothing }
                }
            },
            BackendAction::Whois(target) =>
                self.write_or_not_connected(OutgoingMessage::Whois(target), "Failed to send WHOIS: "),
            BackendAction::SetTopic { channel, topic } =>
                self.write_or_nothing(OutgoingMessage::Topic { channel, topic }, "Failed to set topic: "),
            BackendAction::Kick { channel, nick, reason } =>
                self.write_or_nothing(OutgoingMessage::Kick { channel, nick, reason }, "Failed to kick: "),
            BackendAction::SetUserMode { channel, nick, mode } =>
                self.write_or_nothing(OutgoingMessage::Mode { channel, mode, nick }, "Failed to set user mode: "),
            BackendAction::Quit(reason) => {
                let m = if self.connected { Some(OutgoingMessage::Quit(reason)) } else { None };
                self.connected = false;
                self.last_connection_params = None;
                ActionOutcome { events: one_event(GuiEvent::Disconnected(to_owned_string("User quit"))), io: ActionIo::Close(m) }
            },
            BackendAction::List => self.write_or_not_connected(OutgoingMessage::List, "Failed to request channel list: "),
            BackendAction::SendMessage { target, text } => {
                if self.connected {
                    let after = AfterWrite::MessageSent { target: target.clone(), text: text.clone() };
                    ActionOutcome { events: no_events(), io: ActionIo::Write(OutgoingMessage::Privmsg { target, text }, after) }
                } else {
                    ActionOutcome { events: no_events(), io: ActionIo::Nothing }
                }
            },
        }
    }

    fn write_or_nothing(&self, m: OutgoingMessage, prefix: &str) -> (r: ActionOutcome)
        ensures
            (self@, events_view(r.events@), r.io@) == write_or_nothing(self@, m@, prefix@),
    {
        if self.connected {
            ActionOutcome { events: no_events(), io: ActionIo::Write(m, AfterWrite::ReportFailure(to_owned_string(prefix))) }
        } else {
            ActionOutcome { events: no_events(), io: ActionIo::Nothing }
        }
    }

    fn write_or_not_connected(&self, m: OutgoingMessage, prefix: &str) -> (r: ActionOutcome)
        ensures
            (self@, events_view(r.events@), r.io@) == write_or_not_connected(self@, m@, prefix@),
    {
        if self.connected {
            ActionOutcome { events: no_events(), io: ActionIo::Write(m, AfterWrite::ReportFailure(to_owned_string(prefix))) }
        } else {
            ActionOutcome { events: one_event(GuiEvent::Error(to_owned_string("Not connected"))), io: ActionIo::Nothing }
        }
    }

    /// The result of writing a message asked for by an action.
    pub fn write_finished(&mut self, after: AfterWrite, result: Result<(), String>) -> (r: Vec<GuiEvent>)
        requires
            old(self).wf(),
        ensures
            final(self).wf(),
            (final(self)@, events_view(r@)) == write_step(old(self)@, after@, result_view(result)),
    {
        match after {
            AfterWrite::Ignore => no_events(),
            AfterWrite::ReportFailure(prefix) => match result {
                Ok(_) => no_events(),
                Err(e) => one_event(GuiEvent::Error(concat2(prefix.as_str(), e.as_str()))),
            },
            AfterWrite::NickSent(n) => match result {
                Ok(_) => {
                    let old_nick = self.current_nick.clone();
                    self.current_nick = n.clone();
                    one_event(GuiEvent::NickChanged { old: old_nick, new: n })
                },
                Err(e) => one_event(GuiEvent::Error(concat2("Failed to send NICK: ", e.as_str()))),
            },
            AfterWrite::MessageSent { target, text } => match result {
                Ok(_) => one_event(GuiEvent::MessageReceived { target, sender: self.current_nick.clone(), text }),
                Err(e) => one_event(GuiEvent::Error(concat2("Failed to send: ", e.as_str()))),
            },
            AfterWrite::CapLsSent => match result {
                Ok(_) => {
                    self.connected = true;
                    self.reg_state = RegistrationState::CapLsSent;
                    no_events()
                },
                Err(e) => one_event(GuiEvent::Error(concat2("Failed to send CAP LS: ", e.as_str()))),
            },
        }
    }

    /// The outcome of opening a connection: on failure the error is reported;
    /// on success negotiation starts by sending `CAP LS 302` (its result goes
    /// to `write_finished` with `AfterWrite::CapLsSent`).
    pub fn connect_finished(&self, result: Result<(), String>) -> (r: (Vec<GuiEvent>, Option<OutgoingMessage>))
        ensures
            match result {
                Ok(_) => events_view(r.0@) == seq![EventView::RawMessage("Starting CAP negotiation..."@)]
                    && (r.1 matches Some(m) && m@ == OutgoingView::CapLs),
                Err(e) => events_view(r.0@) == seq![EventView::Error(e@)] && r.1 is None,
            },
    {
        match result {
            Ok(_) => (one_event(GuiEvent::RawMessage(to_owned_string("Starting CAP negotiation..."))), Some(OutgoingMessage::CapLs)),
            Err(e) => (one_event(GuiEvent::Error(e)), None),
        }
    }

    /// The server closed the connection.
    pub fn connection_closed(&mut self) -> (r: Vec<GuiEvent>)
        requires
            old(self).wf(),
        ensures
            final(self).wf(),
            final(self)@ == (BackendView { connected: false, ..old(self)@ }),
            events_view(r@) == seq![EventView::Disconnected("Connection closed by server"@)] + match old(self)@.params {
                Some(p) => if p.auto_reconnect {
                    seq![EventView::RawMessage("Connection lost. Auto-reconnect enabled (manual reconnect required for now)."@)]
                } else {
                    Seq::empty()
                },
                None => Seq::empty(),
            },
    {
        self.connected = false;
        let mut events = one_event(GuiEvent::Disconnected(to_owned_string("Connection closed by server")));
        let ghost first = events@;
        let reconnect = match &self.last_connection_params {
            Some(p) => p.auto_reconnect,
            None => false,
        };
        if reconnect {
            events.push(GuiEvent::RawMessage(to_owned_string(
                "Connection lost. Auto-reconnect enabled (manual reconnect required for now).")));
            assert(events_view(events@) =~= events_view(first).push(events@.last()@));
        }
        assert(events_view(events@) =~= seq![EventView::Disconnected("Connection closed by server"@)] + match old(self)@.params {
                Some(p) => if p.auto_reconnect {
                    seq![EventView::RawMessage("Connection lost. Auto-reconnect enabled (manual reconnect required for now)."@)]
                } else {
                    Seq::empty()
                },
                None => Seq::empty(),
            });
        events
    }

    /// Reading from the connection failed with `error`.
    pub fn read_failed(&mut self, error: &str) -> (r: Vec<GuiEvent>)
        requires
            old(self).wf(),
        ensures
            final(self).wf(),
            final(self)@ == (BackendView { connected: false, ..old(self)@ }),
            events_view(r@) == seq![EventView::Error("Read error: "@ + error@), EventView::Disconnected("Read error"@)],
    {
        self.connected = false;
        let mut events = one_event(GuiEvent::Error(concat2("Read error: ", error)));
        let ghost first = events@;
        events.push(GuiEvent::Disconnected(to_owned_string("Read error")));
        assert(events_view(events@) =~= events_view(first).push(events@.last()@));
        events
    }
}

/// The capabilities asked for when negotiation starts, if the server offers
/// them.
pub open spec fn desired_caps() -> Seq<Seq<char>> {
    seq!["multi-prefix"@, "server-time"@, "account-notify"@, "away-notify"@]
}

/// The desired capabilities among the first `n` that `available` offers, in
/// order.
pub open spec fn offered_desired(available: Seq<Seq<char>>, n: int) -> Seq<Seq<char>>
    decreases n,
{
    if n <= 0 {
        Seq::empty()
    } else {
        let prev = offered_desired(available, n - 1);
        if available.contains(desired_caps()[n - 1]) { prev.push(desired_caps()[n - 1]) } else { prev }
    }
}

/// Whether the pending registration has a SASL password.
pub open spec fn has_sasl_password(p: Option<PendingView>) -> bool {
    p matches Some(r) && r.sasl_password is Some
}

/// The capabilities requested after the final `CAP LS`: the desired ones the
/// server offers, and `sasl` when we have a password and the server offers it.
pub open spec fn requested_caps(available: Seq<Seq<char>>, pending: Option<PendingView>) -> Seq<Seq<char>> {
    let d = offered_desired(available, 4);
    if has_sasl_password(pending) && available.contains("sasl"@) { d.push("sasl"@) } else { d }
}

/// Ending negotiation: `CAP END`, then `NICK` and `USER` when a registration
/// is pending.
pub open spec fn finish_registration(pending: Option<PendingView>) -> Seq<OutgoingView> {
    seq![OutgoingView::CapEnd] + match pending {
        Some(p) => seq![OutgoingView::Nick(p.nickname), OutgoingView::User { username: p.username, realname: p.realname }],
        None => Seq::empty(),
    }
}

/// The text of an optional parameter, or `default`.
pub open spec fn text_or(o: Option<String>, default: Seq<char>) -> Seq<char> {
    match o {
        Some(t) => t@,
        None => default,
    }
}

/// The last argument of a numeric reply, or `default`.
pub open spec fn last_arg_or(args: Seq<Seq<char>>, default: Seq<char>) -> Seq<char> {
    if args.len() > 0 { args.last() } else { default }
}

/// What an incoming message does: the new state, the messages to write (their
/// results are not looked at), and the events for the UI.
pub open spec fn server_step(pre: BackendView, msg: IrcMessage) -> (BackendView, Seq<OutgoingView>, Seq<EventView>) {
    match msg.command {
        IrcCommand::Ping(server) => (pre, seq![OutgoingView::Pong(server@)], Seq::empty()),
        IrcCommand::Cap { sub, star_or_caps, maybe_caps } => match sub {
            CapSub::Ls => {
                let multi = opt_string_view(star_or_caps) == Some("*"@);
                let list = if multi { text_or(maybe_caps, Seq::empty()) } else { text_or(star_or_caps, Seq::empty()) };
                let folded = cap_ls_fold(pre.caps.available, pre.caps.sasl_mechanisms, words(list));
                let caps = CapsView { available: folded.0, sasl_mechanisms: folded.1, cap_ls_more: multi, ..pre.caps };
                if !multi && pre.reg_state == RegistrationState::CapLsSent {
                    let req = requested_caps(caps.available, pre.pending);
                    let shown = EventView::RawMessage("Server capabilities: "@ + debug_set(caps.available));
                    if req.len() == 0 {
                        (BackendView { caps, reg_state: RegistrationState::Registering, ..pre },
                            finish_registration(pre.pending), seq![shown])
                    } else {
                        (BackendView { caps, reg_state: RegistrationState::CapReqSent, ..pre },
                            seq![OutgoingView::CapReq(join_words(req))],
                            seq![shown, EventView::RawMessage("Requesting capabilities: "@ + join_words(req))])
                    }
                } else {
                    (BackendView { caps, ..pre }, Seq::empty(), Seq::empty())
                }
            },
            CapSub::Ack => {
                let enabled = cap_ack_fold(pre.caps.enabled, words(text_or(star_or_caps, Seq::empty())));
                let caps = CapsView { enabled, ..pre.caps };
                let shown = EventView::RawMessage("Capabilities enabled: "@ + debug_set(enabled));
                if enabled.contains("sasl"@) && has_sasl_password(pre.pending) {
                    (BackendView { caps, reg_state: RegistrationState::SaslAuth(SaslSubState::MechanismSent), ..pre },
                        seq![OutgoingView::AuthenticateMechanism("PLAIN"@)], seq![shown])
                } else {
                    (BackendView { caps, reg_state: RegistrationState::Registering, ..pre },
                        finish_registration(pre.pending), seq![shown])
                }
            },
            CapSub::Nak => (BackendView { reg_state: RegistrationState::Registering, ..pre },
                finish_registration(pre.pending), seq![EventView::RawMessage("Some capabilities were not supported"@)]),
            CapSub::Other => (pre, Seq::empty(), Seq::empty()),
        },
        IrcCommand::Authenticate(challenge) => {
            if pre.reg_state == RegistrationState::SaslAuth(SaslSubState::MechanismSent) && challenge@ == "+"@ {
                match pre.pending {
                    Some(p) => match p.sasl_password {
                        Some(pw) => (BackendView { reg_state: RegistrationState::SaslAuth(SaslSubState::CredentialsSent), ..pre },
                            seq![OutgoingView::AuthenticatePlain { username: p.username, password: pw }], Seq::empty()),
                        None => (pre, Seq::empty(), Seq::empty()),
                    },
                    None => (pre, Seq::empty(), Seq::empty()),
                }
            } else {
                (pre, Seq::empty(), Seq::empty())
            }
        },
        IrcCommand::Response { code, args } => {
            let a = strings_view(args@);
            if code == 903 {
                let m = last_arg_or(a, "Authenticated"@);
                (BackendView { reg_state: RegistrationState::Registering, ..pre }, finish_registration(pre.pending),
                    seq![EventView::SaslResult { success: true, message: m },
                        EventView::RawMessage("SASL authentication successful: "@ + m)])
            } else if code == 904 {
                let m = last_arg_or(a, "Authentication failed"@);
                (BackendView { reg_state: RegistrationState::Registering, ..pre }, finish_registration(pre.pending),
                    seq![EventView::SaslResult { success: false, message: m },
                        EventView::Error("SASL authentication failed: "@ + m)])
            } else if code == 900 {
                let account = if a.len() > 2 { a[2] } else { "account"@ };
                (pre, Seq::empty(), seq![EventView::RawMessage("Logged in as "@ + account)])
            } else if code == 1 {
                (BackendView { reg_state: RegistrationState::Registered, pending: None, ..pre }, Seq::empty(),
                    seq![EventView::Connected])
            } else {
                (pre, Seq::empty(), route_spec(msg, pre.current_nick).0)
            }
        },
        _ => {
            let routed = route_spec(msg, pre.current_nick);
            (match routed.1 {
                Some(n) => BackendView { current_nick: n, ..pre },
                None => pre,
            }, Seq::empty(), routed.0)
        },
    }
}

/// The password an outgoing message carries, if it is `AUTHENTICATE` with
/// credentials.
pub open spec fn password_of(o: OutgoingView) -> Option<Seq<char>> {
    match o {
        OutgoingView::AuthenticatePlain { password, .. } => Some(password),
        _ => None,
    }
}

/// Whether `msg` is the server's `AUTHENTICATE +` challenge.
pub open spec fn is_challenge(msg: IrcMessage) -> bool {
    match msg.command {
        IrcCommand::Authenticate(c) => c@ == "+"@,
        _ => false,
    }
}

/// Whether `msg` is a `CAP ACK`.
pub open spec fn is_cap_ack(msg: IrcMessage) -> bool {
    match msg.command {
        IrcCommand::Cap { sub, .. } => sub is Ack,
        _ => false,
    }
}

/// The SASL password of the pending registration, if any.
pub open spec fn pending_password(p: Option<PendingView>) -> Option<Seq<char>> {
    match p {
        Some(r) => r.sasl_password,
        None => None,
    }
}

/// The SASL password leaves only as the answer to the server's `+`
/// challenge after `AUTHENTICATE PLAIN` was sent, and it is the password of
/// the pending registration; `AUTHENTICATE PLAIN` itself is sent only on a
/// `CAP ACK` that enabled `sasl` while a password is pending.
pub proof fn lemma_password_only_after_sasl_ack(pre: BackendView, msg: IrcMessage)
    ensures
        ({
            let (post, out, _) = server_step(pre, msg);
            &&& forall|i: int| 0 <= i < out.len() && (#[trigger] password_of(out[i])) is Some ==> {
                &&& pre.reg_state == RegistrationState::SaslAuth(SaslSubState::MechanismSent)
                &&& is_challenge(msg)
                &&& pending_password(pre.pending) == password_of(out[i])
            }
            &&& forall|i: int| 0 <= i < out.len() && (#[trigger] out[i]) is AuthenticateMechanism ==> {
                &&& is_cap_ack(msg)
                &&& post.caps.enabled.contains("sasl"@)
                &&& has_sasl_password(pre.pending)
            }
        }),
{
    let fin = finish_registration(pre.pending);
    assert forall|i: int| 0 <= i < fin.len() implies !(#[trigger] fin[i] is AuthenticatePlain)
        && !(fin[i] is AuthenticateMechanism) by {
        if i > 0 {
            match pre.pending {
                Some(p) => assert(fin[i] == seq![OutgoingView::Nick(p.nickname),
                    OutgoingView::User { username: p.username, realname: p.realname }][i - 1]),
                None => {},
            }
        }
    }
}

/// Whether `msg` is the numeric reply `code`.
pub open spec fn is_numeric(msg: IrcMessage, code: u16) -> bool {
    match msg.command {
        IrcCommand::Response { code: c, .. } => c == code,
        _ => false,
    }
}

/// Whether `msg` is a `CAP NAK`.
pub open spec fn is_cap_nak(msg: IrcMessage) -> bool {
    match msg.command {
        IrcCommand::Cap { sub, .. } => sub is Nak,
        _ => false,
    }
}

/// Registration goes on once negotiation ends. Whenever a message moves the
/// state into `Registering` from another state while registration `p` is
/// pending, exactly `CAP END`, `NICK p.nickname` and
/// `USER p.username p.realname` are written. SASL success (903), SASL
/// failure (904) and `CAP NAK` always end negotiation that way; a failure is
/// reported as an unsuccessful SASL result and an error.
pub proof fn lemma_negotiation_end_registers(pre: BackendView, msg: IrcMessage)
    requires
        pre.pending is Some,
    ensures
        ({
            let (post, out, ev) = server_step(pre, msg);
            let p = pre.pending.unwrap();
            let reg = seq![OutgoingView::CapEnd, OutgoingView::Nick(p.nickname),
                OutgoingView::User { username: p.username, realname: p.realname }];
            &&& pre.reg_state != RegistrationState::Registering && post.reg_state == RegistrationState::Registering
                ==> out == reg
            &&& is_numeric(msg, 903) || is_numeric(msg, 904) || is_cap_nak(msg)
                ==> out == reg && post.reg_state == RegistrationState::Registering
            &&& is_numeric(msg, 904) ==> {
                &&& ev.len() == 2
                &&& ev[0] matches EventView::SaslResult { success, .. } && !success
                &&& ev[1] is Error
            }
            &&& is_numeric(msg, 903) ==> {
                &&& ev.len() == 2
                &&& ev[0] matches EventView::SaslResult { success, .. } && success
            }
        }),
{
    let p = pre.pending.unwrap();
    assert(finish_registration(pre.pending) =~= seq![OutgoingView::CapEnd, OutgoingView::Nick(p.nickname),
        OutgoingView::User { username: p.username, realname: p.realname }]);
}

/// A private message reaches the UI as one message from its sender: the
/// event names the message's target, its text and the nick it came from
/// (`unknown` only when the message has no source); nothing is written and
/// the state does not change. A notice is shown the same way, its sender
/// between dashes (`-server-` when it has no source).
pub proof fn lemma_privmsg_from_sender(pre: BackendView, msg: IrcMessage)
    ensures
        match msg.command {
            IrcCommand::Privmsg { target, text } => {
                let sender = match msg.source_nick {
                    Some(n) => n@,
                    None => "unknown"@,
                };
                &&& route_spec(msg, pre.current_nick)
                    == (seq![EventView::MessageReceived { target: target@, sender, text: text@ }], None::<Seq<char>>)
                &&& server_step(pre, msg)
                    == (pre, Seq::<OutgoingView>::empty(), seq![EventView::MessageReceived { target: target@, sender, text: text@ }])
            },
            IrcCommand::Notice { target, text } => {
                let sender = "-"@ + match msg.source_nick {
                    Some(n) => n@,
                    None => "server"@,
                } + "-"@;
                &&& server_step(pre, msg)
                    == (pre, Seq::<OutgoingView>::empty(), seq![EventView::MessageReceived { target: target@, sender, text: text@ }])
            },
            _ => true,
        },
{
}

/// `CAP END`, then `NICK` and `USER` for the pending registration.
fn finish_registration_msgs(pending: &Option<PendingRegistration>) -> (r: Vec<OutgoingMessage>)
    ensures
        outgoing_view(r@) == finish_registration(pending_view(*pending)),
{
    let mut out: Vec<OutgoingMessage> = Vec::new();
    out.push(OutgoingMessage::CapEnd);
    match pending {
        Some(p) => {
            out.push(OutgoingMessage::Nick(p.nickname.clone()));
            out.push(OutgoingMessage::User { username: p.username.clone(), realname: p.realname.clone() });
        },
        None => {},
    }
    assert(outgoing_view(out@) =~= finish_registration(pending_view(*pending)));
    out
}

fn one_message(m: OutgoingMessage) -> (r: Vec<OutgoingMessage>)
    ensures
        outgoing_view(r@) == seq![m@],
{
    let mut v: Vec<OutgoingMessage> = Vec::new();
    v.push(m);
    assert(outgoing_view(v@) =~= seq![m@]);
    v
}

fn no_messages() -> (r: Vec<OutgoingMessage>)
    ensures
        outgoing_view(r@) == Seq::<OutgoingView>::empty(),
{
    let v: Vec<OutgoingMessage> = Vec::new();
    assert(outgoing_view(v@) =~= Seq::<OutgoingView>::empty());
    v
}

fn two_events(a: GuiEvent, b: GuiEvent) -> (r: Vec<GuiEvent>)
    ensures
        events_view(r@) == seq![a@, b@],
{
    let mut v: Vec<GuiEvent> = Vec::new();
    v.push(a);
    v.push(b);
    assert(events_view(v@) =~= seq![a@, b@]);
    v
}

/// The requested capabilities, given what the server offers.
fn requested_list(available: &Vec<String>, pending: &Option<PendingRegistration>) -> (r: Vec<String>)
    ensures
        strings_view(r@) == requested_caps(strings_view(available@), pending_view(*pending)),
{
    let desired: Vec<&str> = vec!["multi-prefix", "server-time", "account-notify", "away-notify"];
    assert(desired@.map_values(|c: &str| c@) =~= desired_caps());
    let ghost av = strings_view(available@);
    let mut out: Vec<String> = Vec::new();
    let mut i: usize = 0;
    assert(strings_view(out@) =~= offered_desired(av, 0));
    while i < desired.len()
        invariant
            i <= desired@.len(),
            desired@.len() == 4,
            desired@.map_values(|c: &str| c@) == desired_caps(),
            av == strings_view(available@),
            strings_view(out@) == offered_desired(av, i as int),
        decreases desired@.len() - i,
    {
        if contains_string(available, desired[i]) {
            let ghost before = strings_view(out@);
            out.push(to_owned_string(desired[i]));
            assert(strings_view(out@) =~= before.push(desired_caps()[i as int]));
        }
        i += 1;
    }
    let has_password = match pending {
        Some(p) => p.sasl_password.is_some(),
        None => false,
    };
    if has_password && contains_string(available, "sasl") {
        let ghost before = strings_view(out@);
        out.push(to_owned_string("sasl"));
        assert(strings_view(out@) =~= before.push("sasl"@));
    }
    out
}

impl BackendState {
    /// An incoming message: updates the state and says which messages to
    /// write (their results are not looked at) and which events to emit.
    pub fn handle_server_message(&mut self, msg: IrcMessage) -> (r: (Vec<OutgoingMessage>, Vec<GuiEvent>))
        requires
            old(self).wf(),
        ensures
            final(self).wf(),
            (final(self)@, outgoing_view(r.0@), events_view(r.1@)) == server_step(old(self)@, msg),
    {
        let ghost m0 = msg;
        match &msg.command {
            IrcCommand::Ping(server) => (one_message(OutgoingMessage::Pong(server.clone())), no_events()),
            IrcCommand::Cap { sub, star_or_caps, maybe_caps } => match sub {
                CapSub::Ls => {
                    let multi = match star_or_caps {
                        Some(t) => str_equal(t.as_str(), "*"),
                        None => false,
                    };
                    let list: &str = if multi {
                        match maybe_caps { Some(t) => t.as_str(), None => "" }
                    } else {
                        match star_or_caps { Some(t) => t.as_str(), None => "" }
                    };
                    proof {
                        reveal_strlit("");
                        assert(""@ =~= Seq::<char>::empty());
                    }
                    apply_cap_ls(&mut self.server_caps.available, &mut self.server_caps.sasl_mechanisms, list);
                    self.server_caps.cap_ls_more = multi;
                    if !multi && self.reg_state == RegistrationState::CapLsSent {
                        let shown = GuiEvent::RawMessage(concat2("Server capabilities: ",
                            debug_set_string(&self.server_caps.available).as_str()));
                        let req = requested_list(&self.server_caps.available, &self.pending_reg);
                        if req.len() == 0 {
                            self.reg_state = RegistrationState::Registering;
                            (finish_registration_msgs(&self.pending_reg), one_event(shown))
                        } else {
                            let list = join_from(&req, 0);
                            assert(strings_view(req@).subrange(0, req@.len() as int) =~= strings_view(req@));
                            self.reg_state = RegistrationState::CapReqSent;
                            let requesting = GuiEvent::RawMessage(concat2("Requesting capabilities: ", list.as_str()));
                            (one_message(OutgoingMessage::CapReq(list)), two_events(shown, requesting))
                        }
                    } else {
                        (no_messages(), no_events())
                    }
                },
                CapSub::Ack => {
                    let list: &str = match star_or_caps { Some(t) => t.as_str(), None => "" };
                    proof {
                        reveal_strlit("");
                        assert(""@ =~= Seq::<char>::empty());
                    }
                    apply_cap_ack(&mut self.server_caps.enabled, list);
                    let shown = GuiEvent::RawMessage(concat2("Capabilities enabled: ",
                        debug_set_string(&self.server_caps.enabled).as_str()));
                    let has_password = match &self.pending_reg {
                        Some(p) => p.sasl_password.is_some(),
                        None => false,
                    };
                    if contains_string(&self.server_caps.enabled, "sasl") && has_password {
                        self.reg_state = RegistrationState::SaslAuth(SaslSubState::MechanismSent);
                        (one_message(OutgoingMessage::AuthenticateMechanism(to_owned_string("PLAIN"))), one_event(shown))
                    } else {
                        self.reg_state = RegistrationState::Registering;
                        (finish_registration_msgs(&self.pending_reg), one_event(shown))
                    }
                },
                CapSub::Nak => {
                    self.reg_state = RegistrationState::Registering;
                    (finish_registration_msgs(&self.pending_reg),
                        one_event(GuiEvent::RawMessage(to_owned_string("Some capabilities were not supported"))))
                },
                CapSub::Other => (no_messages(), no_events()),
            },
            IrcCommand::Authenticate(challenge) => {
                if self.reg_state == RegistrationState::SaslAuth(SaslSubState::MechanismSent)
                    && str_equal(challenge.as_str(), "+") {
                    let creds = match &self.pending_reg {
                        Some(p) => match &p.sasl_password {
                            Some(pw) => Some((p.username.clone(), pw.clone())),
                            None => None,
                        },
                        None => None,
                    };
                    match creds {
                        Some((username, password)) => {
                            self.reg_state = RegistrationState::SaslAuth(SaslSubState::CredentialsSent);
                            (one_message(OutgoingMessage::AuthenticatePlain { username, password }), no_events())
                        },
                        None => (no_messages(), no_events()),
                    }
                } else {
                    (no_messages(), no_events())
                }
            },
            IrcCommand::Response { code, args } => {
                if *code == 903 {
                    let m = if args.len() > 0 { args[args.len() - 1].clone() } else { to_owned_string("Authenticated") };
                    let line = concat2("SASL authentication successful: ", m.as_str());
                    self.reg_state = RegistrationState::Registering;
                    (finish_registration_msgs(&self.pending_reg),
                        two_events(GuiEvent::SaslResult { success: true, message: m }, GuiEvent::RawMessage(line)))
                } else if *code == 904 {
                    let m = if args.len() > 0 { args[args.len() - 1].clone() } else { to_owned_string("Authentication failed") };
                    let line = concat2("SASL authentication failed: ", m.as_str());
                    self.reg_state = RegistrationState::Registering;
                    (finish_registration_msgs(&self.pending_reg),
                        two_events(GuiEvent::SaslResult { success: false, message: m }, GuiEvent::Error(line)))
                } else if *code == 900 {
                    let account = if args.len() > 2 { args[2].clone() } else { to_owned_string("account") };
                    (no_messages(), one_event(GuiEvent::RawMessage(concat2("Logged in as ", account.as_str()))))
                } else if *code == 1 {
                    self.reg_state = RegistrationState::Registered;
                    self.pending_reg = None;
                    (no_messages(), one_event(GuiEvent::Connected))
                } else {
                    let (events, _) = route_message(&msg, self.current_nick.as_str());
                    (no_messages(), events)
                }
            },
            _ => {
                let (events, new_nick) = route_message(&msg, self.current_nick.as_str());
                match new_nick {
                    Some(n) => {
                        self.current_nick = n;
                    },
                    None => {},
                }
                (no_messages(), events)
            },
        }
    }
}

} // verus!
