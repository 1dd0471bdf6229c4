//! Routing incoming IRC messages to UI events.

use vstd::prelude::*;
use crate::backend::message::{ChannelModeKind, ModeChange, IrcCommand, IrcMessage};
use crate::config::{strings_view, opt_string_view};
use crate::protocol::{GuiEvent, EventView, UserInfo, UserView, events_view, users_view};
use crate::text::{chars_of, words, split_words, string_from_chars, to_owned_string, concat3, str_equal, push_char};
use crate::validation::{parse_decimal, parse_decimal_spec};

verus! {

/// The source nickname of a message, or `default` when it has none.
pub open spec fn nick_or(o: Option<String>, default: Seq<char>) -> Seq<char> {
    match o {
        Some(n) => n@,
        None => default,
    }
}

/// Whether `c` is a user prefix that a NAMES reply may carry.
pub open spec fn is_names_prefix(c: char) -> bool {
    c == '@' || c == '+' || c == '%' || c == '&' || c == '~'
}

/// One entry of a NAMES reply: a leading user prefix is split off the nick.
pub open spec fn name_entry(w: Seq<char>) -> UserView {
    if w.len() > 0 && is_names_prefix(w[0]) {
        UserView { nick: w.drop_first(), prefix: Some(w[0]) }
    } else {
        UserView { nick: w, prefix: None }
    }
}

/// The users of a NAMES reply's name list (words separated by whitespace).
pub open spec fn names_of(s: Seq<char>) -> Seq<UserView> {
    words(s).map_values(|w: Seq<char>| name_entry(w))
}

/// What `str::parse::<usize>` gives for `s`: an optional `+`, then one or
/// more ASCII digits whose value fits in a `usize`.
pub open spec fn parse_usize_spec(s: Seq<char>) -> Option<usize> {
    match parse_decimal_spec(s, usize::MAX as nat) {
        Some(v) => Some(v as usize),
        None => None,
    }
}

/// Parses a decimal `usize` the way `str::parse::<usize>` does.
pub fn parse_usize(s: &str) -> (r: Option<usize>)
    ensures
        r == parse_usize_spec(s@),
{
    match parse_decimal(s, usize::MAX as u64) {
        Some(v) => Some(v as usize),
        None => None,
    }
}

/// The events for a numeric reply: a topic (332), a names list (353), a
/// channel-list entry (322, the user count 0 when unreadable), the end of the
/// channel list (323), a MOTD line (372, 375); other numerics give none.
pub open spec fn response_events(code: u16, args: Seq<Seq<char>>) -> Seq<EventView> {
    if code == 332 {
        if args.len() >= 3 { seq![EventView::Topic { channel: args[1], topic: args[2] }] } else { Seq::empty() }
    } else if code == 353 {
        if args.len() >= 4 { seq![EventView::Names { channel: args[2], names: names_of(args[3]) }] } else { Seq::empty() }
    } else if code == 322 {
        if args.len() >= 4 {
            seq![EventView::ChannelListItem {
                channel: args[1],
                user_count: match parse_usize_spec(args[2]) { Some(n) => n, None => 0 },
                topic: args[3],
            }]
        } else {
            Seq::empty()
        }
    } else if code == 323 {
        seq![EventView::ChannelListEnd]
    } else if code == 372 || code == 375 {
        if args.len() > 0 { seq![EventView::Motd(args.last())] } else { Seq::empty() }
    } else {
        Seq::empty()
    }
}

/// The user prefix that a prefix mode gives: `@` op, `+` voice, `%` halfop,
/// `&` admin, `~` founder.
pub open spec fn prefix_of_mode(k: ChannelModeKind) -> Option<char> {
    match k {
        ChannelModeKind::Oper => Some('@'),
        ChannelModeKind::Voice => Some('+'),
        ChannelModeKind::Halfop => Some('%'),
        ChannelModeKind::Admin => Some('&'),
        ChannelModeKind::Founder => Some('~'),
        _ => None,
    }
}

/// The letter shown for a channel-level mode; prefix and list modes have none.
pub open spec fn mode_letter(k: ChannelModeKind) -> Option<char> {
    match k {
        ChannelModeKind::Moderated => Some('m'),
        ChannelModeKind::ProtectedTopic => Some('t'),
        ChannelModeKind::NoExternalMessages => Some('n'),
        ChannelModeKind::Secret => Some('s'),
        ChannelModeKind::InviteOnly => Some('i'),
        ChannelModeKind::RegisteredOnly => Some('r'),
        ChannelModeKind::Key => Some('k'),
        ChannelModeKind::Limit => Some('l'),
        ChannelModeKind::Unknown(c) => Some(c),
        _ => None,
    }
}

/// Convert a channel mode to its single-character representation for display.
pub fn channel_mode_char(mode: &ChannelModeKind) -> (r: Option<char>)
    ensures
        r == mode_letter(*mode),
{
    match mode {
        ChannelModeKind::Moderated => Some('m'),
        ChannelModeKind::ProtectedTopic => Some('t'),
        ChannelModeKind::NoExternalMessages => Some('n'),
        ChannelModeKind::Secret => Some('s'),
        ChannelModeKind::InviteOnly => Some('i'),
        ChannelModeKind::RegisteredOnly => Some('r'),
        ChannelModeKind::Key => Some('k'),
        ChannelModeKind::Limit => Some('l'),
        ChannelModeKind::Unknown(c) => Some(*c),
        _ => None,
    }
}

fn prefix_of_mode_exec(mode: &ChannelModeKind) -> (r: Option<char>)
    ensures
        r == prefix_of_mode(*mode),
{
    match mode {
        ChannelModeKind::Oper => Some('@'),
        ChannelModeKind::Voice => Some('+'),
        ChannelModeKind::Halfop => Some('%'),
        ChannelModeKind::Admin => Some('&'),
        ChannelModeKind::Founder => Some('~'),
        _ => None,
    }
}

/// The user-mode events of a list of mode changes: one for each prefix mode
/// given with a nick, in order.
pub open spec fn mode_events(channel: Seq<char>, modes: Seq<ModeChange>) -> Seq<EventView>
    decreases modes.len(),
{
    if modes.len() == 0 {
        Seq::empty()
    } else {
        let prev = mode_events(channel, modes.drop_last());
        match modes.last() {
            ModeChange::Plus(k, Some(n)) => if prefix_of_mode(k) is Some {
                prev.push(EventView::UserMode { channel, nick: n@, prefix: prefix_of_mode(k), added: true })
            } else {
                prev
            },
            ModeChange::Minus(k, Some(n)) => if prefix_of_mode(k) is Some {
                prev.push(EventView::UserMode { channel, nick: n@, prefix: prefix_of_mode(k), added: false })
            } else {
                prev
            },
            _ => prev,
        }
    }
}

/// The channel-level changes of a list of mode changes, as `+x` / `-x` pairs
/// for each mode without argument that has a letter.
pub open spec fn mode_string(modes: Seq<ModeChange>) -> Seq<char>
    decreases modes.len(),
{
    if modes.len() == 0 {
        Seq::empty()
    } else {
        let prev = mode_string(modes.drop_last());
        match modes.last() {
            ModeChange::Plus(k, None) => match mode_letter(k) {
                Some(c) => prev.push('+').push(c),
                None => prev,
            },
            ModeChange::Minus(k, None) => match mode_letter(k) {
                Some(c) => prev.push('-').push(c),
                None => prev,
            },
            _ => prev,
        }
    }
}

/// The events an incoming message gives, and our new nick when the message
/// renames us.
pub open spec fn route_spec(msg: IrcMessage, current_nick: Seq<char>) -> (Seq<EventView>, Option<Seq<char>>) {
    match msg.command {
        IrcCommand::Isupport { network, casemapping } =>
            (seq![EventView::ServerInfo { network: opt_string_view(network), casemapping: opt_string_view(casemapping) }], None),
        IrcCommand::Response { code, args } => (response_events(code, strings_view(args@)), None),
        IrcCommand::Privmsg { target, text } =>
            (seq![EventView::MessageReceived { target: target@, sender: nick_or(msg.source_nick, "unknown"@), text: text@ }], None),
        IrcCommand::Notice { target, text } =>
            (seq![EventView::MessageReceived {
                target: target@,
                sender: "-"@ + nick_or(msg.source_nick, "server"@) + "-"@,
                text: text@,
            }], None),
        IrcCommand::Join(channel) => {
            let nick = nick_or(msg.source_nick, Seq::empty());
            if nick == current_nick {
                (seq![EventView::JoinedChannel(channel@)], None)
            } else {
                (seq![EventView::UserJoined { channel: channel@, nick }], None)
            }
        },
        IrcCommand::Part { channel, message } => {
            let nick = nick_or(msg.source_nick, Seq::empty());
            if nick == current_nick {
                (seq![EventView::PartedChannel(channel@)], None)
            } else {
                (seq![EventView::UserParted { channel: channel@, nick, message: opt_string_view(message) }], None)
            }
        },
        IrcCommand::Nick(new) => {
            let old = nick_or(msg.source_nick, Seq::empty());
            (seq![EventView::NickChanged { old, new: new@ }], if old == current_nick { Some(new@) } else { None })
        },
        IrcCommand::Quit(message) => match msg.source_nick {
            Some(n) => (seq![EventView::UserQuit { nick: n@, message: opt_string_view(message) }], None),
            None => (Seq::empty(), None),
        },
        IrcCommand::Error(m) => (seq![EventView::Error(m@)], None),
        IrcCommand::ChannelMode { channel, modes } => {
            let ev = mode_events(channel@, modes@);
            let ms = mode_string(modes@);
            if ms.len() > 0 {
                (ev.push(EventView::ChannelMode { channel: channel@, modes: ms, set_by: nick_or(msg.source_nick, "server"@) }), None)
            } else {
                (ev, None)
            }
        },
        _ => (Seq::empty(), None),
    }
}

/// The source nickname, or `default`.
fn source_or(o: &Option<String>, default: &str) -> (r: String)
    ensures
        r@ == nick_or(*o, default@),
{
    match o {
        Some(n) => n.clone(),
        None => to_owned_string(default),
    }
}

/// Splits a NAMES reply's name list into users.
fn parse_names(s: &str) -> (r: Vec<UserInfo>)
    ensures
        users_view(r@) == names_of(s@),
{
    let v = chars_of(s);
    let ws = split_words(v.as_slice(), 0, v.len());
    assert(v@.subrange(0, v@.len() as int) =~= v@);
    let ghost wv = ws@.map_values(|w: String| w@);
    let mut out: Vec<UserInfo> = Vec::new();
    let mut i: usize = 0;
    while i < ws.len()
        invariant
            i <= ws@.len(),
            wv == ws@.map_values(|w: String| w@),
            wv == words(s@),
            users_view(out@) == wv.take(i as int).map_values(|w: Seq<char>| name_entry(w)),
        decreases ws@.len() - i,
    {
        let wc = chars_of(ws[i].as_str());
        let ghost before = out@;
        let u = if wc.len() > 0 && (wc[0] == '@' || wc[0] == '+' || wc[0] == '%' || wc[0] == '&' || wc[0] == '~') {
            assert(wc@.subrange(1, wc@.len() as int) =~= wc@.drop_first());
            UserInfo { nick: string_from_chars(wc.as_slice(), 1, wc.len()), prefix: Some(wc[0]) }
        } else {
            UserInfo { nick: ws[i].clone(), prefix: None }
        };
        assert(u@ == name_entry(wv[i as int]));
        out.push(u);
        assert(users_view(out@) =~= wv.take(i + 1).map_values(|w: Seq<char>| name_entry(w))) by {
            assert(wv.take(i + 1) =~= wv.take(i as int).push(wv[i as int]));
            assert(users_view(out@) =~= users_view(before).push(u@));
        }
        i += 1;
    }
    assert(wv.take(wv.len() as int) =~= wv);
    out
}

/// One event.
fn one(e: GuiEvent) -> (r: Vec<GuiEvent>)
    ensures
        events_view(r@) == seq![e@],
{
    let mut v: Vec<GuiEvent> = Vec::new();
    v.push(e);
    assert(events_view(v@) =~= seq![e@]);
    v
}

/// No event.
fn none() -> (r: Vec<GuiEvent>)
    ensures
        events_view(r@) == Seq::<EventView>::empty(),
{
    let v: Vec<GuiEvent> = Vec::new();
    assert(events_view(v@) =~= Seq::<EventView>::empty());
    v
}

/// The events of a numeric reply.
fn route_response(code: u16, args: &Vec<String>) -> (r: Vec<GuiEvent>)
    ensures
        events_view(r@) == response_events(code, strings_view(args@)),
{
    let ghost a = strings_view(args@);
    if code == 332 {
        if args.len() >= 3 {
            one(GuiEvent::Topic { channel: args[1].clone(), topic: args[2].clone() })
        } else {
            none()
        }
    } else if code == 353 {
        if args.len() >= 4 {
            let names = parse_names(args[3].as_str());
            one(GuiEvent::Names { channel: args[2].clone(), names })
        } else {
            none()
        }
    } else if code == 322 {
        if args.len() >= 4 {
            let user_count = match parse_usize(args[2].as_str()) {
                Some(n) => n,
                None => 0,
            };
            one(GuiEvent::ChannelListItem { channel: args[1].clone(), user_count, topic: args[3].clone() })
        } else {
            none()
        }
    } else if code == 323 {
        one(GuiEvent::ChannelListEnd)
    } else if code == 372 || code == 375 {
        if args.len() > 0 {
            one(GuiEvent::Motd(args[args.len() - 1].clone()))
        } else {
            none()
        }
    } else {
        none()
    }
}

/// The events of a channel MODE message.
fn route_channel_mode(channel: &String, modes: &Vec<ModeChange>, source: &Option<String>) -> (r: Vec<GuiEvent>)
    ensures
        events_view(r@) == ({
            let ev = mode_events(channel@, modes@);
            let ms = mode_string(modes@);
            if ms.len() > 0 {
                ev.push(EventView::ChannelMode { channel: channel@, modes: ms, set_by: nick_or(*source, "server"@) })
            } else {
                ev
            }
        }),
{
    let mut out: Vec<GuiEvent> = Vec::new();
    let mut changes = String::new();
    let mut i: usize = 0;
    assert(events_view(out@) =~= Seq::<EventView>::empty());
    assert(changes@ =~= Seq::<char>::empty());
    while i < modes.len()
        invariant
            i <= modes@.len(),
            events_view(out@) == mode_events(channel@, modes@.take(i as int)),
            changes@ == mode_string(modes@.take(i as int)),
        decreases modes@.len() - i,
    {
        let ghost before = out@;
        assert(modes@.take(i + 1).drop_last() =~= modes@.take(i as int));
        assert(modes@.take(i + 1).last() == modes@[i as int]);
        match &modes[i] {
            ModeChange::Plus(k, arg) => {
                match arg {
                    Some(nick) => {
                        let p = prefix_of_mode_exec(k);
                        if p.is_some() {
                            out.push(GuiEvent::UserMode { channel: channel.clone(), nick: nick.clone(), prefix: p, added: true });
                            assert(events_view(out@) =~= events_view(before).push(out@.last()@));
                        }
                    },
                    None => {
                        match channel_mode_char(k) {
                            Some(c) => {
                                push_char(&mut changes, '+');
                                push_char(&mut changes, c);
                            },
                            None => {},
                        }
                    },
                }
            },
            ModeChange::Minus(k, arg) => {
                match arg {
                    Some(nick) => {
                        let p = prefix_of_mode_exec(k);
                        if p.is_some() {
                            out.push(GuiEvent::UserMode { channel: channel.clone(), nick: nick.clone(), prefix: p, added: false });
                            assert(events_view(out@) =~= events_view(before).push(out@.last()@));
                        }
                    },
                    None => {
                        match channel_mode_char(k) {
                            Some(c) => {
                                push_char(&mut changes, '-');
                                push_char(&mut changes, c);
                            },
                            None => {},
                        }
                    },
                }
            },
        }
        i += 1;
    }
    assert(modes@.take(modes@.len() as int) =~= modes@);
    if !changes.as_str().is_empty() {
        let ghost before = out@;
        out.push(GuiEvent::ChannelMode { channel: channel.clone(), modes: changes, set_by: source_or(source, "server") });
        assert(events_view(out@) =~= events_view(before).push(out@.last()@));
    }
    out
}

/// Route an incoming IRC message to UI events. `current_nick` is our nick
/// (to tell our own joins, parts and renames apart). Returns the events and,
/// when the message renames us, our new nick.
pub fn route_message(msg: &IrcMessage, current_nick: &str) -> (r: (Vec<GuiEvent>, Option<String>))
    ensures
        events_view(r.0@) == route_spec(*msg, current_nick@).0,
        opt_string_view(r.1) == route_spec(*msg, current_nick@).1,
{
    match &msg.command {
        IrcCommand::Isupport { network, casemapping } =>
            (one(GuiEvent::ServerInfo { network: network.clone(), casemapping: casemapping.clone() }), None),
        IrcCommand::Response { code, args } => (route_response(*code, args), None),
        IrcCommand::Privmsg { target, text } => {
            let sender = source_or(&msg.source_nick, "unknown");
            (one(GuiEvent::MessageReceived { target: target.clone(), sender, text: text.clone() }), None)
        },
        IrcCommand::Notice { target, text } => {
            let s = source_or(&msg.source_nick, "server");
            let sender = concat3("-", s.as_str(), "-");
            (one(GuiEvent::MessageReceived { target: target.clone(), sender, text: text.clone() }), None)
        },
        IrcCommand::Join(channel) => {
            let nick = source_or(&msg.source_nick, "");
            proof {
                reveal_strlit("");
                assert(""@ =~= Seq::<char>::empty());
            }
            if str_equal(nick.as_str(), current_nick) {
                (one(GuiEvent::JoinedChannel(channel.clone())), None)
            } else {
                (one(GuiEvent::UserJoined { channel: channel.clone(), nick }), None)
            }
        },
        IrcCommand::Part { channel, message } => {
            let nick = source_or(&msg.source_nick, "");
            proof {
                reveal_strlit("");
                assert(""@ =~= Seq::<char>::empty());
            }
            if str_equal(nick.as_str(), current_nick) {
                (one(GuiEvent::PartedChannel(channel.clone())), None)
            } else {
                (one(GuiEvent::UserParted { channel: channel.clone(), nick, message: message.clone() }), None)
            }
        },
        IrcCommand::Nick(new) => {
            let old = source_or(&msg.source_nick, "");
            proof {
                reveal_strlit("");
                assert(""@ =~= Seq::<char>::empty());
            }
            let ours = str_equal(old.as_str(), current_nick);
            let events = one(GuiEvent::NickChanged { old, new: new.clone() });
            if ours { (events, Some(new.clone())) } else { (events, None) }
        },
        IrcCommand::Quit(message) => match &msg.source_nick {
            Some(n) => (one(GuiEvent::UserQuit { nick: n.clone(), message: message.clone() }), None),
            None => (none(), None),
        },
        IrcCommand::Error(m) => (one(GuiEvent::Error(m.clone())), None),
        IrcCommand::ChannelMode { channel, modes } => (route_channel_mode(channel, modes, &msg.source_nick), None),
        _ => (none(), None),
    }
}

} // verus!
