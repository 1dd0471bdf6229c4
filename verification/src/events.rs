//! Applying backend events to the session state: buffers, user lists, topics,
//! the system log and status toasts.

use vstd::prelude::*;
use crate::buffer::{ChannelBuffer, MessageType, BufferView};
use crate::buffers::BufferMap;
use crate::config::{strings_view, opt_string_view};
use crate::buffer_events::{message_received_post, joined_channel_post, parted_channel_post, user_joined_post,
    user_parted_post, user_quit_post, user_mode_post, topic_post, names_post, nick_changed_post, message_buffer,
    on_message_received, on_joined_channel, on_parted_channel, on_user_joined, on_user_parted, on_user_quit,
    on_user_mode, on_topic, on_names, on_nick_changed};
use crate::logging::LogEntry;
use crate::protocol::{GuiEvent, users_view};
use crate::state::{ClientState, ensure_in_map, position_of, lemma_first_index};
use crate::text::{chars_of, to_owned_string, concat2, concat3, concat4,
    push_char, skip_whitespace, trim_start_spec};

verus! {

/// A system-log line: `[ts] body`.
pub open spec fn log_line(ts: Seq<char>, body: Seq<char>) -> Seq<char> {
    "["@ + ts + "] "@ + body
}

/// Builds a system-log line.
pub fn make_log_line(ts: &str, body: &str) -> (r: String)
    ensures
        r@ == log_line(ts@, body@),
{
    concat4("[", ts, "] ", body)
}

/// Whether `s` names a channel (starts with `#` or `&`).
pub open spec fn is_channel_name(s: Seq<char>) -> bool {
    s.len() > 0 && (s[0] == '#' || s[0] == '&')
}

/// Whether `s` names a channel (starts with `#` or `&`).
pub fn is_channel(s: &str) -> (r: bool)
    ensures
        r == is_channel_name(s@),
{
    let v = chars_of(s);
    v.len() > 0 && (v[0] == '#' || v[0] == '&')
}

/// The sidebar order after making sure `k` is listed, unless a buffer of that
/// name already existed or the name is already listed.
pub open spec fn order_after_ensure(order: Seq<Seq<char>>, m: Map<Seq<char>, BufferView>, k: Seq<char>) -> Seq<Seq<char>> {
    if m.contains_key(k) || order.contains(k) { order } else { order.push(k) }
}

/// ` (m)` for a message `m`, or nothing.
pub open spec fn reason_suffix(message: Option<Seq<char>>) -> Seq<char> {
    match message {
        Some(m) => " ("@ + m + ")"@,
        None => Seq::empty(),
    }
}

pub(crate) fn make_reason_suffix(message: &Option<String>) -> (r: String)
    ensures
        r@ == reason_suffix(match message { Some(m) => Some(m@), None => None }),
{
    match message {
        Some(m) => concat3(" (", m.as_str(), ")"),
        None => String::new(),
    }
}

/// Whether `text` is a CTCP ACTION: starts with `\x01ACTION ` and ends with `\x01`.
pub open spec fn is_ctcp_action(text: Seq<char>) -> bool {
    &&& text.len() >= 8
    &&& text[0] == '\x01' && text[1] == 'A' && text[2] == 'C' && text[3] == 'T'
    &&& text[4] == 'I' && text[5] == 'O' && text[6] == 'N' && text[7] == ' '
    &&& text.last() == '\x01'
}

/// The type of an incoming message: an action, a notice (the backend marks
/// notice senders as `-sender-`), or normal.
pub open spec fn incoming_type(text: Seq<char>, sender: Seq<char>) -> MessageType {
    if is_ctcp_action(text) {
        MessageType::Action
    } else if sender.len() > 0 && sender[0] == '-' && sender.last() == '-' {
        MessageType::Notice
    } else {
        MessageType::Normal
    }
}

pub(crate) fn incoming_message_type(text: &str, sender: &str) -> (t: MessageType)
    ensures
        t == incoming_type(text@, sender@),
{
    let t = chars_of(text);
    let s = chars_of(sender);
    let n = t.len();
    if n >= 8 && t[0] == '\x01' && t[1] == 'A' && t[2] == 'C' && t[3] == 'T' && t[4] == 'I'
        && t[5] == 'O' && t[6] == 'N' && t[7] == ' ' && t[n - 1] == '\x01' {
        MessageType::Action
    } else if s.len() > 0 && s[0] == '-' && s[s.len() - 1] == '-' {
        MessageType::Notice
    } else {
        MessageType::Normal
    }
}

/// The text of a MOTD line once a leading `:- `, `:-` or `- ` marker (and the
/// whitespace around it) is removed; a lone `-` becomes empty.
pub open spec fn motd_body(line: Seq<char>) -> Seq<char> {
    let s = trim_start_spec(line);
    if s.len() >= 3 && s[0] == ':' && s[1] == '-' && s[2] == ' ' {
        trim_start_spec(s.subrange(3, s.len() as int))
    } else if s.len() >= 2 && s[0] == ':' && s[1] == '-' {
        trim_start_spec(s.subrange(2, s.len() as int))
    } else if s.len() >= 2 && s[0] == '-' && s[1] == ' ' {
        trim_start_spec(s.subrange(2, s.len() as int))
    } else if s.len() == 1 && s[0] == '-' {
        Seq::empty()
    } else {
        s
    }
}

/// Box-drawing characters replaced by ASCII: `═ ─` by `-`, `│ ║` by `|`,
/// corners `┌ ┐ └ ┘` by `+`.
pub open spec fn plain_box_char(c: char) -> char {
    if c == '═' || c == '─' {
        '-'
    } else if c == '│' || c == '║' {
        '|'
    } else if c == '┌' || c == '┐' || c == '└' || c == '┘' {
        '+'
    } else {
        c
    }
}

/// A cleaned MOTD line: the body, with box drawing replaced by ASCII unless a
/// fallback font that has those glyphs is available.
pub open spec fn cleaned_motd(line: Seq<char>, has_fallback: bool) -> Seq<char> {
    if has_fallback {
        motd_body(line)
    } else {
        motd_body(line).map_values(|c: char| plain_box_char(c))
    }
}

/// Clean MOTD line formatting.
pub fn clean_motd_line(line: &str, font_fallback: &Option<String>) -> (r: String)
    ensures
        r@ == cleaned_motd(line@, font_fallback is Some),
{
    let v = chars_of(line);
    let n = v.len();
    assert(v@.subrange(0, n as int) =~= v@);
    let i = skip_whitespace(v.as_slice(), 0, n);
    let ghost s = trim_start_spec(line@);
    assert(s =~= v@.subrange(i as int, n as int));
    let start: usize;
    let end: usize;
    if n - i >= 3 && v[i] == ':' && v[i + 1] == '-' && v[i + 2] == ' ' {
        start = skip_whitespace(v.as_slice(), i + 3, n);
        end = n;
        assert(s.subrange(3, s.len() as int) =~= v@.subrange(i + 3, n as int));
    } else if n - i >= 2 && v[i] == ':' && v[i + 1] == '-' {
        start = skip_whitespace(v.as_slice(), i + 2, n);
        end = n;
        assert(s.subrange(2, s.len() as int) =~= v@.subrange(i + 2, n as int));
    } else if n - i >= 2 && v[i] == '-' && v[i + 1] == ' ' {
        start = skip_whitespace(v.as_slice(), i + 2, n);
        end = n;
        assert(s.subrange(2, s.len() as int) =~= v@.subrange(i + 2, n as int));
    } else if n - i == 1 && v[i] == '-' {
        start = n;
        end = n;
    } else {
        start = i;
        end = n;
    }
    assert(v@.subrange(start as int, end as int) == motd_body(line@));
    let has_fallback = font_fallback.is_some();
    let mut out = String::new();
    let mut k = start;
    while k < end
        invariant
            start <= k <= end <= v@.len(),
            v@ == line@,
            v@.subrange(start as int, end as int) == motd_body(line@),
            has_fallback == (font_fallback is Some),
            out@ == cleaned_motd(line@, has_fallback).take(k - start),
        decreases end - k,
    {
        let c = v[k];
        let d = if has_fallback {
            c
        } else if c == '═' || c == '─' {
            '-'
        } else if c == '│' || c == '║' {
            '|'
        } else if c == '┌' || c == '┐' || c == '└' || c == '┘' {
            '+'
        } else {
            c
        };
        push_char(&mut out, d);
        assert(motd_body(line@)[k - start] == c);
        assert(cleaned_motd(line@, has_fallback).take(k + 1 - start) =~= cleaned_motd(line@, has_fallback).take(k - start).push(d));
        k += 1;
    }
    assert(cleaned_motd(line@, has_fallback).take(end - start) =~= cleaned_motd(line@, has_fallback));
    out
}

/// Ensure a buffer exists for the given channel/PM name; a new name is also
/// appended to the sidebar order unless it is listed there already.
pub fn ensure_buffer(buffers: &mut BufferMap, buffers_order: &mut Vec<String>, name: &str)
    requires
        old(buffers).wf(),
    ensures
        final(buffers).wf(),
        final(buffers).map() == ensure_in_map(old(buffers).map(), name@),
        strings_view(final(buffers_order)@) == order_after_ensure(strings_view(old(buffers_order)@), old(buffers).map(), name@),
{
    if !buffers.contains_key(name) {
        buffers.insert(to_owned_string(name), ChannelBuffer::new());
        let pos = position_of(buffers_order, name);
        proof {
            lemma_first_index(strings_view(buffers_order@), name@);
            if strings_view(buffers_order@).contains(name@) {
                let j = choose|j: int| 0 <= j < strings_view(buffers_order@).len() && strings_view(buffers_order@)[j] == name@;
                assert(pos is Some);
            }
        }
        let listed = pos.is_some();
        if !listed {
            let ghost before = buffers_order@;
            buffers_order.push(to_owned_string(name));
            assert(strings_view(buffers_order@) =~= strings_view(before).push(name@));
        }
    }
}


/// Every buffer can still count one more unread message.
pub open spec fn unread_room(m: Map<Seq<char>, BufferView>) -> bool {
    forall|k: Seq<char>| #[trigger] m.contains_key(k) ==> m[k].unread_count < usize::MAX
}

/// The views of status toasts.
pub open spec fn status_view(v: Seq<(String, u64)>) -> Seq<(Seq<char>, u64)> {
    v.map_values(|e: (String, u64)| (e.0@, e.1))
}

/// Buffers, their order and the active buffer are unchanged.
pub open spec fn same_buffers(a: ClientState, b: ClientState) -> bool {
    &&& a.buffers == b.buffers
    &&& a.buffers_order == b.buffers_order
    &&& a.active_buffer == b.active_buffer
}

/// Connection flag, networks, expanded networks and toasts are unchanged.
pub open spec fn same_session(a: ClientState, b: ClientState) -> bool {
    &&& a.is_connected == b.is_connected
    &&& a.networks == b.networks
    &&& a.expanded_networks == b.expanded_networks
    &&& a.status_messages == b.status_messages
}

/// The system log with `line` appended.
pub open spec fn log_after(a: ClientState, line: Seq<char>) -> Seq<Seq<char>> {
    strings_view(a.system_log@).push(line)
}

/// The status toasts with `(text, now)` appended.
pub open spec fn status_after(a: ClientState, text: Seq<char>, now: u64) -> Seq<(Seq<char>, u64)> {
    status_view(a.status_messages@).push((text, now))
}

pub(crate) fn push_log(state: &mut ClientState, line: String)
    ensures
        strings_view(final(state).system_log@) == strings_view(old(state).system_log@).push(line@),
        same_buffers(*final(state), *old(state)),
        same_session(*final(state), *old(state)),
{
    let ghost before = state.system_log@;
    state.system_log.push(line);
    assert(strings_view(state.system_log@) =~= strings_view(before).push(line@));
}

pub(crate) fn push_status(state: &mut ClientState, text: String, now: u64)
    ensures
        status_view(final(state).status_messages@) == status_view(old(state).status_messages@).push((text@, now)),
        same_buffers(*final(state), *old(state)),
        final(state).system_log == old(state).system_log,
        final(state).is_connected == old(state).is_connected,
        final(state).networks == old(state).networks,
        final(state).expanded_networks == old(state).expanded_networks,
{
    let ghost before = state.status_messages@;
    let ghost tv = text@;
    state.status_messages.push((text, now));
    assert(status_view(state.status_messages@) =~= status_view(before).push((tv, now)));
}

/// After `Connected`: marked connected, logged, the server expanded in the
/// network list, and a toast.
pub open spec fn connected_post(pre: ClientState, post: ClientState, ts: Seq<char>, server_input: Seq<char>, now: u64) -> bool {
    &&& post.is_connected
    &&& strings_view(post.system_log@) == log_after(pre, log_line(ts, "✓ Connected and registered!"@))
    &&& strings_view(post.expanded_networks@) == if strings_view(pre.expanded_networks@).contains(server_input) {
            strings_view(pre.expanded_networks@)
        } else {
            strings_view(pre.expanded_networks@).push(server_input)
        }
    &&& status_view(post.status_messages@) == status_after(pre, "Connected to "@ + server_input, now)
    &&& same_buffers(post, pre)
    &&& post.networks == pre.networks
}

/// After `Disconnected`: marked disconnected, logged with the reason, and a toast.
pub open spec fn disconnected_post(pre: ClientState, post: ClientState, ts: Seq<char>, reason: Seq<char>, now: u64) -> bool {
    &&& !post.is_connected
    &&& strings_view(post.system_log@) == log_after(pre, log_line(ts, "✗ Disconnected: "@ + reason))
    &&& status_view(post.status_messages@) == status_after(pre, "Disconnected"@, now)
    &&& same_buffers(post, pre)
    &&& post.networks == pre.networks
    &&& post.expanded_networks == pre.expanded_networks
}

/// After `Error`: logged, and a toast.
pub open spec fn error_post(pre: ClientState, post: ClientState, ts: Seq<char>, msg: Seq<char>, now: u64) -> bool {
    &&& strings_view(post.system_log@) == log_after(pre, log_line(ts, "⚠ Error: "@ + msg))
    &&& status_view(post.status_messages@) == status_after(pre, "Error: "@ + msg, now)
    &&& same_buffers(post, pre)
    &&& post.is_connected == pre.is_connected
    &&& post.networks == pre.networks
    &&& post.expanded_networks == pre.expanded_networks
}

/// After a raw server line: logged, keeping at most 500 lines.
pub open spec fn raw_message_post(pre: ClientState, post: ClientState, ts: Seq<char>, msg: Seq<char>) -> bool {
    &&& strings_view(post.system_log@) == raw_log_after(strings_view(pre.system_log@), log_line(ts, msg))
    &&& same_buffers(post, pre)
    &&& same_session(post, pre)
}

/// After a MOTD line: the cleaned line logged.
pub open spec fn motd_post(pre: ClientState, post: ClientState, ts: Seq<char>, line: Seq<char>, has_fallback: bool) -> bool {
    &&& strings_view(post.system_log@) == log_after(pre, log_line(ts,
            if cleaned_motd(line, has_fallback).len() == 0 {
                "MOTD:"@
            } else {
                "MOTD: "@ + cleaned_motd(line, has_fallback)
            }))
    &&& same_buffers(post, pre)
    &&& same_session(post, pre)
}

/// Connected: the session is marked connected, logged, the server is expanded
/// in the network list, and a toast says so.
pub fn on_connected(state: &mut ClientState, ts: &str, server_input: &str, now: u64)
    ensures
        connected_post(*old(state), *final(state), ts@, server_input@, now),
{
    state.is_connected = true;
    push_log(state, make_log_line(ts, "✓ Connected and registered!"));
    let pos = position_of(&state.expanded_networks, server_input);
    proof {
        lemma_first_index(strings_view(state.expanded_networks@), server_input@);
        if strings_view(state.expanded_networks@).contains(server_input@) {
            let j = choose|j: int| 0 <= j < strings_view(state.expanded_networks@).len()
                && strings_view(state.expanded_networks@)[j] == server_input@;
            assert(pos is Some);
        }
    }
    if pos.is_none() {
        let ghost before = state.expanded_networks@;
        state.expanded_networks.push(to_owned_string(server_input));
        assert(strings_view(state.expanded_networks@) =~= strings_view(before).push(server_input@));
    }
    push_status(state, concat2("Connected to ", server_input), now);
}

/// Disconnected: the session is marked disconnected, logged with the reason,
/// and a toast says so.
pub fn on_disconnected(state: &mut ClientState, ts: &str, reason: &str, now: u64)
    ensures
        disconnected_post(*old(state), *final(state), ts@, reason@, now),
{
    state.is_connected = false;
    push_log(state, make_log_line(ts, concat2("✗ Disconnected: ", reason).as_str()));
    push_status(state, to_owned_string("Disconnected"), now);
}

/// Error: logged, and shown as a toast.
pub fn on_error(state: &mut ClientState, ts: &str, msg: &str, now: u64)
    ensures
        error_post(*old(state), *final(state), ts@, msg@, now),
{
    push_log(state, make_log_line(ts, concat2("⚠ Error: ", msg).as_str()));
    push_status(state, concat2("Error: ", msg), now);
}

/// The system log after a raw server line: appended, and the oldest line
/// dropped once there are more than 500.
pub open spec fn raw_log_after(log: Seq<Seq<char>>, line: Seq<char>) -> Seq<Seq<char>> {
    let l = log.push(line);
    if l.len() > 500 { l.drop_first() } else { l }
}

/// A raw server message is logged; the log keeps at most 500 lines.
pub fn on_raw_message(state: &mut ClientState, ts: &str, msg: &str)
    ensures
        raw_message_post(*old(state), *final(state), ts@, msg@),
{
    push_log(state, make_log_line(ts, msg));
    if state.system_log.len() > 500 {
        let ghost before = state.system_log@;
        state.system_log.remove(0);
        assert(strings_view(state.system_log@) =~= strings_view(before).drop_first());
    }
}

/// A MOTD line is cleaned and logged (`MOTD:` alone when nothing is left).
pub fn on_motd(state: &mut ClientState, ts: &str, line: &str, font_fallback: &Option<String>)
    ensures
        motd_post(*old(state), *final(state), ts@, line@, font_fallback is Some),
{
    let cleaned = clean_motd_line(line, font_fallback);
    if cleaned.as_str().is_empty() {
        push_log(state, make_log_line(ts, "MOTD:"));
    } else {
        push_log(state, make_log_line(ts, concat2("MOTD: ", cleaned.as_str()).as_str()));
    }
}

/// The state after one backend event (as far as the state goes; the nick field
/// and the chat-log entry are stated by `process_event`). Channel-list events
/// belong to the channel browser, and server information, SASL results and
/// channel-mode notices are not shown: none of them changes the state.
pub open spec fn event_post(pre: ClientState, post: ClientState, event: GuiEvent, ts: Seq<char>, now: u64,
    server_input: Seq<char>, has_fallback: bool, own_nick: Seq<char>) -> bool {
    match event {
        GuiEvent::Connected => connected_post(pre, post, ts, server_input, now),
        GuiEvent::Disconnected(reason) => disconnected_post(pre, post, ts, reason@, now),
        GuiEvent::Error(msg) => error_post(pre, post, ts, msg@, now),
        GuiEvent::MessageReceived { target, sender, text } =>
            message_received_post(pre, post, ts, target@, sender@, text@, own_nick),
        GuiEvent::JoinedChannel(channel) => joined_channel_post(pre, post, ts, channel@, now),
        GuiEvent::PartedChannel(channel) => parted_channel_post(pre, post, ts, channel@, now),
        GuiEvent::UserJoined { channel, nick } => user_joined_post(pre, post, ts, channel@, nick@),
        GuiEvent::UserParted { channel, nick, message } =>
            user_parted_post(pre, post, ts, channel@, nick@, opt_string_view(message)),
        GuiEvent::UserQuit { nick, message } => user_quit_post(pre, post, ts, nick@, opt_string_view(message)),
        GuiEvent::UserMode { channel, nick, prefix, added } => user_mode_post(pre, post, channel@, nick@, prefix, added),
        GuiEvent::RawMessage(msg) => raw_message_post(pre, post, ts, msg@),
        GuiEvent::Motd(line) => motd_post(pre, post, ts, line@, has_fallback),
        GuiEvent::Topic { channel, topic } => topic_post(pre, post, ts, channel@, topic@),
        GuiEvent::Names { channel, names } => names_post(pre, post, channel@, users_view(names@)),
        GuiEvent::NickChanged { old, new } => nick_changed_post(pre, post, ts, old@, new@),
        _ => post == pre,
    }
}

/// Whether `e` adds a message to some buffer (so that buffer's unread count
/// may grow): a message, a join, a part, a quit, a topic or a nick change.
pub open spec fn adds_message(e: GuiEvent) -> bool {
    match e {
        GuiEvent::MessageReceived { .. } | GuiEvent::UserJoined { .. } | GuiEvent::UserParted { .. }
        | GuiEvent::UserQuit { .. } | GuiEvent::Topic { .. } | GuiEvent::NickChanged { .. } => true,
        _ => false,
    }
}

/// Whether `e` adds a message to some buffer (see `adds_message`).
pub fn event_adds_message(e: &GuiEvent) -> (r: bool)
    ensures
        r == adds_message(*e),
{
    match e {
        GuiEvent::MessageReceived { .. } | GuiEvent::UserJoined { .. } | GuiEvent::UserParted { .. }
        | GuiEvent::UserQuit { .. } | GuiEvent::Topic { .. } | GuiEvent::NickChanged { .. } => true,
        _ => false,
    }
}

/// Applies one backend event to the state. `ts` is the current time as shown
/// in the log (`HH:MM:SS`), `now` the current time in seconds for toasts,
/// `server_input` the server we are connected to, `nickname_input` our nick
/// (updated when the server confirms a nick change). Returns the chat-log entry
/// when a message arrived.
pub fn process_event(state: &mut ClientState, event: GuiEvent, nickname_input: &mut String, ts: &str, now: u64,
    server_input: &str, font_fallback: &Option<String>) -> (entry: Option<LogEntry>)
    requires
        old(state).wf(),
        adds_message(event) ==> unread_room(old(state).buffers.map()),
    ensures
        final(state).wf(),
        event_post(*old(state), *final(state), event, ts@, now, server_input@, font_fallback is Some,
            old(nickname_input)@),
        match event {
            GuiEvent::NickChanged { old, new } => final(nickname_input)@ == new@,
            _ => final(nickname_input)@ == old(nickname_input)@,
        },
        match event {
            GuiEvent::MessageReceived { target, sender, text } => match entry {
                Some(e) => {
                    &&& e.network@ == server_input@
                    &&& e.channel@ == message_buffer(target@, sender@)
                    &&& e.timestamp@ == ts@
                    &&& e.nick@ == sender@
                    &&& e.message@ == text@
                },
                None => false,
            },
            _ => entry is None,
        },
{
    match event {
        GuiEvent::Connected => {
            on_connected(state, ts, server_input, now);
            None
        },
        GuiEvent::Disconnected(reason) => {
            on_disconnected(state, ts, reason.as_str(), now);
            None
        },
        GuiEvent::Error(msg) => {
            on_error(state, ts, msg.as_str(), now);
            None
        },
        GuiEvent::MessageReceived { target, sender, text } => {
            let e = on_message_received(state, ts, target.as_str(), sender.as_str(), text.as_str(),
                nickname_input.as_str(), server_input);
            Some(e)
        },
        GuiEvent::JoinedChannel(channel) => {
            on_joined_channel(state, ts, channel.as_str(), now);
            None
        },
        GuiEvent::PartedChannel(channel) => {
            on_parted_channel(state, ts, channel.as_str(), now);
            None
        },
        GuiEvent::UserJoined { channel, nick } => {
            on_user_joined(state, ts, channel.as_str(), nick.as_str());
            None
        },
        GuiEvent::UserParted { channel, nick, message } => {
            on_user_parted(state, ts, channel.as_str(), nick.as_str(), &message);
            None
        },
        GuiEvent::UserQuit { nick, message } => {
            on_user_quit(state, ts, nick.as_str(), &message);
            None
        },
        GuiEvent::UserMode { channel, nick, prefix, added } => {
            on_user_mode(state, channel.as_str(), nick.as_str(), prefix, added);
            None
        },
        GuiEvent::RawMessage(msg) => {
            on_raw_message(state, ts, msg.as_str());
            None
        },
        GuiEvent::Motd(line) => {
            on_motd(state, ts, line.as_str(), font_fallback);
            None
        },
        GuiEvent::Topic { channel, topic } => {
            on_topic(state, ts, channel.as_str(), topic.as_str());
            None
        },
        GuiEvent::Names { channel, names } => {
            on_names(state, channel.as_str(), names);
            None
        },
        GuiEvent::NickChanged { old, new } => {
            on_nick_changed(state, ts, old.as_str(), new.as_str(), nickname_input);
            None
        },
        _ => None,
    }
}

/// Whether every buffer can count one more unread message, as
/// `process_event` needs.
pub fn has_unread_room(state: &ClientState) -> (r: bool)
    requires
        state.wf(),
    ensures
        r == unread_room(state.buffers.map()),
{
    let mut i: usize = 0;
    while i < state.buffers.len()
        invariant
            state.wf(),
            i <= state.buffers.entries@.len(),
            forall|j: int| 0 <= j < i ==> #[trigger] state.buffers.entries@[j].1.unread_count < usize::MAX,
        decreases state.buffers.entries@.len() - i,
    {
        if state.buffers.buffer_at(i).unread_count == usize::MAX {
            proof {
                state.buffers.lemma_find(i as int);
            }
            return false;
        }
        i += 1;
    }
    proof {
        assert forall|k: Seq<char>| #[trigger] state.buffers.map().contains_key(k) implies
            state.buffers.map()[k].unread_count < usize::MAX by {
            let j = state.buffers.find(k);
            state.buffers.lemma_find(j);
        }
    }
    true
}

} // verus!
