//! Events that change one buffer: joins, parts, topics, names and user modes.

use vstd::prelude::*;
use crate::buffer::{ChannelBuffer, RenderedMessage, MessageType, MessageView, BufferView,
    buffer_after_add, buffer_read, messages_after_add};
use crate::config::strings_view;
use crate::logging::LogEntry;
use crate::events::{ensure_buffer, order_after_ensure, unread_room, reason_suffix, make_reason_suffix,
    is_channel_name, is_channel, incoming_type, incoming_message_type, log_line, make_log_line, log_after,
    status_after, status_view, push_log, push_status};
use crate::protocol::{UserInfo, UserView, users_view};
use crate::state::{ClientState, ensure_in_map};
use crate::text::{to_owned_string, concat2, concat3, concat4, str_equal, chars_of, chars_contain, contains_seq};
use crate::ui::panels::{sort_users, users_sorted};
use crate::users::{has_nick, rename_nick, rename_user, without_nick, first_with_nick, lemma_first_with_nick, find_user, has_user, remove_user};

verus! {

/// Everything but the buffers and their order is unchanged.
pub open spec fn same_outside_buffers(a: ClientState, b: ClientState) -> bool {
    &&& a.is_connected == b.is_connected
    &&& a.active_buffer == b.active_buffer
    &&& a.networks == b.networks
    &&& a.system_log == b.system_log
    &&& a.expanded_networks == b.expanded_networks
    &&& a.status_messages == b.status_messages
}

/// The buffers of `pre` once one named `k` is made sure to exist.
pub open spec fn ensured(pre: ClientState, k: Seq<char>) -> Map<Seq<char>, BufferView> {
    ensure_in_map(pre.buffers.map(), k)
}

/// `post` differs from `pre` only in the buffer named `k`, which was made sure
/// to exist (and listed in the sidebar order when new).
pub open spec fn only_buffer_changed(pre: ClientState, post: ClientState, k: Seq<char>) -> bool {
    &&& post.buffers.map() == ensured(pre, k).insert(k, post.buffers.map()[k])
    &&& post.order_view() == order_after_ensure(pre.order_view(), pre.buffers.map(), k)
    &&& same_outside_buffers(pre, post)
}

/// A message generated by the client itself: timestamp, sender tag, text, type.
pub open spec fn event_message(ts: Seq<char>, sender: Seq<char>, text: Seq<char>, t: MessageType) -> MessageView {
    MessageView { timestamp: ts, sender, text, msg_type: t }
}

/// `new` is `old` when `u.nick` is already listed, else `old` with `u` added,
/// sorted.
pub open spec fn users_with(old: Seq<UserView>, new: Seq<UserView>, u: UserView) -> bool {
    if has_nick(old, u.nick) {
        new == old
    } else {
        users_sorted(new) && new.to_multiset() == old.push(u).to_multiset()
    }
}

/// Takes the buffer named `name` out of the state, creating it first if needed.
pub fn take_buffer(state: &mut ClientState, name: &str) -> (b: ChannelBuffer)
    requires
        old(state).wf(),
    ensures
        final(state).wf(),
        final(state).buffers.map() == ensured(*old(state), name@).remove(name@),
        b@ == ensured(*old(state), name@)[name@],
        final(state).order_view() == order_after_ensure(old(state).order_view(), old(state).buffers.map(), name@),
        same_outside_buffers(*old(state), *final(state)),
{
    ensure_buffer(&mut state.buffers, &mut state.buffers_order, name);
    let r = state.buffers.remove(name);
    match r {
        Some(b) => b,
        None => {
            assert(false);
            ChannelBuffer::new()
        },
    }
}

/// Puts `b` back as the buffer named `name`.
pub fn put_buffer(state: &mut ClientState, name: &str, b: ChannelBuffer)
    requires
        old(state).wf(),
    ensures
        final(state).wf(),
        final(state).buffers.map() == old(state).buffers.map().insert(name@, b@),
        final(state).buffers_order == old(state).buffers_order,
        same_outside_buffers(*old(state), *final(state)),
{
    state.buffers.insert(to_owned_string(name), b);
}

/// Adds `u` to `users` unless its nick is listed, then sorts.
fn add_user_sorted(users: &mut Vec<UserInfo>, u: UserInfo)
    ensures
        users_with(users_view(old(users)@), users_view(final(users)@), u@),
{
    if !has_user(users, u.nick.as_str()) {
        let ghost before = users@;
        let ghost uv = u@;
        users.push(u);
        assert(users_view(users@) =~= users_view(before).push(uv));
        sort_users(users);
    }
}

/// Someone joined: a join line (`→`, `<nick> joined`) and the nick added to the
/// user list.
pub open spec fn user_joined_post(pre: ClientState, post: ClientState, ts: Seq<char>, channel: Seq<char>, nick: Seq<char>) -> bool {
    let b = ensured(pre, channel)[channel];
    let nb = post.buffers.map()[channel];
    let msg = event_message(ts, "→"@, nick + " joined"@, MessageType::Join);
    &&& only_buffer_changed(pre, post, channel)
    &&& nb == BufferView { users: nb.users, ..buffer_after_add(b, msg, pre.active_buffer@ == channel, false) }
    &&& users_with(b.users, nb.users, UserView { nick, prefix: None })
}

pub fn on_user_joined(state: &mut ClientState, ts: &str, channel: &str, nick: &str)
    requires
        old(state).wf(),
        unread_room(old(state).buffers.map()),
    ensures
        final(state).wf(),
        user_joined_post(*old(state), *final(state), ts@, channel@, nick@),
{
    let is_active = str_equal(state.active_buffer.as_str(), channel);
    let mut b = take_buffer(state, channel);
    let msg = RenderedMessage::new(to_owned_string(ts), to_owned_string("→"), concat2(nick, " joined"))
        .with_type(MessageType::Join);
    b.add_message(msg, is_active, false);
    add_user_sorted(&mut b.users, UserInfo { nick: to_owned_string(nick), prefix: None });
    put_buffer(state, channel, b);
    assert(state.buffers.map() =~= ensured(*old(state), channel@).insert(channel@, state.buffers.map()[channel@]));
}

/// Someone left: a part line (`←`, `<nick> left` and the reason in brackets)
/// and the nick removed from the user list.
pub open spec fn user_parted_post(pre: ClientState, post: ClientState, ts: Seq<char>, channel: Seq<char>,
    nick: Seq<char>, message: Option<Seq<char>>) -> bool {
    let b = ensured(pre, channel)[channel];
    let msg = event_message(ts, "←"@, nick + " left"@ + reason_suffix(message), MessageType::Part);
    &&& only_buffer_changed(pre, post, channel)
    &&& post.buffers.map()[channel] == BufferView {
        users: without_nick(b.users, nick),
        ..buffer_after_add(b, msg, pre.active_buffer@ == channel, false)
    }
}

pub fn on_user_parted(state: &mut ClientState, ts: &str, channel: &str, nick: &str, message: &Option<String>)
    requires
        old(state).wf(),
        unread_room(old(state).buffers.map()),
    ensures
        final(state).wf(),
        user_parted_post(*old(state), *final(state), ts@, channel@, nick@,
            match message { Some(m) => Some(m@), None => None }),
{
    let is_active = str_equal(state.active_buffer.as_str(), channel);
    let mut b = take_buffer(state, channel);
    let suffix = make_reason_suffix(message);
    let msg = RenderedMessage::new(to_owned_string(ts), to_owned_string("←"), concat3(nick, " left", suffix.as_str()))
        .with_type(MessageType::Part);
    b.add_message(msg, is_active, false);
    remove_user(&mut b.users, nick);
    put_buffer(state, channel, b);
    assert(state.buffers.map() =~= ensured(*old(state), channel@).insert(channel@, state.buffers.map()[channel@]));
}

/// A topic: stored, and a topic line (`*`, `Topic: <topic>`) added.
pub open spec fn topic_post(pre: ClientState, post: ClientState, ts: Seq<char>, channel: Seq<char>, topic: Seq<char>) -> bool {
    let b = ensured(pre, channel)[channel];
    let msg = event_message(ts, "*"@, "Topic: "@ + topic, MessageType::Topic);
    &&& only_buffer_changed(pre, post, channel)
    &&& post.buffers.map()[channel] == buffer_after_add(BufferView { topic, ..b }, msg, pre.active_buffer@ == channel, false)
}

pub fn on_topic(state: &mut ClientState, ts: &str, channel: &str, topic: &str)
    requires
        old(state).wf(),
        unread_room(old(state).buffers.map()),
    ensures
        final(state).wf(),
        topic_post(*old(state), *final(state), ts@, channel@, topic@),
{
    let is_active = str_equal(state.active_buffer.as_str(), channel);
    let mut b = take_buffer(state, channel);
    b.topic = to_owned_string(topic);
    let msg = RenderedMessage::new(to_owned_string(ts), to_owned_string("*"), concat2("Topic: ", topic))
        .with_type(MessageType::Topic);
    b.add_message(msg, is_active, false);
    put_buffer(state, channel, b);
    assert(state.buffers.map() =~= ensured(*old(state), channel@).insert(channel@, state.buffers.map()[channel@]));
}

/// A names list: it replaces the user list, sorted.
pub open spec fn names_post(pre: ClientState, post: ClientState, channel: Seq<char>, names: Seq<UserView>) -> bool {
    let b = ensured(pre, channel)[channel];
    let nb = post.buffers.map()[channel];
    &&& only_buffer_changed(pre, post, channel)
    &&& nb == BufferView { users: nb.users, ..b }
    &&& users_sorted(nb.users)
    &&& nb.users.to_multiset() == names.to_multiset()
}

pub fn on_names(state: &mut ClientState, channel: &str, names: Vec<UserInfo>)
    requires
        old(state).wf(),
    ensures
        final(state).wf(),
        names_post(*old(state), *final(state), channel@, users_view(names@)),
{
    let mut b = take_buffer(state, channel);
    b.users = names;
    sort_users(&mut b.users);
    put_buffer(state, channel, b);
    assert(state.buffers.map() =~= ensured(*old(state), channel@).insert(channel@, state.buffers.map()[channel@]));
}

/// The user list after a mode change, before sorting: the first user with the
/// nick gets the prefix when it was added, loses it when it was removed (only
/// if it is the prefix they hold); an unknown nick is added with the prefix
/// when the mode was added.
pub open spec fn users_after_mode(users: Seq<UserView>, nick: Seq<char>, prefix: Option<char>, added: bool) -> Seq<UserView> {
    match first_with_nick(users, nick) {
        Some(i) => users.update(i, UserView {
            nick: users[i].nick,
            prefix: if added { prefix } else if users[i].prefix == prefix { None } else { users[i].prefix },
        }),
        None => if added { users.push(UserView { nick, prefix }) } else { users },
    }
}

/// A user mode change: the user list as `users_after_mode` says, sorted.
pub open spec fn user_mode_post(pre: ClientState, post: ClientState, channel: Seq<char>, nick: Seq<char>,
    prefix: Option<char>, added: bool) -> bool {
    let b = ensured(pre, channel)[channel];
    let nb = post.buffers.map()[channel];
    &&& only_buffer_changed(pre, post, channel)
    &&& nb == BufferView { users: nb.users, ..b }
    &&& users_sorted(nb.users)
    &&& nb.users.to_multiset() == users_after_mode(b.users, nick, prefix, added).to_multiset()
}

/// Taking away a mode from a user who holds its prefix clears the prefix:
/// when `nick` is listed once in the channel with `prefix`, after the mode
/// is removed the channel lists `nick` with no prefix, and nowhere with a
/// prefix. Giving a mode lists `nick` with its prefix.
pub proof fn lemma_mode_change_sets_prefix(pre: ClientState, post: ClientState, channel: Seq<char>,
    nick: Seq<char>, prefix: Option<char>, added: bool, i: int)
    requires
        user_mode_post(pre, post, channel, nick, prefix, added),
        pre.buffers.map().contains_key(channel),
        0 <= i < pre.buffers.map()[channel].users.len(),
        pre.buffers.map()[channel].users[i].nick == nick,
        forall|j: int| 0 <= j < pre.buffers.map()[channel].users.len() && j != i
            ==> (#[trigger] pre.buffers.map()[channel].users[j]).nick != nick,
    ensures
        ({
            let after = post.buffers.map()[channel].users;
            &&& added ==> after.contains(UserView { nick, prefix })
            &&& !added && pre.buffers.map()[channel].users[i].prefix == prefix ==> {
                &&& after.contains(UserView { nick, prefix: None })
                &&& forall|j: int| 0 <= j < after.len() && (#[trigger] after[j]).nick == nick ==> after[j].prefix is None
            }
        }),
{
    let u = pre.buffers.map()[channel].users;
    assert(ensured(pre, channel)[channel] == pre.buffers.map()[channel]);
    lemma_first_with_nick(u, nick);
    match first_with_nick(u, nick) {
        Some(k) => {
            if k != i {
                assert(u[k].nick != nick);
            }
        },
        None => {
            assert(has_nick(u, nick)) by {
                assert(u[i].nick == nick);
            }
        },
    }
    let ua = users_after_mode(u, nick, prefix, added);
    let after = post.buffers.map()[channel].users;
    assert(after.to_multiset() == ua.to_multiset());
    ua.to_multiset_ensures();
    after.to_multiset_ensures();
    let newu = ua[i];
    assert(newu.nick == nick);
    assert(ua.contains(newu));
    assert(ua.to_multiset().count(newu) > 0);
    assert(after.to_multiset().count(newu) > 0);
    assert(after.contains(newu));
    if !added && u[i].prefix == prefix {
        assert(newu == UserView { nick, prefix: None });
        assert forall|j: int| 0 <= j < after.len() && (#[trigger] after[j]).nick == nick implies after[j].prefix is None by {
            assert(after.contains(after[j]));
            assert(after.to_multiset().count(after[j]) > 0);
            assert(ua.to_multiset().count(after[j]) > 0);
            assert(ua.contains(after[j]));
            let k = choose|k: int| 0 <= k < ua.len() && ua[k] == after[j];
            if k != i {
                assert(ua[k] == u[k]);
            }
        }
    }
    if added {
        assert(newu == UserView { nick, prefix });
    }
}

/// Giving a mode lists the nick with the mode's prefix in the channel,
/// whether or not it was listed before.
pub proof fn lemma_mode_given_lists_prefix(pre: ClientState, post: ClientState, channel: Seq<char>,
    nick: Seq<char>, prefix: Option<char>)
    requires
        user_mode_post(pre, post, channel, nick, prefix, true),
    ensures
        post.buffers.map()[channel].users.contains(UserView { nick, prefix }),
{
    let u = ensured(pre, channel)[channel].users;
    lemma_first_with_nick(u, nick);
    let ua = users_after_mode(u, nick, prefix, true);
    let after = post.buffers.map()[channel].users;
    let x = UserView { nick, prefix };
    match first_with_nick(u, nick) {
        Some(k) => {
            assert(ua[k] == x);
        },
        None => {
            assert(ua[u.len() as int] == x);
        },
    }
    assert(ua.contains(x));
    ua.to_multiset_ensures();
    after.to_multiset_ensures();
    assert(ua.to_multiset().count(x) > 0);
    assert(after.to_multiset().count(x) > 0);
}

pub fn on_user_mode(state: &mut ClientState, channel: &str, nick: &str, prefix: Option<char>, added: bool)
    requires
        old(state).wf(),
    ensures
        final(state).wf(),
        user_mode_post(*old(state), *final(state), channel@, nick@, prefix, added),
{
    let mut b = take_buffer(state, channel);
    let ghost u0 = users_view(b.users@);
    match find_user(&b.users, nick) {
        Some(i) => {
            proof {
                lemma_first_with_nick(u0, nick@);
            }
            let cur = b.users[i].prefix;
            let np = if added { prefix } else if cur == prefix { None } else { cur };
            let u = UserInfo { nick: b.users[i].nick.clone(), prefix: np };
            b.users.set(i, u);
            assert(users_view(b.users@) =~= users_after_mode(u0, nick@, prefix, added));
        },
        None => {
            if added {
                b.users.push(UserInfo { nick: to_owned_string(nick), prefix });
            }
            assert(users_view(b.users@) =~= users_after_mode(u0, nick@, prefix, added));
        },
    }
    sort_users(&mut b.users);
    put_buffer(state, channel, b);
    assert(state.buffers.map() =~= ensured(*old(state), channel@).insert(channel@, state.buffers.map()[channel@]));
}

/// The buffer a message goes to: the channel, or for a private message the
/// sender.
pub open spec fn message_buffer(target: Seq<char>, sender: Seq<char>) -> Seq<char> {
    if is_channel_name(target) { target } else { sender }
}

/// A message arrived: added to its buffer (read at once when that buffer is
/// active or the message is our own, a highlight when it mentions our nick),
/// and a channel's user list learns a new speaker.
pub open spec fn message_received_post(pre: ClientState, post: ClientState, ts: Seq<char>, target: Seq<char>,
    sender: Seq<char>, text: Seq<char>, own_nick: Seq<char>) -> bool {
    let k = message_buffer(target, sender);
    let b = ensured(pre, k)[k];
    let nb = post.buffers.map()[k];
    let msg = event_message(ts, sender, text, incoming_type(text, sender));
    let read = pre.active_buffer@ == k || sender == own_nick;
    &&& only_buffer_changed(pre, post, k)
    &&& nb == BufferView { users: nb.users, ..buffer_after_add(b, msg, read, contains_seq(text, own_nick)) }
    &&& if is_channel_name(k) {
        users_with(b.users, nb.users, UserView { nick: sender, prefix: None })
    } else {
        nb.users == b.users
    }
}

/// Handles a received message and returns the chat-log entry for it.
pub fn on_message_received(state: &mut ClientState, ts: &str, target: &str, sender: &str, text: &str,
    own_nick: &str, server_input: &str) -> (entry: LogEntry)
    requires
        old(state).wf(),
        unread_room(old(state).buffers.map()),
    ensures
        final(state).wf(),
        message_received_post(*old(state), *final(state), ts@, target@, sender@, text@, own_nick@),
        entry.network@ == server_input@,
        entry.channel@ == message_buffer(target@, sender@),
        entry.timestamp@ == ts@,
        entry.nick@ == sender@,
        entry.message@ == text@,
{
    let name: &str = if is_channel(target) { target } else { sender };
    let tv = chars_of(text);
    let nv = chars_of(own_nick);
    let mention = chars_contain(tv.as_slice(), nv.as_slice());
    let own = str_equal(sender, own_nick);
    let is_active = str_equal(state.active_buffer.as_str(), name);
    let mut b = take_buffer(state, name);
    let t = incoming_message_type(text, sender);
    let msg = RenderedMessage::new(to_owned_string(ts), to_owned_string(sender), to_owned_string(text)).with_type(t);
    b.add_message(msg, is_active || own, mention);
    if is_channel(name) {
        add_user_sorted(&mut b.users, UserInfo { nick: to_owned_string(sender), prefix: None });
    }
    put_buffer(state, name, b);
    assert(state.buffers.map() =~= ensured(*old(state), name@).insert(name@, state.buffers.map()[name@]));
    LogEntry {
        network: to_owned_string(server_input),
        channel: to_owned_string(name),
        timestamp: to_owned_string(ts),
        nick: to_owned_string(sender),
        message: to_owned_string(text),
    }
}

/// We joined a channel: logged (`✓ Joined`), a toast, the buffer made sure to
/// exist and marked read, and made active.
pub open spec fn joined_channel_post(pre: ClientState, post: ClientState, ts: Seq<char>, channel: Seq<char>, now: u64) -> bool {
    let m = ensured(pre, channel);
    &&& post.buffers.map() == m.insert(channel, buffer_read(m[channel]))
    &&& post.order_view() == order_after_ensure(pre.order_view(), pre.buffers.map(), channel)
    &&& post.active_buffer@ == channel
    &&& strings_view(post.system_log@) == log_after(pre, log_line(ts, "✓ Joined "@ + channel))
    &&& status_view(post.status_messages@) == status_after(pre, "Joined "@ + channel, now)
    &&& post.is_connected == pre.is_connected
    &&& post.networks == pre.networks
    &&& post.expanded_networks == pre.expanded_networks
}

pub fn on_joined_channel(state: &mut ClientState, ts: &str, channel: &str, now: u64)
    requires
        old(state).wf(),
    ensures
        final(state).wf(),
        joined_channel_post(*old(state), *final(state), ts@, channel@, now),
{
    push_log(state, make_log_line(ts, concat2("✓ Joined ", channel).as_str()));
    push_status(state, concat2("Joined ", channel), now);
    let mut b = take_buffer(state, channel);
    b.clear_unread();
    b.has_highlight = false;
    put_buffer(state, channel, b);
    state.active_buffer = to_owned_string(channel);
    assert(state.buffers.map() =~= ensured(*old(state), channel@).insert(channel@,
        buffer_read(ensured(*old(state), channel@)[channel@])));
}

/// `order` without the entries equal to `k`.
pub open spec fn order_without(order: Seq<Seq<char>>, k: Seq<char>) -> Seq<Seq<char>>
    decreases order.len(),
{
    if order.len() == 0 {
        order
    } else if order.last() == k {
        order_without(order.drop_last(), k)
    } else {
        order_without(order.drop_last(), k).push(order.last())
    }
}

/// Removes every entry equal to `name`, keeping the others in order.
fn remove_from_order(order: &mut Vec<String>, name: &str)
    ensures
        strings_view(final(order)@) == order_without(strings_view(old(order)@), name@),
{
    let mut out: Vec<String> = Vec::new();
    let mut i: usize = 0;
    while i < order.len()
        invariant
            i <= order@.len(),
            order == old(order),
            strings_view(out@) == order_without(strings_view(order@.take(i as int)), name@),
        decreases order@.len() - i,
    {
        proof {
            assert(strings_view(order@.take(i + 1)).drop_last() =~= strings_view(order@.take(i as int)));
        }
        if !str_equal(order[i].as_str(), name) {
            let ghost before = out@;
            out.push(order[i].clone());
            assert(strings_view(out@) =~= strings_view(before).push(order@[i as int]@));
        }
        i += 1;
    }
    assert(order@.take(order@.len() as int) =~= order@);
    *order = out;
}

/// We left a channel: logged (`← Left`), a toast, its buffer and sidebar entry
/// removed; the system buffer becomes active if it was the active one.
pub open spec fn parted_channel_post(pre: ClientState, post: ClientState, ts: Seq<char>, channel: Seq<char>, now: u64) -> bool {
    &&& post.buffers.map() == pre.buffers.map().remove(channel)
    &&& post.order_view() == order_without(pre.order_view(), channel)
    &&& post.active_buffer@ == if pre.active_buffer@ == channel { "System"@ } else { pre.active_buffer@ }
    &&& strings_view(post.system_log@) == log_after(pre, log_line(ts, "← Left "@ + channel))
    &&& status_view(post.status_messages@) == status_after(pre, "Left "@ + channel, now)
    &&& post.is_connected == pre.is_connected
    &&& post.networks == pre.networks
    &&& post.expanded_networks == pre.expanded_networks
}

/// Closes the buffer named `name` from its context menu: it leaves the map
/// and the sidebar, and the system buffer becomes active if it was.
pub fn close_buffer(state: &mut ClientState, name: &str)
    requires
        old(state).wf(),
    ensures
        final(state).wf(),
        final(state).buffers.map() == old(state).buffers.map().remove(name@),
        final(state).order_view() == order_without(old(state).order_view(), name@),
        final(state).active_buffer@ == if old(state).active_buffer@ == name@ { "System"@ } else { old(state).active_buffer@ },
        final(state).system_log == old(state).system_log,
        final(state).status_messages == old(state).status_messages,
        final(state).is_connected == old(state).is_connected,
        final(state).networks == old(state).networks,
        final(state).expanded_networks == old(state).expanded_networks,
{
    let _ = state.buffers.remove(name);
    remove_from_order(&mut state.buffers_order, name);
    if str_equal(state.active_buffer.as_str(), name) {
        state.active_buffer = to_owned_string("System");
    }
}

pub fn on_parted_channel(state: &mut ClientState, ts: &str, channel: &str, now: u64)
    requires
        old(state).wf(),
    ensures
        final(state).wf(),
        parted_channel_post(*old(state), *final(state), ts@, channel@, now),
{
    push_log(state, make_log_line(ts, concat2("← Left ", channel).as_str()));
    push_status(state, concat2("Left ", channel), now);
    let _ = state.buffers.remove(channel);
    remove_from_order(&mut state.buffers_order, channel);
    if str_equal(state.active_buffer.as_str(), channel) {
        state.active_buffer = to_owned_string("System");
    }
}

/// A buffer after `old` renamed himself to `new`: when `old` is in its user
/// list, the user is renamed and a line (`*`, `<old_nick> is now known as <new_nick>`)
/// is added, read at once when the buffer is the active one.
pub open spec fn nick_change_buffer(k: Seq<char>, b: BufferView, active: Seq<char>, ts: Seq<char>,
    old_nick: Seq<char>, new_nick: Seq<char>) -> BufferView {
    if has_nick(b.users, old_nick) {
        let msg = event_message(ts, "*"@, old_nick + " is now known as "@ + new_nick, MessageType::NickChange);
        BufferView { users: rename_nick(b.users, old_nick, new_nick), ..buffer_after_add(b, msg, k == active, false) }
    } else {
        b
    }
}

/// A nick change: every buffer as `nick_change_buffer` says, and a system-log
/// line.
pub open spec fn nick_changed_post(pre: ClientState, post: ClientState, ts: Seq<char>, old_nick: Seq<char>, new_nick: Seq<char>) -> bool {
    &&& post.buffers.map() == Map::new(|k: Seq<char>| pre.buffers.map().contains_key(k),
        |k: Seq<char>| nick_change_buffer(k, pre.buffers.map()[k], pre.active_buffer@, ts, old_nick, new_nick))
    &&& post.buffers_order == pre.buffers_order
    &&& strings_view(post.system_log@) == log_after(pre, log_line(ts, "Nick changed to "@ + new_nick + " (was: "@ + old_nick + ")"@))
    &&& post.active_buffer == pre.active_buffer
    &&& post.is_connected == pre.is_connected
    &&& post.networks == pre.networks
    &&& post.expanded_networks == pre.expanded_networks
    &&& post.status_messages == pre.status_messages
}

pub fn on_nick_changed(state: &mut ClientState, ts: &str, old_nick: &str, new_nick: &str, nickname_input: &mut String)
    requires
        old(state).wf(),
        unread_room(old(state).buffers.map()),
    ensures
        final(state).wf(),
        nick_changed_post(*old(state), *final(state), ts@, old_nick@, new_nick@),
        final(nickname_input)@ == new_nick@,
{
    let ghost orig = state.buffers;
    let ghost active = state.active_buffer@;
    let ghost f = |k: Seq<char>, b: BufferView| nick_change_buffer(k, b, active, ts@, old_nick@, new_nick@);
    let text = concat3(old_nick, " is now known as ", new_nick);
    let n = state.buffers.len();
    let mut i: usize = 0;
    while i < n
        invariant
            orig.wf(),
            state.buffers.wf(),
            state.buffers.same_names(orig),
            n == orig.entries@.len(),
            i <= n,
            unread_room(orig.map()),
            active == state.active_buffer@,
            text@ == old_nick@ + " is now known as "@ + new_nick@,
            forall|j: int| 0 <= j < i ==> #[trigger] state.buffers.entries@[j].1@ == nick_change_buffer(orig.entries@[j].0@, orig.entries@[j].1@, active, ts@, old_nick@, new_nick@),
            forall|j: int| i <= j < n ==> #[trigger] state.buffers.entries@[j] == orig.entries@[j],
            state.active_buffer == old(state).active_buffer,
            state.buffers_order == old(state).buffers_order,
            state.system_log == old(state).system_log,
            state.is_connected == old(state).is_connected,
            state.networks == old(state).networks,
            state.expanded_networks == old(state).expanded_networks,
            state.status_messages == old(state).status_messages,
        decreases n - i,
    {
        if has_user(&state.buffers.buffer_at(i).users, old_nick) {
            let is_active = str_equal(state.buffers.name_at(i).as_str(), state.active_buffer.as_str());
            let mut b = state.buffers.take_at(i);
            proof {
                orig.lemma_find(i as int);
            }
            let ghost bv = b@;
            rename_user(&mut b.users, old_nick, new_nick);
            let msg = RenderedMessage::new(to_owned_string(ts), to_owned_string("*"), text.clone())
                .with_type(MessageType::NickChange);
            b.add_message(msg, is_active, false);
            proof {
                let k = orig.entries@[i as int].0@;
                assert(bv == orig.entries@[i as int].1@);
                assert(has_nick(bv.users, old_nick@));
                assert(is_active == (k == active));
                let m = event_message(ts@, "*"@, old_nick@ + " is now known as "@ + new_nick@, MessageType::NickChange);
                assert(b@.messages == messages_after_add(bv.messages, m));
                assert(b@.users == rename_nick(bv.users, old_nick@, new_nick@));
                assert(b@.unread_count == buffer_after_add(bv, m, is_active, false).unread_count);
                assert(b@ == BufferView { users: rename_nick(bv.users, old_nick@, new_nick@), ..buffer_after_add(bv, m, is_active, false) });
                assert(b@ == nick_change_buffer(k, bv, active, ts@, old_nick@, new_nick@));
            }
            state.buffers.put_at(i, b);
        }
        i += 1;
    }
    proof {
        state.buffers.lemma_map_pointwise(orig, f);
        assert(state.buffers.map() =~= Map::new(|k: Seq<char>| orig.map().contains_key(k),
            |k: Seq<char>| nick_change_buffer(k, orig.map()[k], active, ts@, old_nick@, new_nick@)));
    }
    *nickname_input = to_owned_string(new_nick);
    let line = concat4("Nick changed to ", new_nick, " (was: ", concat2(old_nick, ")").as_str());
    assert(line@ =~= "Nick changed to "@ + new_nick@ + " (was: "@ + old_nick@ + ")"@);
    push_log(state, make_log_line(ts, line.as_str()));
}

/// A buffer after `nick` quit: when `nick` is in its user list, a quit line
/// (`⇐`, `<nick> quit` and the reason in brackets) is added and the user
/// removed.
pub open spec fn quit_buffer(k: Seq<char>, b: BufferView, active: Seq<char>, ts: Seq<char>,
    nick: Seq<char>, message: Option<Seq<char>>) -> BufferView {
    if has_nick(b.users, nick) {
        let msg = event_message(ts, "⇐"@, nick + " quit"@ + reason_suffix(message), MessageType::Quit);
        BufferView { users: without_nick(b.users, nick), ..buffer_after_add(b, msg, k == active, false) }
    } else {
        b
    }
}

/// A quit: every buffer as `quit_buffer` says; nothing else changes.
pub open spec fn user_quit_post(pre: ClientState, post: ClientState, ts: Seq<char>, nick: Seq<char>,
    message: Option<Seq<char>>) -> bool {
    &&& post.buffers.map() == Map::new(|k: Seq<char>| pre.buffers.map().contains_key(k),
        |k: Seq<char>| quit_buffer(k, pre.buffers.map()[k], pre.active_buffer@, ts, nick, message))
    &&& post.buffers_order == pre.buffers_order
    &&& post.system_log == pre.system_log
    &&& same_outside_buffers(pre, post)
}

pub fn on_user_quit(state: &mut ClientState, ts: &str, nick: &str, message: &Option<String>)
    requires
        old(state).wf(),
        unread_room(old(state).buffers.map()),
    ensures
        final(state).wf(),
        user_quit_post(*old(state), *final(state), ts@, nick@, match message { Some(m) => Some(m@), None => None }),
{
    let ghost orig = state.buffers;
    let ghost active = state.active_buffer@;
    let ghost mv = match message { Some(m) => Some(m@), None => None };
    let ghost f = |k: Seq<char>, b: BufferView| quit_buffer(k, b, active, ts@, nick@, mv);
    let suffix = make_reason_suffix(message);
    let text = concat3(nick, " quit", suffix.as_str());
    let n = state.buffers.len();
    let mut i: usize = 0;
    while i < n
        invariant
            orig.wf(),
            state.buffers.wf(),
            state.buffers.same_names(orig),
            n == orig.entries@.len(),
            i <= n,
            unread_room(orig.map()),
            active == state.active_buffer@,
            text@ == nick@ + " quit"@ + reason_suffix(mv),
            forall|j: int| 0 <= j < i ==> #[trigger] state.buffers.entries@[j].1@ == quit_buffer(orig.entries@[j].0@, orig.entries@[j].1@, active, ts@, nick@, mv),
            mv == match message { Some(m) => Some(m@), None => None },
            forall|j: int| i <= j < n ==> #[trigger] state.buffers.entries@[j] == orig.entries@[j],
            state.active_buffer == old(state).active_buffer,
            state.buffers_order == old(state).buffers_order,
            state.system_log == old(state).system_log,
            state.is_connected == old(state).is_connected,
            state.networks == old(state).networks,
            state.expanded_networks == old(state).expanded_networks,
            state.status_messages == old(state).status_messages,
        decreases n - i,
    {
        if has_user(&state.buffers.buffer_at(i).users, nick) {
            let is_active = str_equal(state.buffers.name_at(i).as_str(), state.active_buffer.as_str());
            let mut b = state.buffers.take_at(i);
            proof {
                orig.lemma_find(i as int);
            }
            let ghost bv = b@;
            let msg = RenderedMessage::new(to_owned_string(ts), to_owned_string("⇐"), text.clone())
                .with_type(MessageType::Quit);
            b.add_message(msg, is_active, false);
            remove_user(&mut b.users, nick);
            proof {
                let k = orig.entries@[i as int].0@;
                assert(bv == orig.entries@[i as int].1@);
                assert(has_nick(bv.users, nick@));
                assert(is_active == (k == active));
                assert(b@ == quit_buffer(k, bv, active, ts@, nick@, mv));
            }
            state.buffers.put_at(i, b);
        }
        i += 1;
    }
    proof {
        state.buffers.lemma_map_pointwise(orig, f);
        assert(state.buffers.map() =~= Map::new(|k: Seq<char>| orig.map().contains_key(k),
            |k: Seq<char>| quit_buffer(k, orig.map()[k], active, ts@, nick@, mv)));
    }
}

} // verus!
