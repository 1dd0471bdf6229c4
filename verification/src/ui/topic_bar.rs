//! Topic bar logic: who may edit the topic, and the channel-mode tooltip.

use vstd::prelude::*;
use crate::buffer::BufferView;
use crate::buffers::BufferMap;
use crate::config::strings_view;
use crate::protocol::UserView;
use crate::text::{chars_of, str_equal, push_str, to_owned_string};
use crate::ui::theme::{rank_of, prefix_rank};

verus! {

/// What the user did in the topic bar.
#[derive(Debug)]
pub enum TopicBarAction {
    /// User double-clicked the topic to edit it
    EditTopic(String),
    /// User clicked the search icon
    OpenSearch,
    /// User toggled notification mute
    ToggleMute,
    /// User clicked pinned messages
    ShowPinned,
}

/// Whether `nickname` may edit the topic of the buffer `b`: under `+t` only a
/// half-op or higher may, otherwise anyone in the channel.
pub open spec fn may_edit_topic(modes: Seq<char>, users: Seq<UserView>, nickname: Seq<char>) -> bool {
    if modes.contains('t') {
        exists|i: int| 0 <= i < users.len() && #[trigger] users[i].nick == nickname && rank_of(users[i].prefix) >= 2
    } else {
        exists|i: int| 0 <= i < users.len() && #[trigger] users[i].nick == nickname
    }
}

/// Check if user has permission to edit topic in the channel `channel`
/// (false when there is no such buffer).
pub fn check_topic_permission(channel: &str, buffers: &BufferMap, nickname: &str) -> (r: bool)
    requires
        buffers.wf(),
    ensures
        r == (buffers.map().contains_key(channel@)
            && may_edit_topic(buffers.map()[channel@].channel_modes, buffers.map()[channel@].users, nickname@)),
{
    match buffers.get(channel) {
        Some(buffer) => {
            let modes = chars_of(buffer.channel_modes.as_str());
            let restricted = crate::text::chars_contain_char(modes.as_slice(), 't');
            let ghost u = crate::protocol::users_view(buffer.users@);
            assert(u == buffers.map()[channel@].users);
            assert(restricted == buffers.map()[channel@].channel_modes.contains('t'));
            let mut i: usize = 0;
            while i < buffer.users.len()
                invariant
                    i <= buffer.users@.len(),
                    u == crate::protocol::users_view(buffer.users@),
                    u == buffers.map()[channel@].users,
                    buffers.map().contains_key(channel@),
                    restricted == buffers.map()[channel@].channel_modes.contains('t'),
                    forall|j: int| 0 <= j < i ==> !(#[trigger] u[j].nick == nickname@ && (!restricted || rank_of(u[j].prefix) >= 2)),
                decreases buffer.users@.len() - i,
            {
                let user = &buffer.users[i];
                if str_equal(user.nick.as_str(), nickname) && (!restricted || prefix_rank(user.prefix) >= 2) {
                    assert(u[i as int].nick == nickname@);
                    assert(u[i as int].prefix == user.prefix);
                    let ghost bu = buffers.map()[channel@].users;
                    assert(bu[i as int].nick == nickname@);
                    assert(may_edit_topic(buffers.map()[channel@].channel_modes, bu, nickname@));
                    return true;
                }
                i += 1;
            }
            false
        },
        None => false,
    }
}

/// Whether `nickname` is an operator (or higher) in the channel `channel`:
/// it is listed there with rank 3 or more (`@`, `&`, `~`); false when there
/// is no such buffer. The channel context menu offers op actions only then.
pub fn is_channel_op(channel: &str, buffers: &BufferMap, nickname: &str) -> (r: bool)
    requires
        buffers.wf(),
    ensures
        r == (buffers.map().contains_key(channel@) && exists|i: int| 0 <= i < buffers.map()[channel@].users.len()
            && #[trigger] buffers.map()[channel@].users[i].nick == nickname@
            && rank_of(buffers.map()[channel@].users[i].prefix) >= 3),
{
    match buffers.get(channel) {
        Some(buffer) => {
            let ghost u = crate::protocol::users_view(buffer.users@);
            assert(u == buffers.map()[channel@].users);
            let mut i: usize = 0;
            while i < buffer.users.len()
                invariant
                    i <= buffer.users@.len(),
                    u == crate::protocol::users_view(buffer.users@),
                    u == buffers.map()[channel@].users,
                    buffers.map().contains_key(channel@),
                    forall|j: int| 0 <= j < i ==> !(#[trigger] u[j].nick == nickname@ && rank_of(u[j].prefix) >= 3),
                decreases buffer.users@.len() - i,
            {
                let user = &buffer.users[i];
                if str_equal(user.nick.as_str(), nickname) && prefix_rank(user.prefix) >= 3 {
                    assert(u[i as int].nick == nickname@);
                    return true;
                }
                i += 1;
            }
            assert forall|j: int| 0 <= j < u.len() implies !(#[trigger] u[j].nick == nickname@
                && rank_of(u[j].prefix) >= 3) by {}
            false
        },
        None => false,
    }
}

/// The tooltip line for a mode letter, if it has one.
pub open spec fn mode_line(c: char) -> Option<Seq<char>> {
    if c == 'm' { Some("+m: Moderated (only voiced+ can speak)"@) }
    else if c == 't' { Some("+t: Topic restricted to operators"@) }
    else if c == 'n' { Some("+n: No external messages"@) }
    else if c == 's' { Some("+s: Secret channel (hidden from /list)"@) }
    else if c == 'i' { Some("+i: Invite only"@) }
    else if c == 'p' { Some("+p: Private channel"@) }
    else if c == 'k' { Some("+k: Key required to join"@) }
    else if c == 'l' { Some("+l: User limit set"@) }
    else { None }
}

/// The tooltip lines for `modes`, one per known mode letter, in order.
pub open spec fn mode_lines(modes: Seq<char>) -> Seq<Seq<char>>
    decreases modes.len(),
{
    if modes.len() == 0 {
        Seq::empty()
    } else {
        match mode_line(modes.last()) {
            Some(l) => mode_lines(modes.drop_last()).push(l),
            None => mode_lines(modes.drop_last()),
        }
    }
}

/// The lines joined with newlines.
pub open spec fn join_lines(ls: Seq<Seq<char>>) -> Seq<char>
    decreases ls.len(),
{
    if ls.len() == 0 {
        Seq::empty()
    } else if ls.len() == 1 {
        ls[0]
    } else {
        join_lines(ls.drop_last()) + "\n"@ + ls.last()
    }
}

/// The tooltip for `modes`: the lines of the known modes joined by newlines,
/// or `No modes set`.
pub open spec fn mode_description(modes: Seq<char>) -> Seq<char> {
    if mode_lines(modes).len() == 0 { "No modes set"@ } else { join_lines(mode_lines(modes)) }
}

fn mode_line_exec(c: char) -> (r: Option<&'static str>)
    ensures
        match r {
            Some(l) => mode_line(c) == Some(l@),
            None => mode_line(c) is None,
        },
{
    if c == 'm' { Some("+m: Moderated (only voiced+ can speak)") }
    else if c == 't' { Some("+t: Topic restricted to operators") }
    else if c == 'n' { Some("+n: No external messages") }
    else if c == 's' { Some("+s: Secret channel (hidden from /list)") }
    else if c == 'i' { Some("+i: Invite only") }
    else if c == 'p' { Some("+p: Private channel") }
    else if c == 'k' { Some("+k: Key required to join") }
    else if c == 'l' { Some("+l: User limit set") }
    else { None }
}

/// Format mode description for tooltip
pub fn format_mode_description(modes: &str) -> (r: String)
    ensures
        r@ == mode_description(modes@),
{
    let v = chars_of(modes);
    let mut out = String::new();
    let mut count: usize = 0;
    let mut i: usize = 0;
    assert(v@.take(0) =~= Seq::<char>::empty());
    while i < v.len()
        invariant
            i <= v@.len(),
            v@ == modes@,
            count as nat == mode_lines(v@.take(i as int)).len(),
            count <= i,
            out@ == join_lines(mode_lines(v@.take(i as int))),
        decreases v@.len() - i,
    {
        assert(v@.take(i + 1).drop_last() =~= v@.take(i as int));
        assert(v@.take(i + 1).last() == v@[i as int]);
        match mode_line_exec(v[i]) {
            Some(l) => {
                let ghost prev = mode_lines(v@.take(i as int));
                if count > 0 {
                    push_str(&mut out, "\n");
                } else {
                    assert(out@ =~= Seq::<char>::empty());
                }
                push_str(&mut out, l);
                proof {
                    assert(prev.push(l@).drop_last() =~= prev);
                    if count > 0 {
                        assert(out@ =~= join_lines(prev) + "\n"@ + l@);
                    } else {
                        assert(out@ =~= l@);
                    }
                }
                count += 1;
            },
            None => {},
        }
        i += 1;
    }
    assert(v@.take(v@.len() as int) =~= v@);
    if count == 0 {
        to_owned_string("No modes set")
    } else {
        out
    }
}

/// The line logged when a topic edit is refused.
pub open spec fn topic_refused_line() -> Seq<char> {
    "You don't have permission to change the topic (channel is +t)"@
}

/// Double-clicking the topic of `channel`: when `nickname` may edit it, the
/// topic editor is asked for; otherwise a refusal is logged and nothing is
/// asked for.
pub fn topic_double_clicked(channel: &str, buffers: &BufferMap, nickname: &str, system_log: &mut Vec<String>)
    -> (r: Option<TopicBarAction>)
    requires
        buffers.wf(),
    ensures
        ({
            let allowed = buffers.map().contains_key(channel@)
                && may_edit_topic(buffers.map()[channel@].channel_modes, buffers.map()[channel@].users, nickname@);
            match r {
                Some(TopicBarAction::EditTopic(c)) => allowed && c@ == channel@
                    && strings_view(final(system_log)@) == strings_view(old(system_log)@),
                None => !allowed
                    && strings_view(final(system_log)@) == strings_view(old(system_log)@).push(topic_refused_line()),
                _ => false,
            }
        }),
{
    if check_topic_permission(channel, buffers, nickname) {
        Some(TopicBarAction::EditTopic(to_owned_string(channel)))
    } else {
        let line = to_owned_string("You don't have permission to change the topic (channel is +t)");
        proof {
            reveal_strlit("You don't have permission to change the topic (channel is +t)");
        }
        let ghost before = system_log@;
        system_log.push(line);
        assert(strings_view(system_log@) =~= strings_view(before).push(topic_refused_line()));
        None
    }
}

/// `b` with its notifications muted if they were on, and on if they were muted.
pub open spec fn mute_toggled(b: BufferView) -> BufferView {
    BufferView { notifications_muted: !b.notifications_muted, ..b }
}

/// The mute button of the topic bar: flips whether the buffer named `name`
/// notifies; nothing changes when there is no such buffer.
pub fn toggle_mute(buffers: &mut BufferMap, name: &str)
    requires
        old(buffers).wf(),
    ensures
        final(buffers).wf(),
        final(buffers).map() == if old(buffers).map().contains_key(name@) {
            old(buffers).map().insert(name@, mute_toggled(old(buffers).map()[name@]))
        } else {
            old(buffers).map()
        },
{
    match buffers.position(name) {
        Some(i) => {
            let ghost orig = *buffers;
            let mut b = buffers.take_at(i);
            proof {
                orig.lemma_find(i as int);
            }
            b.notifications_muted = !b.notifications_muted;
            buffers.put_at(i, b);
            proof {
                let k = name@;
                let f = |key: Seq<char>, bv: BufferView| if key == k { mute_toggled(bv) } else { bv };
                assert forall|j: int| 0 <= j < buffers.entries@.len() implies
                    #[trigger] buffers.entries@[j].1@ == f(orig.entries@[j].0@, orig.entries@[j].1@) by {
                    if j != i {
                        assert(buffers.entries@[j] == orig.entries@[j]);
                        assert(orig.entries@[j].0@ != orig.entries@[i as int].0@) by {
                            if j < i {
                                assert(orig.entries@[j].0@ != orig.entries@[i as int].0@);
                            } else {
                                assert(orig.entries@[i as int].0@ != orig.entries@[j].0@);
                            }
                        }
                    }
                }
                buffers.lemma_map_pointwise(orig, f);
                assert(buffers.map() =~= orig.map().insert(k, mute_toggled(orig.map()[k])));
            }
        },
        None => {},
    }
}

} // verus!
