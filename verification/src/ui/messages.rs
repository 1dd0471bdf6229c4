//! Message helpers for the chat view: mention detection, timestamps and
//! grouping of consecutive messages.

use vstd::prelude::*;
use vstd::utf8::encode_utf8;
use crate::buffer::{RenderedMessage, MessageType, MessageView, messages_view};
use crate::text::{split_on, split_at_char, str_to_lowercase, unicode_lowercase, str_equal, chars_of, chars_occur_at,
    occurs_at};
use crate::validation::{parse_decimal, parse_decimal_spec};

verus! {

/// Maximum time gap (in seconds) before starting a new message group.
/// Messages from the same sender within 5 minutes are grouped together.
pub const GROUP_TIME_GAP_SECONDS: u32 = 300;

/// The seconds since midnight that `HH:MM:SS` stands for: exactly three
/// `:`-separated fields, each a `u32` as `str::parse` reads it. The sum is
/// not bounded here.
pub open spec fn timestamp_value_spec(ts: Seq<char>) -> Option<nat> {
    let parts = split_on(ts, ':');
    if parts.len() != 3 {
        None
    } else {
        match (parse_decimal_spec(parts[0], u32::MAX as nat), parse_decimal_spec(parts[1], u32::MAX as nat),
            parse_decimal_spec(parts[2], u32::MAX as nat)) {
            (Some(h), Some(m), Some(s)) => Some(h * 3600 + m * 60 + s),
            _ => None,
        }
    }
}

/// Whether reading `ts` as seconds stays within a `u32` (no overflow).
pub open spec fn timestamp_fits(ts: Seq<char>) -> bool {
    match timestamp_value_spec(ts) {
        Some(v) => v <= u32::MAX,
        None => true,
    }
}

/// The seconds since midnight that `ts` stands for, without bound.
pub fn timestamp_value(ts: &str) -> (r: Option<u64>)
    ensures
        match r {
            Some(v) => timestamp_value_spec(ts@) == Some(v as nat),
            None => timestamp_value_spec(ts@) is None,
        },
{
    let parts = split_at_char(ts, ':');
    if parts.len() != 3 {
        return None;
    }
    let h = match parse_decimal(parts[0].as_str(), u32::MAX as u64) { Some(v) => v, None => return None };
    let m = match parse_decimal(parts[1].as_str(), u32::MAX as u64) { Some(v) => v, None => return None };
    let s = match parse_decimal(parts[2].as_str(), u32::MAX as u64) { Some(v) => v, None => return None };
    Some(h * 3600 + m * 60 + s)
}

/// Parse a timestamp string "HH:MM:SS" into total seconds since midnight.
/// Returns None if parsing fails. (The sum must fit in a `u32`.)
pub fn parse_timestamp_seconds(ts: &str) -> (r: Option<u32>)
    requires
        timestamp_fits(ts@),
    ensures
        match r {
            Some(v) => timestamp_value_spec(ts@) == Some(v as nat),
            None => timestamp_value_spec(ts@) is None,
        },
{
    match timestamp_value(ts) {
        Some(v) => Some(v as u32),
        None => None,
    }
}

/// Whether comparing `ts1` and `ts2` stays within `u32` arithmetic: both read
/// without overflow (the second only when the first parses), and a wrap past
/// midnight can add a day to the second.
pub open spec fn window_safe(ts1: Seq<char>, ts2: Seq<char>) -> bool {
    &&& timestamp_fits(ts1)
    &&& timestamp_value_spec(ts1) is Some ==> {
        &&& timestamp_fits(ts2)
        &&& match (timestamp_value_spec(ts1), timestamp_value_spec(ts2)) {
            (Some(a), Some(b)) => b >= a || (b + 86400 <= u32::MAX && a <= b + 86400),
            _ => true,
        }
    }
}

/// Whether `ts2` comes at most five minutes after `ts1`, reading a smaller
/// `ts2` as being on the next day; false when either does not parse.
pub open spec fn within_window(ts1: Seq<char>, ts2: Seq<char>) -> bool {
    match (timestamp_value_spec(ts1), timestamp_value_spec(ts2)) {
        (Some(a), Some(b)) => (if b >= a { b - a } else { b + 86400 - a }) <= GROUP_TIME_GAP_SECONDS,
        _ => false,
    }
}

/// Check if two timestamps are within the grouping window (5 minutes).
/// Handles midnight wraparound.
pub fn timestamps_within_window(ts1: &str, ts2: &str) -> (r: bool)
    requires
        window_safe(ts1@, ts2@),
    ensures
        r == within_window(ts1@, ts2@),
{
    let secs1 = match parse_timestamp_seconds(ts1) { Some(v) => v, None => return false };
    let secs2 = match parse_timestamp_seconds(ts2) { Some(v) => v, None => return false };
    assert(timestamp_value_spec(ts1@) == Some(secs1 as nat));
    assert(timestamp_value_spec(ts2@) == Some(secs2 as nat));
    let diff = if secs2 >= secs1 { secs2 - secs1 } else { (secs2 + 86400) - secs1 };
    diff <= GROUP_TIME_GAP_SECONDS
}

/// Whether byte `b` is an ASCII letter or digit.
pub open spec fn is_ascii_alnum_byte(b: u8) -> bool {
    (48 <= b && b <= 57) || (65 <= b && b <= 90) || (97 <= b && b <= 122)
}

/// Whether the bytes `nb` occur in `tb` at offset `p` as a mention: the byte
/// of `ob` just before offset `p` (if there is one) and the byte of `ob` at the
/// offset just past the occurrence (if there is one) are not ASCII letters or
/// digits, so `@`, `:`, `,`, `'`, spaces and the bytes of non-ASCII
/// characters are boundaries.
pub open spec fn mention_at(tb: Seq<u8>, nb: Seq<u8>, ob: Seq<u8>, p: int) -> bool {
    &&& 0 <= p && p + nb.len() <= tb.len() && tb.subrange(p, p + nb.len()) == nb
    &&& (p == 0 || p - 1 >= ob.len() || !is_ascii_alnum_byte(ob[p - 1]))
    &&& (p + nb.len() >= ob.len() || !is_ascii_alnum_byte(ob[p + nb.len()]))
}

/// Whether `text` mentions `nick`: the nick is not empty, and the UTF-8 bytes
/// of the lowercase nick occur in those of the lowercase text at an offset
/// where the text as written has a word boundary on both sides (see
/// `mention_at`). The boundaries are read in the text as written, at the
/// offsets of the occurrence in the lowercase text; the two agree wherever
/// lowercasing keeps the byte lengths, as it does for ASCII.
pub open spec fn mentions(text: Seq<char>, nick: Seq<char>) -> bool {
    nick.len() > 0 && exists|p: int| mention_at(
        encode_utf8(unicode_lowercase(text)), encode_utf8(unicode_lowercase(nick)), encode_utf8(text), p)
}

fn is_alnum_byte(b: u8) -> (r: bool)
    ensures
        r == is_ascii_alnum_byte(b),
{
    (48 <= b && b <= 57) || (65 <= b && b <= 90) || (97 <= b && b <= 122)
}

/// Whether `p` occurs in `s` at offset `i`, on byte slices.
fn bytes_occur_at(s: &[u8], p: &[u8], i: usize) -> (r: bool)
    requires
        i + p@.len() <= s@.len(),
    ensures
        r == (s@.subrange(i as int, i + p@.len()) == p@),
{
    let mut k: usize = 0;
    while k < p.len()
        invariant
            i + p@.len() <= s@.len(),
            s@.len() == s.len(),
            k <= p@.len(),
            forall|j: int| 0 <= j < k ==> s@[i + j] == p@[j],
        decreases p@.len() - k,
    {
        if s[i + k] != p[k] {
            assert(s@.subrange(i as int, i + p@.len())[k as int] != p@[k as int]);
            return false;
        }
        k += 1;
    }
    assert(s@.subrange(i as int, i + p@.len()) =~= p@);
    true
}

/// Check if a message contains a mention of the given nickname (see
/// `mentions`): case-insensitively, as a complete word, where an apostrophe,
/// `@`, `:` or `,` counts as a boundary; an empty nickname never matches.
pub fn contains_mention(text: &str, nickname: &str) -> (r: bool)
    ensures
        r == mentions(text@, nickname@),
{
    if nickname.is_empty() {
        return false;
    }
    assert(nickname@.len() > 0);
    let tl = str_to_lowercase(text);
    let nl = str_to_lowercase(nickname);
    let tb = tl.as_str().as_bytes();
    let nb = nl.as_str().as_bytes();
    let ob = text.as_bytes();
    let ghost tv = encode_utf8(unicode_lowercase(text@));
    let ghost nv = encode_utf8(unicode_lowercase(nickname@));
    let ghost ov = encode_utf8(text@);
    assert(tb@ == tv);
    assert(nb@ == nv);
    assert(ob@ == ov);
    if nb.len() > tb.len() {
        assert forall|p: int| !mention_at(tv, nv, ov, p) by {}
        return false;
    }
    let nlen = nb.len();
    let tlen = tb.len();
    let olen = ob.len();
    let last = tlen - nlen;
    let mut i: usize = 0;
    loop
        invariant
            tb@ == tv,
            nb@ == nv,
            ob@ == ov,
            nlen == nv.len(),
            tlen == tv.len(),
            olen == ov.len(),
            nlen <= tlen,
            last == tlen - nlen,
            i <= last,
            tv == encode_utf8(unicode_lowercase(text@)),
            nv == encode_utf8(unicode_lowercase(nickname@)),
            ov == encode_utf8(text@),
            nickname@.len() > 0,
            forall|j: int| 0 <= j < i ==> !mention_at(tv, nv, ov, j),
        ensures
            forall|j: int| 0 <= j <= last ==> !mention_at(tv, nv, ov, j),
        decreases last - i,
    {
        if bytes_occur_at(tb, nb, i) {
            let at_start = i == 0 || i - 1 >= olen || !is_alnum_byte(ob[i - 1]);
            let e = i + nlen;
            let at_end = e >= olen || !is_alnum_byte(ob[e]);
            if at_start && at_end {
                assert(mention_at(tv, nv, ov, i as int));
                assert(mentions(text@, nickname@));
                return true;
            }
        }
        if i == last {
            break;
        }
        i += 1;
    }
    assert forall|j: int| !mention_at(tv, nv, ov, j) by {
        if 0 <= j <= last {
        }
    }
    false
}

/// A run of consecutive messages shown together: their sender, their
/// positions in the buffer, the first one's timestamp, and whether it is a
/// system line (join, part, quit, nick change, topic), which stands alone.
#[derive(Debug)]
pub struct MessageGroup {
    pub sender: String,
    pub messages: Vec<usize>,
    pub first_timestamp: String,
    pub is_system: bool,
}

/// A message group as plain values.
pub struct GroupView {
    pub sender: Seq<char>,
    pub messages: Seq<usize>,
    pub first_timestamp: Seq<char>,
    pub is_system: bool,
}

impl View for MessageGroup {
    type V = GroupView;

    open spec fn view(&self) -> GroupView {
        GroupView {
            sender: self.sender@,
            messages: self.messages@,
            first_timestamp: self.first_timestamp@,
            is_system: self.is_system,
        }
    }
}

/// The views of a sequence of groups.
pub open spec fn groups_view(v: Seq<MessageGroup>) -> Seq<GroupView> {
    v.map_values(|g: MessageGroup| g@)
}

/// Whether messages of type `t` are system lines.
pub open spec fn is_system_type(t: MessageType) -> bool {
    t == MessageType::Join || t == MessageType::Part || t == MessageType::Quit || t == MessageType::NickChange
        || t == MessageType::Topic
}

/// Whether messages of type `t` can join a previous group.
pub open spec fn groupable_type(t: MessageType) -> bool {
    t == MessageType::Normal || t == MessageType::Action || t == MessageType::Notice
}

/// A new group holding message `i` alone.
pub open spec fn new_group(msgs: Seq<MessageView>, i: int, system: bool) -> GroupView {
    GroupView { sender: msgs[i].sender, messages: seq![i as usize], first_timestamp: msgs[i].timestamp, is_system: system }
}

/// Whether message `i` may join `last` before the time check: `last` is not a
/// system group, has the same sender, and the message type can be grouped.
pub open spec fn may_join(msgs: Seq<MessageView>, last: GroupView, i: int) -> bool {
    !last.is_system && last.sender == msgs[i].sender && groupable_type(msgs[i].msg_type)
}

/// The timestamp of the last message of a group.
pub open spec fn last_timestamp(msgs: Seq<MessageView>, g: GroupView) -> Seq<char> {
    if g.messages.len() > 0 { msgs[g.messages.last() as int].timestamp } else { g.first_timestamp }
}

/// The groups of the first `n` messages: a system line starts a group of its
/// own; another message joins the last group when it may (see `may_join`)
/// and comes within five minutes of that group's last message.
pub open spec fn group_spec(msgs: Seq<MessageView>, n: int) -> Seq<GroupView>
    decreases n,
{
    if n <= 0 {
        Seq::empty()
    } else {
        let g = group_spec(msgs, n - 1);
        let i = n - 1;
        if is_system_type(msgs[i].msg_type) {
            g.push(new_group(msgs, i, true))
        } else if g.len() > 0 && may_join(msgs, g.last(), i) && within_window(last_timestamp(msgs, g.last()), msgs[i].timestamp) {
            g.update(g.len() - 1, GroupView { messages: g.last().messages.push(i as usize), ..g.last() })
        } else {
            g.push(new_group(msgs, i, false))
        }
    }
}

/// Whether grouping the first `n` messages only compares timestamps that it
/// can compare without overflow (see `window_safe`).
pub open spec fn group_safe(msgs: Seq<MessageView>, n: int) -> bool
    decreases n,
{
    if n <= 0 {
        true
    } else {
        let g = group_spec(msgs, n - 1);
        let i = n - 1;
        &&& group_safe(msgs, n - 1)
        &&& (!is_system_type(msgs[i].msg_type) && g.len() > 0 && may_join(msgs, g.last(), i))
            ==> window_safe(last_timestamp(msgs, g.last()), msgs[i].timestamp)
    }
}

/// Group messages by sender for display.
pub fn group_messages(messages: &[RenderedMessage]) -> (r: Vec<MessageGroup>)
    requires
        group_safe(messages_view(messages@), messages@.len() as int),
    ensures
        groups_view(r@) == group_spec(messages_view(messages@), messages@.len() as int),
{
    let ghost mv = messages_view(messages@);
    let mut groups: Vec<MessageGroup> = Vec::new();
    let mut i: usize = 0;
    assert(groups_view(groups@) =~= group_spec(mv, 0));
    while i < messages.len()
        invariant
            i <= messages@.len(),
            mv == messages_view(messages@),
            group_safe(mv, messages@.len() as int),
            groups_view(groups@) == group_spec(mv, i as int),
            forall|k: int| 0 <= k < groups@.len() ==> (#[trigger] groups@[k]).messages@.len() > 0
                && groups@[k].messages@.last() < i,
        decreases messages@.len() - i,
    {
        proof {
            lemma_group_safe_prefix(mv, messages@.len() as int, i + 1);
        }
        let ghost before = groups@;
        let msg = &messages[i];
        let t = msg.msg_type.clone();
        let is_system = match t {
            MessageType::Join | MessageType::Part | MessageType::Quit | MessageType::NickChange | MessageType::Topic => true,
            _ => false,
        };
        let mut one: Vec<usize> = Vec::new();
        one.push(i);
        if is_system {
            groups.push(MessageGroup { sender: msg.sender.clone(), messages: one, first_timestamp: msg.timestamp.clone(), is_system: true });
            assert(groups_view(groups@) =~= groups_view(before).push(new_group(mv, i as int, true)));
        } else {
            let n = groups.len();
            let should_group = if n == 0 {
                false
            } else {
                let last = &groups[n - 1];
                if last.is_system || !str_equal(last.sender.as_str(), msg.sender.as_str()) {
                    false
                } else {
                    let groupable = match t {
                        MessageType::Normal | MessageType::Action | MessageType::Notice => true,
                        _ => false,
                    };
                    if !groupable {
                        false
                    } else {
                        let li = last.messages[last.messages.len() - 1];
                        timestamps_within_window(messages[li].timestamp.as_str(), msg.timestamp.as_str())
                    }
                }
            };
            if should_group {
                let mut last = groups.pop().unwrap();
                let ghost lv = last@;
                last.messages.push(i);
                groups.push(last);
                assert(groups_view(groups@) =~= groups_view(before).update(n - 1,
                    GroupView { messages: groups_view(before).last().messages.push(i), ..groups_view(before).last() }));
            } else {
                groups.push(MessageGroup { sender: msg.sender.clone(), messages: one, first_timestamp: msg.timestamp.clone(), is_system: false });
                assert(groups_view(groups@) =~= groups_view(before).push(new_group(mv, i as int, false)));
            }
        }
        i += 1;
    }
    groups
}

/// Whether `window_safe(ts1, ts2)` holds, so that `timestamps_within_window`
/// may be called on them.
pub fn window_is_safe(ts1: &str, ts2: &str) -> (r: bool)
    ensures
        r == window_safe(ts1@, ts2@),
{
    let a = match timestamp_value(ts1) {
        Some(v) => v,
        None => return true,
    };
    if a > u32::MAX as u64 {
        return false;
    }
    let b = match timestamp_value(ts2) {
        Some(v) => v,
        None => return true,
    };
    if b > u32::MAX as u64 {
        return false;
    }
    b >= a || (b + 86400 <= u32::MAX as u64 && a <= b + 86400)
}

proof fn lemma_timestamp_bound(ts: Seq<char>)
    ensures
        timestamp_value_spec(ts) matches Some(v) ==> v <= 4294967295 * 3661,
{
}

/// Whether `timestamps_within_window` would hold, computed without bound.
fn within_window_wide(ts1: &str, ts2: &str) -> (r: bool)
    ensures
        r == within_window(ts1@, ts2@),
{
    let a = match timestamp_value(ts1) {
        Some(v) => v,
        None => return false,
    };
    let b = match timestamp_value(ts2) {
        Some(v) => v,
        None => return false,
    };
    assert(a <= 4294967295 * 3661) by {
        lemma_timestamp_bound(ts1@);
    }
    assert(b <= 4294967295 * 3661) by {
        lemma_timestamp_bound(ts2@);
    }
    if b >= a { b - a <= 300 } else { b + 86400 <= a + 300 }
}

/// Whether `group_messages` may be called on `messages` (see `group_safe`).
pub fn grouping_is_safe(messages: &[RenderedMessage]) -> (r: bool)
    ensures
        r == group_safe(messages_view(messages@), messages@.len() as int),
{
    let ghost mv = messages_view(messages@);
    let mut have = false;
    let mut last_sys = false;
    let mut first: usize = 0;
    let mut last: usize = 0;
    let mut i: usize = 0;
    while i < messages.len()
        invariant
            i <= messages@.len(),
            mv == messages_view(messages@),
            group_safe(mv, i as int),
            have == (group_spec(mv, i as int).len() > 0),
            have ==> {
                let g = group_spec(mv, i as int).last();
                &&& first <= last < i
                &&& g.is_system == last_sys
                &&& g.sender == mv[first as int].sender
                &&& g.messages.len() > 0
                &&& g.messages.last() == last
            },
        decreases messages@.len() - i,
    {
        let ghost g = group_spec(mv, i as int);
        let msg = &messages[i];
        let is_system = match msg.msg_type {
            MessageType::Join | MessageType::Part | MessageType::Quit | MessageType::NickChange | MessageType::Topic => true,
            _ => false,
        };
        assert(is_system == is_system_type(mv[i as int].msg_type));
        if is_system {
            have = true;
            last_sys = true;
            first = i;
            last = i;
        } else {
            let groupable = match msg.msg_type {
                MessageType::Normal | MessageType::Action | MessageType::Notice => true,
                _ => false,
            };
            let joins = have && !last_sys && str_equal(messages[first].sender.as_str(), msg.sender.as_str()) && groupable;
            assert(joins == (g.len() > 0 && may_join(mv, g.last(), i as int)));
            if joins {
                assert(last_timestamp(mv, g.last()) == mv[last as int].timestamp);
                if !window_is_safe(messages[last].timestamp.as_str(), msg.timestamp.as_str()) {
                    proof {
                        assert(!group_safe(mv, i + 1));
                        if group_safe(mv, messages@.len() as int) {
                            lemma_group_safe_prefix(mv, messages@.len() as int, i + 1);
                        }
                    }
                    return false;
                }
                if within_window_wide(messages[last].timestamp.as_str(), msg.timestamp.as_str()) {
                    last = i;
                } else {
                    first = i;
                    last = i;
                    last_sys = false;
                }
            } else {
                have = true;
                first = i;
                last = i;
                last_sys = false;
            }
        }
        i += 1;
    }
    true
}

/// Groups the messages (see `group_messages`), or `None` when grouping them
/// would compare timestamps outside `u32` arithmetic (see `group_safe`).
pub fn group_messages_checked(messages: &[RenderedMessage]) -> (r: Option<Vec<MessageGroup>>)
    ensures
        match r {
            Some(g) => group_safe(messages_view(messages@), messages@.len() as int)
                && groups_view(g@) == group_spec(messages_view(messages@), messages@.len() as int),
            None => !group_safe(messages_view(messages@), messages@.len() as int),
        },
{
    if grouping_is_safe(messages) {
        Some(group_messages(messages))
    } else {
        None
    }
}

proof fn lemma_group_safe_prefix(msgs: Seq<MessageView>, n: int, m: int)
    requires
        0 <= m <= n,
        group_safe(msgs, n),
    ensures
        group_safe(msgs, m),
    decreases n - m,
{
    if m < n {
        lemma_group_safe_prefix(msgs, n - 1, m);
    }
}

/// The message positions of the groups, one group after the other.
pub open spec fn flatten_groups(gs: Seq<GroupView>) -> Seq<usize>
    decreases gs.len(),
{
    if gs.len() == 0 { Seq::empty() } else { flatten_groups(gs.drop_last()) + gs.last().messages }
}

/// Grouping keeps every message exactly once and in order: the groups'
/// positions, one group after the other, are `0, 1, ..., n - 1`, and no group
/// is empty.
pub proof fn lemma_groups_partition(msgs: Seq<MessageView>, n: int)
    requires
        0 <= n <= msgs.len(),
        msgs.len() <= usize::MAX,
    ensures
        flatten_groups(group_spec(msgs, n)) == Seq::new(n as nat, |i: int| i as usize),
        forall|k: int| 0 <= k < group_spec(msgs, n).len() ==> (#[trigger] group_spec(msgs, n)[k]).messages.len() > 0,
    decreases n,
{
    if n > 0 {
        lemma_groups_partition(msgs, n - 1);
        let g = group_spec(msgs, n - 1);
        let i = n - 1;
        let prev = Seq::new((n - 1) as nat, |k: int| k as usize);
        let target = Seq::new(n as nat, |k: int| k as usize);
        assert(target =~= prev.push(i as usize));
        if is_system_type(msgs[i].msg_type) || !(g.len() > 0 && may_join(msgs, g.last(), i)
            && within_window(last_timestamp(msgs, g.last()), msgs[i].timestamp)) {
            let ng = new_group(msgs, i, is_system_type(msgs[i].msg_type));
            assert(g.push(ng).drop_last() =~= g);
            assert(flatten_groups(g.push(ng)) =~= flatten_groups(g) + seq![i as usize]);
        } else {
            let last = g.last();
            let ng = GroupView { messages: last.messages.push(i as usize), ..last };
            let u = g.update(g.len() - 1, ng);
            assert(u.drop_last() =~= g.drop_last());
            assert(flatten_groups(g) == flatten_groups(g.drop_last()) + last.messages);
            assert(flatten_groups(u) =~= flatten_groups(g) + seq![i as usize]);
        }
    }
}

/// Message `j` of group `g` continues the run: it directly follows the
/// message before it in the group, can be grouped, has the group's sender,
/// comes within five minutes of the message before, and the group is not a
/// system line.
pub open spec fn continues_run(msgs: Seq<MessageView>, g: GroupView, j: int) -> bool {
    let m = g.messages[j] as int;
    let p = g.messages[j - 1] as int;
    &&& m == p + 1
    &&& !g.is_system
    &&& groupable_type(msgs[m].msg_type)
    &&& msgs[m].sender == g.sender
    &&& within_window(msgs[p].timestamp, msgs[m].timestamp)
}

/// `g` is a run of messages: not empty, with the sender, first timestamp and
/// system flag of its first message, and every later message continuing it.
pub open spec fn is_run(msgs: Seq<MessageView>, g: GroupView) -> bool {
    &&& g.messages.len() > 0
    &&& g.sender == msgs[g.messages[0] as int].sender
    &&& g.first_timestamp == msgs[g.messages[0] as int].timestamp
    &&& g.is_system == is_system_type(msgs[g.messages[0] as int].msg_type)
    &&& forall|j: int| 1 <= j < g.messages.len() ==> #[trigger] continues_run(msgs, g, j)
}

/// The run `prev` cannot be continued by the first message of `next`: that
/// message is a system line, or it may not join `prev`, or it comes more
/// than five minutes after the last message of `prev`.
pub open spec fn run_ends(msgs: Seq<MessageView>, prev: GroupView, next: GroupView) -> bool {
    let i = next.messages[0] as int;
    is_system_type(msgs[i].msg_type)
        || !(may_join(msgs, prev, i) && within_window(last_timestamp(msgs, prev), msgs[i].timestamp))
}

proof fn lemma_flatten_last(gs: Seq<GroupView>)
    requires
        gs.len() > 0,
        gs.last().messages.len() > 0,
    ensures
        flatten_groups(gs).len() > 0,
        flatten_groups(gs).last() == gs.last().messages.last(),
{
    let a = flatten_groups(gs.drop_last());
    let b = gs.last().messages;
    assert(flatten_groups(gs) == a + b);
    assert((a + b)[(a + b).len() - 1] == b[b.len() - 1]);
}

/// The groups are the maximal runs: each group is a run of consecutive
/// messages by one sender within the time window (a system line standing
/// alone), and no group could take the first message of the next one.
/// With `lemma_groups_partition` this fixes the groups.
pub proof fn lemma_groups_are_maximal_runs(msgs: Seq<MessageView>, n: int)
    requires
        0 <= n <= msgs.len(),
        msgs.len() <= usize::MAX,
    ensures
        forall|k: int| 0 <= k < group_spec(msgs, n).len() ==> is_run(msgs, #[trigger] group_spec(msgs, n)[k]),
        forall|k: int| 0 <= k < group_spec(msgs, n).len() - 1 ==>
            #[trigger] run_ends(msgs, group_spec(msgs, n)[k], group_spec(msgs, n)[k + 1]),
    decreases n,
{
    if n > 0 {
        lemma_groups_are_maximal_runs(msgs, n - 1);
        lemma_groups_partition(msgs, n - 1);
        let g = group_spec(msgs, n - 1);
        let gn = group_spec(msgs, n);
        let i = n - 1;
        if is_system_type(msgs[i].msg_type) || !(g.len() > 0 && may_join(msgs, g.last(), i)
            && within_window(last_timestamp(msgs, g.last()), msgs[i].timestamp)) {
            let ng = new_group(msgs, i, is_system_type(msgs[i].msg_type));
            assert(gn == g.push(ng));
            assert(is_run(msgs, ng));
            assert forall|k: int| 0 <= k < gn.len() implies is_run(msgs, #[trigger] gn[k]) by {
                if k < g.len() {
                    assert(gn[k] == g[k]);
                }
            }
            assert forall|k: int| 0 <= k < gn.len() - 1 implies #[trigger] run_ends(msgs, gn[k], gn[k + 1]) by {
                if k < g.len() - 1 {
                    assert(gn[k] == g[k]);
                    assert(gn[k + 1] == g[k + 1]);
                } else {
                    assert(gn[k] == g.last());
                    assert(gn[k + 1] == ng);
                }
            }
        } else {
            let li = g.len() - 1;
            let last = g.last();
            assert(last == g[li]);
            assert(is_run(msgs, g[li]));
            let nl = GroupView { messages: last.messages.push(i as usize), ..last };
            assert(gn == g.update(li, nl));
            lemma_flatten_last(g);
            let ids = Seq::new((n - 1) as nat, |q: int| q as usize);
            assert(flatten_groups(g) == ids);
            assert(last.messages.last() == (i - 1) as usize);
            assert(nl.messages[0] == last.messages[0]);
            assert forall|j: int| 1 <= j < nl.messages.len() implies #[trigger] continues_run(msgs, nl, j) by {
                if j < last.messages.len() {
                    assert(nl.messages[j] == last.messages[j]);
                    assert(nl.messages[j - 1] == last.messages[j - 1]);
                    assert(continues_run(msgs, last, j));
                } else {
                    assert(nl.messages[j] == i as usize);
                    assert(nl.messages[j - 1] == last.messages.last());
                }
            }
            assert(is_run(msgs, nl));
            assert forall|k: int| 0 <= k < gn.len() implies is_run(msgs, #[trigger] gn[k]) by {
                if k < li {
                    assert(gn[k] == g[k]);
                }
            }
            assert forall|k: int| 0 <= k < gn.len() - 1 implies #[trigger] run_ends(msgs, gn[k], gn[k + 1]) by {
                assert(gn[k] == g[k]);
                assert(run_ends(msgs, g[k], g[k + 1]));
                if k + 1 < li {
                    assert(gn[k + 1] == g[k + 1]);
                } else {
                    assert(gn[k + 1] == nl);
                }
            }
        }
    }
}

} // verus!
