//! Message buffers: one per channel, query or the system log.

use vstd::prelude::*;
use crate::protocol::{UserInfo, UserView, users_view};

verus! {

/// Maximum messages to keep in a buffer before trimming
pub const MAX_BUFFER_MESSAGES: usize = 2000;

/// Number of oldest messages to remove when trimming
pub const BUFFER_TRIM_COUNT: usize = 500;

/// Kind of a message, which decides how it is rendered.
#[derive(Debug, PartialEq, Eq, Structural)]
pub enum MessageType {
    Normal,
    /// /me messages
    Action,
    Join,
    Part,
    Quit,
    NickChange,
    Topic,
    Notice,
}

impl Clone for MessageType {
    fn clone(&self) -> (r: Self)
        ensures
            r == *self,
    {
        match self {
            MessageType::Normal => MessageType::Normal,
            MessageType::Action => MessageType::Action,
            MessageType::Join => MessageType::Join,
            MessageType::Part => MessageType::Part,
            MessageType::Quit => MessageType::Quit,
            MessageType::NickChange => MessageType::NickChange,
            MessageType::Topic => MessageType::Topic,
            MessageType::Notice => MessageType::Notice,
        }
    }
}

/// A rendered message with timestamp, sender and text.
#[derive(Debug)]
pub struct RenderedMessage {
    pub timestamp: String,
    pub sender: String,
    pub text: String,
    /// Message type for special rendering
    pub msg_type: MessageType,
}

/// A message as plain values.
pub struct MessageView {
    pub timestamp: Seq<char>,
    pub sender: Seq<char>,
    pub text: Seq<char>,
    pub msg_type: MessageType,
}

impl View for RenderedMessage {
    type V = MessageView;

    open spec fn view(&self) -> MessageView {
        MessageView {
            timestamp: self.timestamp@,
            sender: self.sender@,
            text: self.text@,
            msg_type: self.msg_type,
        }
    }
}

/// The views of a sequence of messages.
pub open spec fn messages_view(v: Seq<RenderedMessage>) -> Seq<MessageView> {
    v.map_values(|m: RenderedMessage| m@)
}

impl Clone for RenderedMessage {
    fn clone(&self) -> (r: Self)
        ensures
            r@ == self@,
    {
        RenderedMessage {
            timestamp: self.timestamp.clone(),
            sender: self.sender.clone(),
            text: self.text.clone(),
            msg_type: self.msg_type.clone(),
        }
    }
}

impl RenderedMessage {
    /// A normal message.
    pub fn new(timestamp: String, sender: String, text: String) -> (r: Self)
        ensures
            r@ == (MessageView {
                timestamp: timestamp@,
                sender: sender@,
                text: text@,
                msg_type: MessageType::Normal,
            }),
    {
        Self { timestamp, sender, text, msg_type: MessageType::Normal }
    }

    /// The same message with another type.
    pub fn with_type(self, msg_type: MessageType) -> (r: Self)
        ensures
            r@ == (MessageView { msg_type, ..self@ }),
    {
        let mut m = self;
        m.msg_type = msg_type;
        m
    }
}

/// A single buffer (channel, query, or system)
#[derive(Debug)]
pub struct ChannelBuffer {
    pub messages: Vec<RenderedMessage>,
    /// Users in this buffer with prefix/mode character (if any)
    pub users: Vec<UserInfo>,
    /// Topic of the channel
    pub topic: String,
    /// Number of unread messages
    pub unread_count: usize,
    /// Whether there is a highlight/mention in unread messages
    pub has_highlight: bool,
    /// Channel modes (e.g., "mtn" for +m+t+n)
    pub channel_modes: String,
    /// Whether notifications are muted for this channel
    pub notifications_muted: bool,
    /// Pinned message IDs (indices in messages vec)
    pub pinned_messages: Vec<usize>,
}

/// A buffer as plain values.
pub struct BufferView {
    pub messages: Seq<MessageView>,
    pub users: Seq<UserView>,
    pub topic: Seq<char>,
    pub unread_count: usize,
    pub has_highlight: bool,
    pub channel_modes: Seq<char>,
    pub notifications_muted: bool,
    pub pinned_messages: Seq<usize>,
}

impl View for ChannelBuffer {
    type V = BufferView;

    open spec fn view(&self) -> BufferView {
        BufferView {
            messages: messages_view(self.messages@),
            users: users_view(self.users@),
            topic: self.topic@,
            unread_count: self.unread_count,
            has_highlight: self.has_highlight,
            channel_modes: self.channel_modes@,
            notifications_muted: self.notifications_muted,
            pinned_messages: self.pinned_messages@,
        }
    }
}

/// A buffer with no messages, users, topic, modes or pins and nothing unread.
pub open spec fn fresh_buffer() -> BufferView {
    BufferView {
        messages: Seq::empty(),
        users: Seq::empty(),
        topic: Seq::empty(),
        unread_count: 0,
        has_highlight: false,
        channel_modes: Seq::empty(),
        notifications_muted: false,
        pinned_messages: Seq::empty(),
    }
}

/// The messages a buffer keeps after `msg` arrives: appended, and the oldest
/// `BUFFER_TRIM_COUNT` dropped once there are more than `MAX_BUFFER_MESSAGES`.
pub open spec fn messages_after_add<T>(old: Seq<T>, msg: T) -> Seq<T> {
    let pushed = old.push(msg);
    if pushed.len() > MAX_BUFFER_MESSAGES {
        pushed.subrange(BUFFER_TRIM_COUNT as int, pushed.len() as int)
    } else {
        pushed
    }
}

/// The pins after the oldest `k` messages are dropped: each pin moves down by
/// `k`, and the pins of dropped messages go.
pub open spec fn shift_pins(p: Seq<usize>, k: usize) -> Seq<usize>
    decreases p.len(),
{
    if p.len() == 0 {
        p
    } else {
        let rest = shift_pins(p.drop_last(), k);
        if p.last() >= k { rest.push((p.last() - k) as usize) } else { rest }
    }
}

/// The pins after a message arrives in a buffer of `len` messages: shifted
/// when the oldest messages are trimmed, else unchanged.
pub open spec fn pins_after_add(p: Seq<usize>, len: nat) -> Seq<usize> {
    if len + 1 > MAX_BUFFER_MESSAGES { shift_pins(p, BUFFER_TRIM_COUNT) } else { p }
}

/// The buffer after `msg` arrives: appended (with trimming, the pins following
/// their messages), counted as unread unless the buffer is active, and flagged
/// when it is an unread highlight.
pub open spec fn buffer_after_add(b: BufferView, msg: MessageView, is_active: bool, is_highlight: bool) -> BufferView {
    BufferView {
        messages: messages_after_add(b.messages, msg),
        pinned_messages: pins_after_add(b.pinned_messages, b.messages.len()),
        unread_count: if is_active { b.unread_count } else { (b.unread_count + 1) as usize },
        has_highlight: b.has_highlight || (!is_active && is_highlight),
        ..b
    }
}

/// The buffer with everything marked read.
pub open spec fn buffer_read(b: BufferView) -> BufferView {
    BufferView { unread_count: 0, has_highlight: false, ..b }
}

impl ChannelBuffer {
    /// An empty buffer.
    pub fn new() -> (r: Self)
        ensures
            r@ == fresh_buffer(),
    {
        let r = Self {
            messages: Vec::new(),
            users: Vec::new(),
            topic: String::new(),
            unread_count: 0,
            has_highlight: false,
            channel_modes: String::new(),
            notifications_muted: false,
            pinned_messages: Vec::new(),
        };
        assert(r@.messages =~= Seq::<MessageView>::empty());
        assert(r@.users =~= Seq::<UserView>::empty());
        r
    }

    /// Appends a message; counts it as unread (and as a highlight when
    /// `is_highlight`) unless the buffer is active; trims old messages.
    pub fn add_message(&mut self, msg: RenderedMessage, is_active: bool, is_highlight: bool)
        requires
            !is_active ==> old(self).unread_count < usize::MAX,
        ensures
            final(self)@ == buffer_after_add(old(self)@, msg@, is_active, is_highlight),
            final(self).users == old(self).users,
    {
        let ghost m = msg@;
        self.messages.push(msg);
        if !is_active {
            self.unread_count += 1;
            if is_highlight {
                self.has_highlight = true;
            }
        }
        proof {
            assert(messages_view(self.messages@) =~= messages_view(old(self).messages@).push(m));
        }
        if self.messages.len() > MAX_BUFFER_MESSAGES {
            let ghost pushed = self.messages@;
            let kept = self.messages.split_off(BUFFER_TRIM_COUNT);
            self.messages = kept;
            let mut pins: Vec<usize> = Vec::new();
            let mut i: usize = 0;
            while i < self.pinned_messages.len()
                invariant
                    i <= self.pinned_messages@.len(),
                    self.pinned_messages@ == old(self).pinned_messages@,
                    pins@ == shift_pins(self.pinned_messages@.take(i as int), BUFFER_TRIM_COUNT),
                decreases self.pinned_messages@.len() - i,
            {
                let ghost before = self.pinned_messages@.take(i as int);
                assert(self.pinned_messages@.take(i + 1).drop_last() =~= before);
                let q = self.pinned_messages[i];
                if q >= BUFFER_TRIM_COUNT {
                    pins.push(q - BUFFER_TRIM_COUNT);
                }
                i += 1;
            }
            assert(self.pinned_messages@.take(self.pinned_messages@.len() as int) =~= self.pinned_messages@);
            self.pinned_messages = pins;
            proof {
                assert(messages_view(self.messages@) =~= messages_view(pushed).subrange(
                    BUFFER_TRIM_COUNT as int, pushed.len() as int));
            }
        }
    }

    /// Marks everything read and clears the highlight.
    pub fn clear_unread(&mut self)
        ensures
            final(self)@ == buffer_read(old(self)@),
            final(self).messages == old(self).messages,
            final(self).users == old(self).users,
    {
        self.unread_count = 0;
        self.has_highlight = false;
    }
}

impl Default for ChannelBuffer {
    fn default() -> (r: Self)
        ensures
            r@ == fresh_buffer(),
    {
        Self::new()
    }
}

/// A buffer never holds more than `MAX_BUFFER_MESSAGES` messages: adding to
/// one within the limit stays within it, and the added message is the newest
/// one kept.
pub proof fn lemma_buffer_stays_bounded(b: BufferView, msg: MessageView, is_active: bool, is_highlight: bool)
    requires
        b.messages.len() <= MAX_BUFFER_MESSAGES,
    ensures
        buffer_after_add(b, msg, is_active, is_highlight).messages.len() <= MAX_BUFFER_MESSAGES,
        buffer_after_add(b, msg, is_active, is_highlight).messages.last() == msg,
{
}

/// A message added to the active buffer is read at once: the unread count and
/// highlight stay; one added elsewhere counts as unread, and as a highlight
/// when it is one. Reading a buffer twice is the same as reading it once.
pub proof fn lemma_unread_counting(b: BufferView, msg: MessageView, is_highlight: bool)
    requires
        b.unread_count < usize::MAX,
    ensures
        buffer_after_add(b, msg, true, is_highlight).unread_count == b.unread_count,
        buffer_after_add(b, msg, true, is_highlight).has_highlight == b.has_highlight,
        buffer_after_add(b, msg, false, is_highlight).unread_count == b.unread_count + 1,
        buffer_after_add(b, msg, false, is_highlight).has_highlight == (b.has_highlight || is_highlight),
        buffer_read(buffer_read(b)) == buffer_read(b),
        buffer_read(b).messages == b.messages,
{
}

proof fn lemma_shift_pins(p: Seq<usize>, k: usize)
    ensures
        forall|j: int| 0 <= j < shift_pins(p, k).len() ==>
            #[trigger] shift_pins(p, k)[j] + k <= usize::MAX && p.contains((shift_pins(p, k)[j] + k) as usize),
        forall|i: int| 0 <= i < p.len() && #[trigger] p[i] >= k ==> shift_pins(p, k).contains((p[i] - k) as usize),
    decreases p.len(),
{
    if p.len() > 0 {
        let d = p.drop_last();
        lemma_shift_pins(d, k);
        let rest = shift_pins(d, k);
        let sh = shift_pins(p, k);
        assert forall|j: int| 0 <= j < sh.len() implies #[trigger] sh[j] + k <= usize::MAX
            && p.contains((sh[j] + k) as usize) by {
            if j < rest.len() {
                assert(sh[j] == rest[j]);
                let w = choose|w: int| 0 <= w < d.len() && d[w] == (rest[j] + k) as usize;
                assert(p[w] == d[w]);
            } else {
                assert(p[p.len() - 1] == p.last());
            }
        }
        assert forall|i: int| 0 <= i < p.len() && #[trigger] p[i] >= k implies sh.contains((p[i] - k) as usize) by {
            if i < p.len() - 1 {
                assert(p[i] == d[i]);
                let w = choose|w: int| 0 <= w < rest.len() && rest[w] == (d[i] - k) as usize;
                if p.last() >= k {
                    assert(sh[w] == rest[w]);
                } else {
                    assert(sh[w] == rest[w]);
                }
            } else {
                assert(sh[sh.len() - 1] == (p.last() - k) as usize);
            }
        }
    }
}

/// Pins follow their messages: when every pin points at a message, after a
/// message arrives every pin still points at a message, the same one as
/// before (pins move down by the number of dropped messages), and only the
/// pins of dropped messages are gone.
pub proof fn lemma_pins_follow_messages(b: BufferView, msg: MessageView, is_active: bool, is_highlight: bool)
    requires
        forall|i: int| 0 <= i < b.pinned_messages.len() ==> #[trigger] b.pinned_messages[i] < b.messages.len(),
    ensures
        ({
            let a = buffer_after_add(b, msg, is_active, is_highlight);
            let pushed = b.messages.push(msg);
            let off: int = if pushed.len() > MAX_BUFFER_MESSAGES { BUFFER_TRIM_COUNT as int } else { 0 };
            &&& forall|j: int| 0 <= j < a.pinned_messages.len() ==> {
                &&& #[trigger] a.pinned_messages[j] < a.messages.len()
                &&& b.pinned_messages.contains((a.pinned_messages[j] + off) as usize)
                &&& a.messages[a.pinned_messages[j] as int] == pushed[a.pinned_messages[j] + off]
            }
            &&& forall|i: int| 0 <= i < b.pinned_messages.len() && #[trigger] b.pinned_messages[i] >= off ==>
                a.pinned_messages.contains((b.pinned_messages[i] - off) as usize)
        }),
{
    let a = buffer_after_add(b, msg, is_active, is_highlight);
    let pushed = b.messages.push(msg);
    if pushed.len() > MAX_BUFFER_MESSAGES {
        lemma_shift_pins(b.pinned_messages, BUFFER_TRIM_COUNT);
        assert forall|j: int| 0 <= j < a.pinned_messages.len() implies
            #[trigger] a.pinned_messages[j] < a.messages.len() by {
            let q = (a.pinned_messages[j] + BUFFER_TRIM_COUNT) as usize;
            assert(b.pinned_messages.contains(q));
            let w = choose|w: int| 0 <= w < b.pinned_messages.len() && b.pinned_messages[w] == q;
            assert(b.pinned_messages[w] < b.messages.len());
        }
    } else {
        assert forall|j: int| 0 <= j < a.pinned_messages.len() implies
            b.pinned_messages.contains((#[trigger] a.pinned_messages[j] + 0) as usize) by {
            assert(b.pinned_messages[j] == a.pinned_messages[j]);
        }
        assert forall|i: int| 0 <= i < b.pinned_messages.len() && #[trigger] b.pinned_messages[i] >= 0 implies
            a.pinned_messages.contains((b.pinned_messages[i] - 0) as usize) by {
            assert(a.pinned_messages[i] == b.pinned_messages[i]);
        }
    }
}

} // verus!
