//! The IRC session state: buffers, their order, the active buffer, networks,
//! the system log and status toasts.

use vstd::prelude::*;
use crate::buffer::{ChannelBuffer, BufferView, fresh_buffer, buffer_read};
use crate::buffers::BufferMap;
use crate::config::{Network, strings_view};
use crate::text::{str_equal, to_owned_string};

verus! {

/// Position of the first occurrence of `k` in `s`.
pub open spec fn first_index(s: Seq<Seq<char>>, k: Seq<char>) -> Option<int>
    decreases s.len(),
{
    if s.len() == 0 {
        None
    } else if s[0] == k {
        Some(0)
    } else {
        match first_index(s.drop_first(), k) {
            Some(i) => Some(i + 1),
            None => None,
        }
    }
}

/// Facts about `first_index`: it is the least position holding `k`.
pub proof fn lemma_first_index(s: Seq<Seq<char>>, k: Seq<char>)
    ensures
        match first_index(s, k) {
            Some(i) => 0 <= i < s.len() && s[i] == k && forall|j: int| 0 <= j < i ==> s[j] != k,
            None => forall|j: int| 0 <= j < s.len() ==> s[j] != k,
        },
    decreases s.len(),
{
    if s.len() > 0 {
        lemma_first_index(s.drop_first(), k);
        if s[0] != k {
            match first_index(s.drop_first(), k) {
                Some(i) => {
                    assert forall|j: int| 0 <= j < i + 1 implies s[j] != k by {
                        if j > 0 {
                            assert(s[j] == s.drop_first()[j - 1]);
                        }
                    }
                },
                None => {
                    assert forall|j: int| 0 <= j < s.len() implies s[j] != k by {
                        if j > 0 {
                            assert(s[j] == s.drop_first()[j - 1]);
                        }
                    }
                },
            }
        }
    }
}

/// Finds the first position of `name` in `v`.
pub fn position_of(v: &Vec<String>, name: &str) -> (r: Option<usize>)
    ensures
        match r {
            Some(i) => first_index(strings_view(v@), name@) == Some(i as int),
            None => first_index(strings_view(v@), name@) is None,
        },
{
    proof {
        lemma_first_index(strings_view(v@), name@);
    }
    let mut i: usize = 0;
    while i < v.len()
        invariant
            i <= v@.len(),
            forall|j: int| 0 <= j < i ==> strings_view(v@)[j] != name@,
            match first_index(strings_view(v@), name@) {
                Some(k) => 0 <= k < v@.len() && strings_view(v@)[k] == name@ && forall|j: int|
                    0 <= j < k ==> strings_view(v@)[j] != name@,
                None => forall|j: int| 0 <= j < v@.len() ==> strings_view(v@)[j] != name@,
            },
        decreases v@.len() - i,
    {
        if str_equal(v[i].as_str(), name) {
            assert(strings_view(v@)[i as int] == name@);
            return Some(i);
        }
        i += 1;
    }
    None
}

/// Core application state for the IRC client.
#[derive(Debug)]
pub struct ClientState {
    /// Whether we are currently connected to a server.
    pub is_connected: bool,
    /// Message buffers keyed by channel/query name.
    pub buffers: BufferMap,
    /// Ordered list of buffer names (for sidebar display).
    pub buffers_order: Vec<String>,
    /// Currently active/visible buffer.
    pub active_buffer: String,
    /// Configured networks.
    pub networks: Vec<Network>,
    /// System log messages (shown in "System" buffer).
    pub system_log: Vec<String>,
    /// Networks expanded in the sidebar tree view (no name twice).
    pub expanded_networks: Vec<String>,
    /// Status toast messages with their creation time in seconds (auto-expire).
    pub status_messages: Vec<(String, u64)>,
}

/// The buffers after making sure one named `k` exists.
pub open spec fn ensure_in_map(m: Map<Seq<char>, BufferView>, k: Seq<char>) -> Map<Seq<char>, BufferView> {
    if m.contains_key(k) { m } else { m.insert(k, fresh_buffer()) }
}

/// Making sure a buffer exists twice is making sure once: afterwards the
/// buffer exists, and a second call changes nothing.
pub proof fn lemma_ensure_buffer_idempotent(m: Map<Seq<char>, BufferView>, k: Seq<char>)
    ensures
        ensure_in_map(m, k).contains_key(k),
        ensure_in_map(ensure_in_map(m, k), k) == ensure_in_map(m, k),
        m.contains_key(k) ==> ensure_in_map(m, k) == m,
{
}

/// The buffers with the one named `k` (if any) marked read.
pub open spec fn mark_read(m: Map<Seq<char>, BufferView>, k: Seq<char>) -> Map<Seq<char>, BufferView> {
    if m.contains_key(k) { m.insert(k, buffer_read(m[k])) } else { m }
}

/// Status toasts that are younger than `max_age` seconds at time `now`.
pub open spec fn status_young(s: Seq<(String, u64)>, now: u64, max_age: u64) -> Seq<(String, u64)>
    decreases s.len(),
{
    if s.len() == 0 {
        s
    } else {
        let rest = status_young(s.drop_last(), now, max_age);
        let age = if now >= s.last().1 { now - s.last().1 } else { 0 };
        if age < max_age { rest.push(s.last()) } else { rest }
    }
}

impl ClientState {
    /// The buffer map is well formed.
    pub open spec fn wf(&self) -> bool {
        self.buffers.wf()
    }

    /// The buffer names in sidebar order.
    pub open spec fn order_view(&self) -> Seq<Seq<char>> {
        strings_view(self.buffers_order@)
    }

    /// A fresh state: only the "System" buffer, which is active, and a
    /// welcome line in the system log.
    pub fn new() -> (r: Self)
        ensures
            r.wf(),
            !r.is_connected,
            r.buffers.map() == map!["System"@ => fresh_buffer()],
            r.order_view() == seq!["System"@],
            r.active_buffer@ == "System"@,
            r.networks@.len() == 0,
            strings_view(r.system_log@) == seq!["Welcome to SLIRC!"@],
            r.expanded_networks@.len() == 0,
            r.status_messages@.len() == 0,
    {
        let mut buffers = BufferMap::new();
        buffers.insert(to_owned_string("System"), ChannelBuffer::new());
        let mut order: Vec<String> = Vec::new();
        order.push(to_owned_string("System"));
        let mut log: Vec<String> = Vec::new();
        log.push(to_owned_string("Welcome to SLIRC!"));
        let r = ClientState {
            is_connected: false,
            buffers,
            buffers_order: order,
            active_buffer: to_owned_string("System"),
            networks: Vec::new(),
            system_log: log,
            expanded_networks: Vec::new(),
            status_messages: Vec::new(),
        };
        assert(r.order_view() =~= seq!["System"@]);
        assert(strings_view(r.system_log@) =~= seq!["Welcome to SLIRC!"@]);
        assert(r.buffers.map() =~= map!["System"@ => fresh_buffer()]);
        r
    }

    /// Makes sure a buffer named `name` exists; a new one is appended to the
    /// sidebar order.
    pub fn ensure_buffer(&mut self, name: &str)
        requires
            old(self).wf(),
        ensures
            final(self).wf(),
            final(self).buffers.map() == ensure_in_map(old(self).buffers.map(), name@),
            final(self).order_view() == if old(self).buffers.map().contains_key(name@) {
                old(self).order_view()
            } else {
                old(self).order_view().push(name@)
            },
            final(self).active_buffer == old(self).active_buffer,
            final(self).is_connected == old(self).is_connected,
            final(self).system_log == old(self).system_log,
            final(self).networks == old(self).networks,
            final(self).expanded_networks == old(self).expanded_networks,
            final(self).status_messages == old(self).status_messages,
    {
        if !self.buffers.contains_key(name) {
            self.buffers.insert(to_owned_string(name), ChannelBuffer::new());
            let ghost before = self.buffers_order@;
            self.buffers_order.push(to_owned_string(name));
            assert(strings_view(self.buffers_order@) =~= strings_view(before).push(name@));
        }
    }

    /// Marks the buffer named `name` (if present) read.
    fn mark_buffer_read(&mut self, name: &str)
        requires
            old(self).wf(),
        ensures
            final(self).wf(),
            final(self).buffers.map() == mark_read(old(self).buffers.map(), name@),
            final(self).buffers_order == old(self).buffers_order,
            final(self).active_buffer == old(self).active_buffer,
            final(self).is_connected == old(self).is_connected,
            final(self).system_log == old(self).system_log,
            final(self).networks == old(self).networks,
            final(self).expanded_networks == old(self).expanded_networks,
            final(self).status_messages == old(self).status_messages,
    {
        let taken = self.buffers.remove(name);
        match taken {
            Some(b) => {
                let mut b = b;
                b.clear_unread();
                self.buffers.insert(to_owned_string(name), b);
                assert(self.buffers.map() =~= mark_read(old(self).buffers.map(), name@));
            },
            None => {
                assert(self.buffers.map() =~= old(self).buffers.map());
            },
        }
    }

    /// Switch to the next buffer in sidebar order (wrapping around) and mark it
    /// read. Nothing happens when the active buffer is not in the order.
    pub fn next_buffer(&mut self)
        requires
            old(self).wf(),
        ensures
            final(self).wf(),
            match first_index(old(self).order_view(), old(self).active_buffer@) {
                None => final(self).active_buffer@ == old(self).active_buffer@
                    && final(self).buffers.map() == old(self).buffers.map(),
                Some(i) => {
                    let n = old(self).order_view()[(i + 1) % old(self).order_view().len() as int];
                    &&& final(self).active_buffer@ == n
                    &&& final(self).buffers.map() == mark_read(old(self).buffers.map(), n)
                },
            },
            final(self).buffers_order == old(self).buffers_order,
            final(self).system_log == old(self).system_log,
            final(self).status_messages == old(self).status_messages,
    {
        proof {
            lemma_first_index(self.order_view(), self.active_buffer@);
        }
        match position_of(&self.buffers_order, self.active_buffer.as_str()) {
            None => {},
            Some(idx) => {
                assert(strings_view(self.buffers_order@).len() == self.buffers_order@.len());
                assert(first_index(self.order_view(), self.active_buffer@) == Some(idx as int));
                assert(idx < self.buffers_order.len());
                let next_idx = (idx + 1) % self.buffers_order.len();
                let next = self.buffers_order[next_idx].clone();
                self.active_buffer = next.clone();
                self.mark_buffer_read(next.as_str());
            },
        }
    }

    /// Switch to the previous buffer in sidebar order (wrapping around) and mark
    /// it read. Nothing happens when the active buffer is not in the order.
    pub fn prev_buffer(&mut self)
        requires
            old(self).wf(),
        ensures
            final(self).wf(),
            match first_index(old(self).order_view(), old(self).active_buffer@) {
                None => final(self).active_buffer@ == old(self).active_buffer@
                    && final(self).buffers.map() == old(self).buffers.map(),
                Some(i) => {
                    let p = if i == 0 { old(self).order_view().len() - 1 } else { i - 1 };
                    let n = old(self).order_view()[p];
                    &&& final(self).active_buffer@ == n
                    &&& final(self).buffers.map() == mark_read(old(self).buffers.map(), n)
                },
            },
            final(self).buffers_order == old(self).buffers_order,
            final(self).system_log == old(self).system_log,
            final(self).status_messages == old(self).status_messages,
    {
        proof {
            lemma_first_index(self.order_view(), self.active_buffer@);
        }
        match position_of(&self.buffers_order, self.active_buffer.as_str()) {
            None => {},
            Some(idx) => {
                assert(strings_view(self.buffers_order@).len() == self.buffers_order@.len());
                assert(first_index(self.order_view(), self.active_buffer@) == Some(idx as int));
                assert(idx < self.buffers_order.len());
                let prev_idx = if idx == 0 { self.buffers_order.len() - 1 } else { idx - 1 };
                let prev = self.buffers_order[prev_idx].clone();
                self.active_buffer = prev.clone();
                self.mark_buffer_read(prev.as_str());
            },
        }
    }

    /// Switch to the buffer named `name` and mark it read, if it exists.
    pub fn switch_to_buffer(&mut self, name: &str)
        requires
            old(self).wf(),
        ensures
            final(self).wf(),
            old(self).buffers.map().contains_key(name@) ==> final(self).active_buffer@ == name@,
            !old(self).buffers.map().contains_key(name@) ==> final(self).active_buffer == old(self).active_buffer,
            final(self).buffers.map() == mark_read(old(self).buffers.map(), name@),
            final(self).buffers_order == old(self).buffers_order,
            final(self).system_log == old(self).system_log,
            final(self).status_messages == old(self).status_messages,
    {
        if self.buffers.contains_key(name) {
            self.active_buffer = to_owned_string(name);
            self.mark_buffer_read(name);
        } else {
            assert(self.buffers.map() =~= mark_read(old(self).buffers.map(), name@));
        }
    }

    /// Drop status toasts that are `max_age_secs` seconds old or older at time
    /// `now_secs` (the clock is read by the caller).
    pub fn purge_old_status_messages(&mut self, now_secs: u64, max_age_secs: u64)
        ensures
            final(self).status_messages@ == status_young(old(self).status_messages@, now_secs, max_age_secs),
            final(self).buffers == old(self).buffers,
            final(self).buffers_order == old(self).buffers_order,
            final(self).active_buffer == old(self).active_buffer,
            final(self).system_log == old(self).system_log,
            final(self).is_connected == old(self).is_connected,
    {
        let mut kept: Vec<(String, u64)> = Vec::new();
        let mut i: usize = 0;
        while i < self.status_messages.len()
            invariant
                i <= self.status_messages@.len(),
                self.status_messages == old(self).status_messages,
                kept@ == status_young(self.status_messages@.take(i as int), now_secs, max_age_secs),
            decreases self.status_messages@.len() - i,
        {
            let created = self.status_messages[i].1;
            let age = if now_secs >= created { now_secs - created } else { 0 };
            proof {
                assert(self.status_messages@.take(i + 1).drop_last() =~= self.status_messages@.take(i as int));
            }
            if age < max_age_secs {
                let text = self.status_messages[i].0.clone();
                kept.push((text, created));
            }
            i += 1;
        }
        assert(self.status_messages@.take(self.status_messages@.len() as int) =~= self.status_messages@);
        self.status_messages = kept;
    }
}

/// With no name listed twice, the first position of the name at position `j`
/// is `j`.
proof fn lemma_first_index_distinct(s: Seq<Seq<char>>, j: int)
    requires
        0 <= j < s.len(),
        forall|a: int, b: int| 0 <= a < b < s.len() ==> #[trigger] s[a] != #[trigger] s[b],
    ensures
        first_index(s, s[j]) == Some(j),
{
    lemma_first_index(s, s[j]);
    match first_index(s, s[j]) {
        Some(k) => {
            if k < j {
                assert(s[k] != s[j]);
            } else if k > j {
                assert(s[j] != s[k]);
            }
        },
        None => {},
    }
}

/// Switching to the next buffer and then to the previous one (as
/// `next_buffer` and `prev_buffer` choose them) comes back to where it
/// started, and so does the other way round, when the sidebar lists the
/// active buffer and no name twice.
pub proof fn lemma_next_prev_inverse(order: Seq<Seq<char>>, active: Seq<char>)
    requires
        order.contains(active),
        forall|a: int, b: int| 0 <= a < b < order.len() ==> #[trigger] order[a] != #[trigger] order[b],
    ensures
        match first_index(order, active) {
            Some(i) => {
                let n = order[(i + 1) % order.len() as int];
                let p = order[if i == 0 { order.len() - 1 } else { i - 1 }];
                &&& match first_index(order, n) {
                    Some(j) => order[if j == 0 { order.len() - 1 } else { j - 1 }] == active,
                    None => false,
                }
                &&& match first_index(order, p) {
                    Some(j) => order[(j + 1) % order.len() as int] == active,
                    None => false,
                }
            },
            None => false,
        },
{
    lemma_first_index(order, active);
    let len = order.len() as int;
    match first_index(order, active) {
        Some(i) => {
            let ni = (i + 1) % len;
            let pi = if i == 0 { len - 1 } else { i - 1 };
            if i + 1 < len {
                vstd::arithmetic::div_mod::lemma_small_mod((i + 1) as nat, len as nat);
            } else {
                vstd::arithmetic::div_mod::lemma_mod_self_0(len);
            }
            if pi + 1 < len {
                vstd::arithmetic::div_mod::lemma_small_mod((pi + 1) as nat, len as nat);
            } else {
                vstd::arithmetic::div_mod::lemma_mod_self_0(len);
            }
            lemma_first_index_distinct(order, ni);
            lemma_first_index_distinct(order, pi);
        },
        None => {
            let k = choose|k: int| 0 <= k < order.len() && order[k] == active;
            assert(order[k] == active);
        },
    }
}

} // verus!
