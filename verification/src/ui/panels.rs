//! User-list ordering and grouping for the side panels.

use vstd::prelude::*;
use vstd::seq_lib::*;
use vstd::multiset::Multiset;
use crate::config::strings_view;
use crate::events::{is_channel, is_channel_name};
use crate::protocol::{UserInfo, UserView, users_view};
use crate::text::{chars_of, chars_lex_le, lex_le, lemma_lex_le_total, lemma_lex_le_trans, chars_contain, contains_seq,
    str_equal, str_to_lowercase, unicode_lowercase};
use crate::ui::theme::{rank_of, prefix_rank};

verus! {

/// Users are ordered by rank (highest first), then by nick.
pub open spec fn user_key_le(a: UserView, b: UserView) -> bool {
    rank_of(a.prefix) > rank_of(b.prefix) || (rank_of(a.prefix) == rank_of(b.prefix) && lex_le(a.nick, b.nick))
}

/// Whether `s` is ordered by `user_key_le`.
pub open spec fn users_sorted(s: Seq<UserView>) -> bool {
    forall|i: int, j: int| 0 <= i < j < s.len() ==> user_key_le(#[trigger] s[i], #[trigger] s[j])
}

proof fn lemma_user_key_total(a: UserView, b: UserView)
    ensures
        user_key_le(a, b) || user_key_le(b, a),
{
    lemma_lex_le_total(a.nick, b.nick);
}

proof fn lemma_user_key_trans(a: UserView, b: UserView, c: UserView)
    requires
        user_key_le(a, b),
        user_key_le(b, c),
    ensures
        user_key_le(a, c),
{
    if rank_of(a.prefix) == rank_of(b.prefix) && rank_of(b.prefix) == rank_of(c.prefix) {
        lemma_lex_le_trans(a.nick, b.nick, c.nick);
    }
}

/// Whether `a <= b` in user order.
fn user_le(a: &UserInfo, b: &UserInfo) -> (r: bool)
    ensures
        r == user_key_le(a@, b@),
{
    let ra = prefix_rank(a.prefix);
    let rb = prefix_rank(b.prefix);
    if ra > rb {
        true
    } else if ra < rb {
        false
    } else {
        let na = chars_of(a.nick.as_str());
        let nb = chars_of(b.nick.as_str());
        chars_lex_le(na.as_slice(), nb.as_slice())
    }
}

/// Sort users by prefix rank (ops first), then alphabetically by nick.
/// The result is a reordering of the input.
pub fn sort_users(users: &mut Vec<UserInfo>)
    ensures
        users_sorted(users_view(final(users)@)),
        users_view(final(users)@).to_multiset() == users_view(old(users)@).to_multiset(),
{
    broadcast use group_to_multiset_ensures;
    let mut src: Vec<UserInfo> = Vec::new();
    std::mem::swap(users, &mut src);
    let ghost orig = users_view(src@);
    let mut out: Vec<UserInfo> = Vec::new();
    assert(users_view(out@) =~= Seq::<UserView>::empty());
    while src.len() > 0
        invariant
            users_sorted(users_view(out@)),
            users_view(out@).to_multiset().add(users_view(src@).to_multiset()) == orig.to_multiset(),
        decreases src@.len(),
    {
        let ghost src_before = users_view(src@);
        let u = src.remove(0);
        proof {
            assert(users_view(src@) =~= src_before.remove(0));
        }
        let ghost o = users_view(out@);
        let mut p: usize = 0;
        while p < out.len() && user_le(&out[p], &u)
            invariant
                p <= out@.len(),
                o == users_view(out@),
                forall|k: int| 0 <= k < p ==> user_key_le(#[trigger] o[k], u@),
            decreases out@.len() - p,
        {
            p += 1;
        }
        proof {
            if p < out@.len() {
                lemma_user_key_total(o[p as int], u@);
                assert forall|k: int| p <= k < o.len() implies user_key_le(u@, #[trigger] o[k]) by {
                    if k > p {
                        assert(user_key_le(o[p as int], o[k]));
                        lemma_user_key_trans(u@, o[p as int], o[k]);
                    }
                }
            }
        }
        let ghost uv = u@;
        out.insert(p, u);
        proof {
            let n = users_view(out@);
            assert(n =~= o.insert(p as int, uv));
            assert forall|i: int, j: int| 0 <= i < j < n.len() implies user_key_le(#[trigger] n[i], #[trigger] n[j]) by {
                if i < p && j < p {
                } else if i < p && j == p {
                } else if i < p && j > p {
                    assert(n[j] == o[j - 1]);
                } else if i == p {
                    assert(n[j] == o[j - 1]);
                } else {
                    assert(n[i] == o[i - 1]);
                    assert(n[j] == o[j - 1]);
                }
            }
            assert(o.insert(p as int, uv) =~= o.subrange(0, p as int).push(uv) + o.subrange(p as int, o.len() as int));
            assert(o =~= o.subrange(0, p as int) + o.subrange(p as int, o.len() as int));
            lemma_multiset_commutative(o.subrange(0, p as int).push(uv), o.subrange(p as int, o.len() as int));
            lemma_multiset_commutative(o.subrange(0, p as int), o.subrange(p as int, o.len() as int));
            let a = o.subrange(0, p as int);
            let b = o.subrange(p as int, o.len() as int);
            a.to_multiset_ensures();
            src_before.to_multiset_ensures();
            assert(a.push(uv).to_multiset() =~= a.to_multiset().insert(uv));
            assert(n.to_multiset() =~= a.push(uv).to_multiset().add(b.to_multiset()));
            assert(o.to_multiset() =~= a.to_multiset().add(b.to_multiset()));
            assert(n.to_multiset() =~= o.to_multiset().insert(uv));
            assert(src_before[0] == uv);
            assert(src_before.remove(0).to_multiset() =~= src_before.to_multiset().remove(uv));
            assert(src_before.contains(uv));
            assert(src_before.to_multiset().count(uv) > 0);
            assert(src_before.to_multiset() =~= users_view(src@).to_multiset().insert(uv));
        }
    }
    assert(users_view(src@).to_multiset() =~= Multiset::empty());
    assert(users_view(out@).to_multiset() =~= orig.to_multiset());
    *users = out;
}

/// Role sections of the user list.
#[derive(Debug, Clone, Copy, PartialEq, Eq, Structural)]
pub enum UserRole {
    /// `@`, `~`, `&`
    Operator,
    /// `+`, `%`
    Voiced,
    /// everyone else
    Regular,
}

/// The section a prefix puts a user in.
pub open spec fn role_of(prefix: Option<char>) -> UserRole {
    match prefix {
        Some('@') | Some('~') | Some('&') => UserRole::Operator,
        Some('+') | Some('%') => UserRole::Voiced,
        _ => UserRole::Regular,
    }
}

/// Indices of the users in each section (operators, voiced, regular), each in
/// list order.
pub fn group_users_by_role(users: &[UserInfo]) -> (r: (Vec<usize>, Vec<usize>, Vec<usize>))
    ensures
        r.0@ == Seq::new(users@.len() as nat, |i: int| i as usize).filter(|i: usize| role_of(users@[i as int].prefix) == UserRole::Operator),
        r.1@ == Seq::new(users@.len() as nat, |i: int| i as usize).filter(|i: usize| role_of(users@[i as int].prefix) == UserRole::Voiced),
        r.2@ == Seq::new(users@.len() as nat, |i: int| i as usize).filter(|i: usize| role_of(users@[i as int].prefix) == UserRole::Regular),
{
    let ghost idx = Seq::new(users@.len() as nat, |i: int| i as usize);
    let ghost p0 = |i: usize| role_of(users@[i as int].prefix) == UserRole::Operator;
    let ghost p1 = |i: usize| role_of(users@[i as int].prefix) == UserRole::Voiced;
    let ghost p2 = |i: usize| role_of(users@[i as int].prefix) == UserRole::Regular;
    let mut ops: Vec<usize> = Vec::new();
    let mut voiced: Vec<usize> = Vec::new();
    let mut regular: Vec<usize> = Vec::new();
    let mut i: usize = 0;
    while i < users.len()
        invariant
            i <= users@.len(),
            idx == Seq::new(users@.len() as nat, |i: int| i as usize),
            ops@ == idx.take(i as int).filter(p0),
            voiced@ == idx.take(i as int).filter(p1),
            regular@ == idx.take(i as int).filter(p2),
            p0 == (|i: usize| role_of(users@[i as int].prefix) == UserRole::Operator),
            p1 == (|i: usize| role_of(users@[i as int].prefix) == UserRole::Voiced),
            p2 == (|i: usize| role_of(users@[i as int].prefix) == UserRole::Regular),
        decreases users@.len() - i,
    {
        proof {
            reveal_with_fuel(Seq::filter, 1);
            assert(idx.take(i + 1).drop_last() =~= idx.take(i as int));
            assert(idx.take(i + 1).last() == i);
        }
        match users[i].prefix {
            Some('@') | Some('~') | Some('&') => ops.push(i),
            Some('+') | Some('%') => voiced.push(i),
            _ => regular.push(i),
        }
        i += 1;
    }
    assert(idx.take(users@.len() as int) =~= idx);
    (ops, voiced, regular)
}

/// Sections of the buffer list.
#[derive(Debug, Clone, Copy, PartialEq, Eq, Structural)]
pub enum BufferSection {
    /// `#` and `&` channels
    Channels,
    /// private conversations
    DirectMessages,
    /// the system buffer
    System,
}

/// The section a buffer name belongs to.
pub open spec fn section_of(name: Seq<char>) -> BufferSection {
    if name == "System"@ {
        BufferSection::System
    } else if is_channel_name(name) {
        BufferSection::Channels
    } else {
        BufferSection::DirectMessages
    }
}

/// Whether the buffer list shows `name` for the search text `filter`:
/// always for an empty filter, else when the lowercase name contains the
/// lowercase filter.
pub open spec fn buffer_shown(name: Seq<char>, filter: Seq<char>) -> bool {
    filter.len() == 0 || contains_seq(unicode_lowercase(name), unicode_lowercase(filter))
}

/// The positions in `order` of the shown buffers of section `sec`, in order.
pub open spec fn section_positions(order: Seq<Seq<char>>, filter: Seq<char>, sec: BufferSection) -> Seq<usize> {
    Seq::new(order.len() as nat, |i: int| i as usize).filter(
        |i: usize| buffer_shown(order[i as int], filter) && section_of(order[i as int]) == sec)
}

/// Positions in `buffers_order` of the buffers the buffer list shows for the
/// search text `filter`, split into its sections: channels, private
/// conversations, the system buffer; each in sidebar order.
pub fn categorize_buffers(buffers_order: &[String], filter: &str) -> (r: (Vec<usize>, Vec<usize>, Vec<usize>))
    ensures
        r.0@ == section_positions(strings_view(buffers_order@), filter@, BufferSection::Channels),
        r.1@ == section_positions(strings_view(buffers_order@), filter@, BufferSection::DirectMessages),
        r.2@ == section_positions(strings_view(buffers_order@), filter@, BufferSection::System),
{
    let ghost order = strings_view(buffers_order@);
    let ghost idx = Seq::new(order.len() as nat, |i: int| i as usize);
    let ghost p0 = |i: usize| buffer_shown(order[i as int], filter@) && section_of(order[i as int]) == BufferSection::Channels;
    let ghost p1 = |i: usize| buffer_shown(order[i as int], filter@) && section_of(order[i as int]) == BufferSection::DirectMessages;
    let ghost p2 = |i: usize| buffer_shown(order[i as int], filter@) && section_of(order[i as int]) == BufferSection::System;
    let fv = chars_of(filter);
    let fl = str_to_lowercase(filter);
    let flv = chars_of(fl.as_str());
    let mut channels: Vec<usize> = Vec::new();
    let mut dms: Vec<usize> = Vec::new();
    let mut system: Vec<usize> = Vec::new();
    let mut i: usize = 0;
    while i < buffers_order.len()
        invariant
            i <= buffers_order@.len(),
            order == strings_view(buffers_order@),
            idx == Seq::new(order.len() as nat, |i: int| i as usize),
            fv@ == filter@,
            flv@ == unicode_lowercase(filter@),
            channels@ == idx.take(i as int).filter(p0),
            dms@ == idx.take(i as int).filter(p1),
            system@ == idx.take(i as int).filter(p2),
            p0 == (|i: usize| buffer_shown(order[i as int], filter@) && section_of(order[i as int]) == BufferSection::Channels),
            p1 == (|i: usize| buffer_shown(order[i as int], filter@) && section_of(order[i as int]) == BufferSection::DirectMessages),
            p2 == (|i: usize| buffer_shown(order[i as int], filter@) && section_of(order[i as int]) == BufferSection::System),
        decreases buffers_order@.len() - i,
    {
        proof {
            reveal_with_fuel(Seq::filter, 1);
            assert(idx.take(i + 1).drop_last() =~= idx.take(i as int));
            assert(idx.take(i + 1).last() == i);
        }
        let name = buffers_order[i].as_str();
        let shown = if fv.len() == 0 {
            true
        } else {
            let nl = str_to_lowercase(name);
            let nlv = chars_of(nl.as_str());
            chars_contain(nlv.as_slice(), flv.as_slice())
        };
        assert(shown == buffer_shown(order[i as int], filter@));
        if shown {
            if str_equal(name, "System") {
                system.push(i);
            } else if is_channel(name) {
                channels.push(i);
            } else {
                dms.push(i);
            }
        }
        i += 1;
    }
    assert(idx.take(order.len() as int) =~= idx);
    (channels, dms, system)
}

} // verus!
