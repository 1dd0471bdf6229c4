//! Operations on a buffer's user list.

use vstd::prelude::*;
use crate::protocol::{UserInfo, UserView, users_view};
use crate::text::{str_equal, to_owned_string};

verus! {

/// Whether some user in `users` has nick `nick`.
pub open spec fn has_nick(users: Seq<UserView>, nick: Seq<char>) -> bool {
    exists|i: int| 0 <= i < users.len() && #[trigger] users[i].nick == nick
}

/// `users` with every user named `old` renamed to `new`.
pub open spec fn rename_nick(users: Seq<UserView>, old: Seq<char>, new: Seq<char>) -> Seq<UserView> {
    users.map_values(|u: UserView| if u.nick == old { UserView { nick: new, prefix: u.prefix } } else { u })
}

/// `users` without the users named `nick`.
pub open spec fn without_nick(users: Seq<UserView>, nick: Seq<char>) -> Seq<UserView>
    decreases users.len(),
{
    if users.len() == 0 {
        users
    } else if users.last().nick == nick {
        without_nick(users.drop_last(), nick)
    } else {
        without_nick(users.drop_last(), nick).push(users.last())
    }
}

/// Position of the first user named `nick`.
pub open spec fn first_with_nick(users: Seq<UserView>, nick: Seq<char>) -> Option<int>
    decreases users.len(),
{
    if users.len() == 0 {
        None
    } else if users[0].nick == nick {
        Some(0)
    } else {
        match first_with_nick(users.drop_first(), nick) {
            Some(i) => Some(i + 1),
            None => None,
        }
    }
}

pub proof fn lemma_first_with_nick(users: Seq<UserView>, nick: Seq<char>)
    ensures
        match first_with_nick(users, nick) {
            Some(i) => 0 <= i < users.len() && users[i].nick == nick && forall|j: int| 0 <= j < i ==> users[j].nick != nick,
            None => !has_nick(users, nick),
        },
    decreases users.len(),
{
    if users.len() > 0 {
        lemma_first_with_nick(users.drop_first(), nick);
        if users[0].nick != nick {
            match first_with_nick(users.drop_first(), nick) {
                Some(i) => {
                    assert forall|j: int| 0 <= j < i + 1 implies users[j].nick != nick by {
                        if j > 0 {
                            assert(users[j] == users.drop_first()[j - 1]);
                        }
                    }
                },
                None => {
                    if has_nick(users, nick) {
                        let j = choose|j: int| 0 <= j < users.len() && #[trigger] users[j].nick == nick;
                        assert(users.drop_first()[j - 1].nick == nick);
                    }
                },
            }
        }
    }
}

/// Position of the first user named `nick`, if any.
pub fn find_user(users: &Vec<UserInfo>, nick: &str) -> (r: Option<usize>)
    ensures
        match r {
            Some(i) => first_with_nick(users_view(users@), nick@) == Some(i as int),
            None => first_with_nick(users_view(users@), nick@) is None,
        },
        r is Some <==> has_nick(users_view(users@), nick@),
{
    proof {
        lemma_first_with_nick(users_view(users@), nick@);
    }
    let mut i: usize = 0;
    while i < users.len()
        invariant
            i <= users@.len(),
            forall|j: int| 0 <= j < i ==> users_view(users@)[j].nick != nick@,
            match first_with_nick(users_view(users@), nick@) {
                Some(k) => 0 <= k < users@.len() && users_view(users@)[k].nick == nick@ && forall|j: int|
                    0 <= j < k ==> users_view(users@)[j].nick != nick@,
                None => !has_nick(users_view(users@), nick@),
            },
        decreases users@.len() - i,
    {
        if str_equal(users[i].nick.as_str(), nick) {
            assert(users_view(users@)[i as int].nick == nick@);
            return Some(i);
        }
        i += 1;
    }
    proof {
        if has_nick(users_view(users@), nick@) {
            let j = choose|j: int| 0 <= j < users_view(users@).len() && #[trigger] users_view(users@)[j].nick == nick@;
            assert(users_view(users@)[j].nick != nick@);
        }
    }
    None
}

/// Whether some user is named `nick`.
pub fn has_user(users: &Vec<UserInfo>, nick: &str) -> (r: bool)
    ensures
        r == has_nick(users_view(users@), nick@),
{
    find_user(users, nick).is_some()
}

/// Renames every user named `from` to `to`.
pub fn rename_user(users: &mut Vec<UserInfo>, from: &str, to: &str)
    ensures
        users_view(final(users)@) == rename_nick(users_view(old(users)@), from@, to@),
{
    let mut i: usize = 0;
    while i < users.len()
        invariant
            i <= users@.len(),
            users@.len() == old(users)@.len(),
            forall|j: int| 0 <= j < i ==> #[trigger] users_view(users@)[j] == rename_nick(users_view(old(users)@), from@, to@)[j],
            forall|j: int| i <= j < users@.len() ==> #[trigger] users@[j] == old(users)@[j],
        decreases users@.len() - i,
    {
        let ghost prev = users@;
        if str_equal(users[i].nick.as_str(), from) {
            let u = UserInfo { nick: to_owned_string(to), prefix: users[i].prefix };
            users.set(i, u);
        }
        proof {
            let r = rename_nick(users_view(old(users)@), from@, to@);
            assert(users_view(users@)[i as int] == r[i as int]);
            assert forall|j: int| 0 <= j < i implies #[trigger] users_view(users@)[j] == r[j] by {
                assert(users@[j] == prev[j]);
                assert(users_view(prev)[j] == r[j]);
            }
        }
        i += 1;
    }
    assert(users_view(users@) =~= rename_nick(users_view(old(users)@), from@, to@));
}

/// Removes every user named `nick`, keeping the others in order.
pub fn remove_user(users: &mut Vec<UserInfo>, nick: &str)
    ensures
        users_view(final(users)@) == without_nick(users_view(old(users)@), nick@),
{
    let mut src: Vec<UserInfo> = Vec::new();
    std::mem::swap(users, &mut src);
    let mut out: Vec<UserInfo> = Vec::new();
    let mut i: usize = 0;
    while i < src.len()
        invariant
            i <= src@.len(),
            src == *old(users),
            users_view(out@) == without_nick(users_view(src@.take(i as int)), nick@),
        decreases src@.len() - i,
    {
        proof {
            assert(users_view(src@.take(i + 1)).drop_last() =~= users_view(src@.take(i as int)));
        }
        if !str_equal(src[i].nick.as_str(), nick) {
            let ghost before = out@;
            out.push(src[i].clone());
            assert(users_view(out@) =~= users_view(before).push(src@[i as int]@));
        }
        i += 1;
    }
    assert(src@.take(src@.len() as int) =~= src@);
    *users = out;
}

/// A copy of a list of users.
pub fn clone_users(users: &Vec<UserInfo>) -> (r: Vec<UserInfo>)
    ensures
        users_view(r@) == users_view(users@),
{
    let mut out: Vec<UserInfo> = Vec::new();
    let mut i: usize = 0;
    while i < users.len()
        invariant
            i <= users@.len(),
            users_view(out@) == users_view(users@).take(i as int),
        decreases users@.len() - i,
    {
        let ghost before = out@;
        out.push(users[i].clone());
        assert(users_view(out@) =~= users_view(before).push(users@[i as int]@));
        assert(users_view(users@).take(i + 1) =~= users_view(users@).take(i as int).push(users@[i as int]@));
        i += 1;
    }
    assert(users_view(users@).take(users@.len() as int) =~= users_view(users@));
    out
}

} // verus!
