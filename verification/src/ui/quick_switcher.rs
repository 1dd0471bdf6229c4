//! Quick switcher (Ctrl+K): filters and orders buffer names for fast
//! navigation.

use vstd::prelude::*;
use vstd::seq_lib::*;
use vstd::multiset::Multiset;
use crate::buffers::BufferMap;
use crate::config::strings_view;
use crate::text::{chars_of, chars_contain, chars_have_prefix, chars_lex_le, contains_seq, has_prefix, lex_le,
    lemma_lex_le_total, lemma_lex_le_trans, str_to_lowercase, unicode_lowercase, to_owned_string};

verus! {

/// Quick switcher state
#[derive(Debug)]
pub struct QuickSwitcher {
    pub visible: bool,
    pub query: String,
    pub selected_index: usize,
    pub matches: Vec<String>,
}

/// The buffer names the switcher offers for `query` among `names` (plus the
/// system buffer): all of them for an empty query, else those whose
/// lowercase form contains the lowercase query.
pub open spec fn switcher_candidates(names: Seq<Seq<char>>, query: Seq<char>) -> Seq<Seq<char>> {
    let all = names.push("System"@);
    if unicode_lowercase(query).len() == 0 { all } else { keep_matching(all, unicode_lowercase(query)) }
}

/// The entries whose lowercase form contains `ql`.
pub open spec fn keep_matching(s: Seq<Seq<char>>, ql: Seq<char>) -> Seq<Seq<char>>
    decreases s.len(),
{
    if s.len() == 0 {
        s
    } else if contains_seq(unicode_lowercase(s.last()), ql) {
        keep_matching(s.drop_last(), ql).push(s.last())
    } else {
        keep_matching(s.drop_last(), ql)
    }
}

/// Whether `name`'s lowercase form starts with `ql`.
pub open spec fn starts_like(name: Seq<char>, ql: Seq<char>) -> bool {
    has_prefix(unicode_lowercase(name), ql)
}

/// The switcher's order for the lowercase query `ql`: names starting with
/// the query first, then by name.
pub open spec fn switcher_le(a: Seq<char>, b: Seq<char>, ql: Seq<char>) -> bool {
    if ql.len() == 0 {
        lex_le(a, b)
    } else {
        (starts_like(a, ql) && !starts_like(b, ql)) || (starts_like(a, ql) == starts_like(b, ql) && lex_le(a, b))
    }
}

/// Ordered by `switcher_le`.
pub open spec fn switcher_sorted(s: Seq<Seq<char>>, ql: Seq<char>) -> bool {
    forall|i: int, j: int| 0 <= i < j < s.len() ==> switcher_le(#[trigger] s[i], #[trigger] s[j], ql)
}

proof fn lemma_switcher_le_total(a: Seq<char>, b: Seq<char>, ql: Seq<char>)
    ensures
        switcher_le(a, b, ql) || switcher_le(b, a, ql),
{
    lemma_lex_le_total(a, b);
}

proof fn lemma_switcher_le_trans(a: Seq<char>, b: Seq<char>, c: Seq<char>, ql: Seq<char>)
    requires
        switcher_le(a, b, ql),
        switcher_le(b, c, ql),
    ensures
        switcher_le(a, c, ql),
{
    if ql.len() == 0 || (starts_like(a, ql) == starts_like(b, ql) && starts_like(b, ql) == starts_like(c, ql)) {
        lemma_lex_le_trans(a, b, c);
    }
}

impl QuickSwitcher {
    /// The names currently offered, in order.
    pub open spec fn matches_view(&self) -> Seq<Seq<char>> {
        strings_view(self.matches@)
    }

    /// Hidden, empty query, nothing offered.
    pub fn new() -> (r: Self)
        ensures
            !r.visible,
            r.query@.len() == 0,
            r.selected_index == 0,
            r.matches_view().len() == 0,
    {
        QuickSwitcher { visible: false, query: String::new(), selected_index: 0, matches: Vec::new() }
    }

    /// The names currently offered, in order.
    pub fn matches(&self) -> (r: &Vec<String>)
        ensures
            strings_view(r@) == self.matches_view(),
    {
        &self.matches
    }

    /// Toggle visibility; opening clears the query and the selection.
    pub fn toggle(&mut self)
        ensures
            final(self).visible == !old(self).visible,
            final(self).visible ==> final(self).query@.len() == 0 && final(self).selected_index == 0,
            !final(self).visible ==> final(self).query == old(self).query
                && final(self).selected_index == old(self).selected_index,
            final(self).matches_view() == old(self).matches_view(),
    {
        self.visible = !self.visible;
        if self.visible {
            self.query = String::new();
            self.selected_index = 0;
        }
    }

    /// Show the quick switcher with an empty query.
    pub fn show(&mut self)
        ensures
            final(self).visible,
            final(self).query@.len() == 0,
            final(self).selected_index == 0,
            final(self).matches_view() == old(self).matches_view(),
    {
        self.visible = true;
        self.query = String::new();
        self.selected_index = 0;
    }

    /// Hide the quick switcher and clear the query.
    pub fn dismiss(&mut self)
        ensures
            !final(self).visible,
            final(self).query@.len() == 0,
            final(self).selected_index == 0,
            final(self).matches_view() == old(self).matches_view(),
    {
        self.visible = false;
        self.query = String::new();
        self.selected_index = 0;
    }

    /// Moves the selection down, stopping at the last match.
    pub fn select_next(&mut self)
        ensures
            final(self).selected_index == if old(self).matches_view().len() > 0
                && old(self).selected_index < old(self).matches_view().len() - 1 {
                (old(self).selected_index + 1) as usize
            } else {
                old(self).selected_index
            },
            final(self).visible == old(self).visible,
            final(self).query == old(self).query,
            final(self).matches_view() == old(self).matches_view(),
    {
        let last = if self.matches.len() > 0 { self.matches.len() - 1 } else { 0 };
        if self.selected_index < last {
            self.selected_index += 1;
        }
    }

    /// Moves the selection up, stopping at the first match.
    pub fn select_previous(&mut self)
        ensures
            final(self).selected_index == if old(self).selected_index > 0 { (old(self).selected_index - 1) as usize } else { 0 },
            final(self).visible == old(self).visible,
            final(self).query == old(self).query,
            final(self).matches_view() == old(self).matches_view(),
    {
        if self.selected_index > 0 {
            self.selected_index -= 1;
        }
    }

    /// Takes the selected name, if the selection is on a match, and hides the
    /// switcher.
    pub fn take_selection(&mut self) -> (r: Option<String>)
        ensures
            old(self).selected_index < old(self).matches_view().len() ==> {
                &&& r matches Some(n) && n@ == old(self).matches_view()[old(self).selected_index as int]
                &&& !final(self).visible
                &&& final(self).query@.len() == 0
                &&& final(self).selected_index == 0
            },
            old(self).selected_index >= old(self).matches_view().len() ==> r is None && *final(self) == *old(self),
    {
        if self.selected_index < self.matches.len() {
            let n = self.matches[self.selected_index].clone();
            self.dismiss();
            Some(n)
        } else {
            None
        }
    }

    /// Recomputes the names offered for the current query: those of
    /// `switcher_candidates` (the buffers' names, then `System`), ordered by
    /// `switcher_le`. The selection goes back to the first match when it is
    /// past the end.
    pub fn update_matches(&mut self, buffers: &BufferMap)
        ensures
            final(self).matches_view().to_multiset() == switcher_candidates(
                buffers.entries@.map_values(|e: (String, crate::buffer::ChannelBuffer)| e.0@), old(self).query@).to_multiset(),
            switcher_sorted(final(self).matches_view(), unicode_lowercase(old(self).query@)),
            final(self).selected_index == if old(self).selected_index >= final(self).matches_view().len()
                && final(self).matches_view().len() > 0 { 0 } else { old(self).selected_index },
            final(self).visible == old(self).visible,
            final(self).query == old(self).query,
    {
        broadcast use group_to_multiset_ensures;
        let ql = str_to_lowercase(self.query.as_str());
        let qv = chars_of(ql.as_str());
        let empty_query = qv.len() == 0;
        let ghost qlv = unicode_lowercase(self.query@);
        let ghost names = buffers.entries@.map_values(|e: (String, crate::buffer::ChannelBuffer)| e.0@);
        let ghost all = names.push("System"@);
        let mut cands: Vec<String> = Vec::new();
        let mut i: usize = 0;
        assert(all.take(0) =~= Seq::<Seq<char>>::empty());
        let n = buffers.entries.len();
        while i <= n
            invariant_except_break
                i <= n,
                strings_view(cands@) == if empty_query { all.take(i as int) } else { keep_matching(all.take(i as int), qlv) },
            invariant
                n == buffers.entries@.len(),
                qv@ == qlv,
                empty_query == (qlv.len() == 0),
                names == buffers.entries@.map_values(|e: (String, crate::buffer::ChannelBuffer)| e.0@),
                all == names.push("System"@),
            ensures
                strings_view(cands@) == if empty_query { all } else { keep_matching(all, qlv) },
            decreases n + 1 - i,
        {
            let name: String = if i < n { buffers.entries[i].0.clone() } else { to_owned_string("System") };
            assert(name@ == all[i as int]);
            assert(all.take(i + 1).drop_last() =~= all.take(i as int));
            assert(all.take(i + 1).last() == all[i as int]);
            let keep = if empty_query {
                true
            } else {
                let lower = str_to_lowercase(name.as_str());
                let lv = chars_of(lower.as_str());
                chars_contain(lv.as_slice(), qv.as_slice())
            };
            let ghost before = strings_view(cands@);
            if keep {
                cands.push(name);
                assert(strings_view(cands@) =~= before.push(all[i as int]));
            }
            if i == n {
                assert(all.take(i + 1) =~= all);
                break;
            }
            i += 1;
        }
        let ghost cand = strings_view(cands@);
        assert(cand == switcher_candidates(names, self.query@));
        // insertion sort by the switcher order
        let mut out: Vec<String> = Vec::new();
        assert(strings_view(out@) =~= Seq::<Seq<char>>::empty());
        while cands.len() > 0
            invariant
                qv@ == qlv,
                empty_query == (qlv.len() == 0),
                switcher_sorted(strings_view(out@), qlv),
                strings_view(out@).to_multiset().add(strings_view(cands@).to_multiset()) == cand.to_multiset(),
            decreases cands@.len(),
        {
            let ghost src_before = strings_view(cands@);
            let u = cands.remove(0);
            proof {
                assert(strings_view(cands@) =~= src_before.remove(0));
            }
            let u_prefix = if empty_query { false } else {
                let lu = str_to_lowercase(u.as_str());
                let luv = chars_of(lu.as_str());
                chars_have_prefix(luv.as_slice(), qv.as_slice())
            };
            let uc = chars_of(u.as_str());
            let ghost o = strings_view(out@);
            let mut p: usize = 0;
            while p < out.len() && switcher_le_exec(&out[p], &uc, u_prefix, empty_query, &qv)
                invariant
                    p <= out@.len(),
                    o == strings_view(out@),
                    uc@ == u@,
                    qv@ == qlv,
                    empty_query == (qlv.len() == 0),
                    !empty_query ==> u_prefix == starts_like(u@, qlv),
                    forall|k: int| 0 <= k < p ==> switcher_le(#[trigger] o[k], u@, qlv),
                decreases out@.len() - p,
            {
                p += 1;
            }
            proof {
                if p < out@.len() {
                    lemma_switcher_le_total(o[p as int], u@, qlv);
                    assert forall|k: int| p <= k < o.len() implies switcher_le(u@, #[trigger] o[k], qlv) by {
                        if k > p {
                            assert(switcher_le(o[p as int], o[k], qlv));
                            lemma_switcher_le_trans(u@, o[p as int], o[k], qlv);
                        }
                    }
                }
            }
            let ghost uv = u@;
            out.insert(p, u);
            proof {
                let n = strings_view(out@);
                assert(n =~= o.insert(p as int, uv));
                assert forall|i: int, j: int| 0 <= i < j < n.len() implies switcher_le(#[trigger] n[i], #[trigger] n[j], qlv) by {
                    if i < p && j < p {
                    } else if i < p && j == p {
                    } else if i < p && j > p {
                        assert(n[j] == o[j - 1]);
                    } else if i == p {
                        assert(n[j] == o[j - 1]);
                    } else {
                        assert(n[i] == o[i - 1]);
                        assert(n[j] == o[j - 1]);
                    }
                }
                let a = o.subrange(0, p as int);
                let b = o.subrange(p as int, o.len() as int);
                assert(o.insert(p as int, uv) =~= a.push(uv) + b);
                assert(o =~= a + b);
                lemma_multiset_commutative(a.push(uv), b);
                lemma_multiset_commutative(a, b);
                a.to_multiset_ensures();
                src_before.to_multiset_ensures();
                assert(a.push(uv).to_multiset() =~= a.to_multiset().insert(uv));
                assert(n.to_multiset() =~= o.to_multiset().insert(uv));
                assert(src_before[0] == uv);
                assert(src_before.remove(0).to_multiset() =~= src_before.to_multiset().remove(uv));
                assert(src_before.contains(uv));
                assert(src_before.to_multiset() =~= strings_view(cands@).to_multiset().insert(uv));
            }
        }
        assert(strings_view(cands@).to_multiset() =~= Multiset::empty());
        assert(strings_view(out@).to_multiset() =~= cand.to_multiset());
        self.matches = out;
        if self.selected_index >= self.matches.len() && self.matches.len() > 0 {
            self.selected_index = 0;
        }
    }
}

/// `switcher_le(a, u)` where `u`'s prefix flag is already known.
fn switcher_le_exec(a: &String, u: &Vec<char>, u_prefix: bool, empty_query: bool, qv: &Vec<char>) -> (r: bool)
    requires
        empty_query == (qv@.len() == 0),
        !empty_query ==> u_prefix == starts_like(u@, qv@),
    ensures
        r == switcher_le(a@, u@, qv@),
{
    let av = chars_of(a.as_str());
    if empty_query {
        chars_lex_le(av.as_slice(), u.as_slice())
    } else {
        let la = str_to_lowercase(a.as_str());
        let lav = chars_of(la.as_str());
        let a_prefix = chars_have_prefix(lav.as_slice(), qv.as_slice());
        (a_prefix && !u_prefix) || (a_prefix == u_prefix && chars_lex_le(av.as_slice(), u.as_slice()))
    }
}

impl Default for QuickSwitcher {
    fn default() -> (r: Self)
        ensures
            !r.visible,
            r.query@.len() == 0,
            r.selected_index == 0,
            r.matches_view().len() == 0,
    {
        Self::new()
    }
}

} // verus!
