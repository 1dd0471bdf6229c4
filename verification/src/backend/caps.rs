//! Capability lists: parsing `CAP LS` and `CAP ACK` replies and keeping the
//! advertised and enabled capabilities as sets.

use vstd::prelude::*;
use crate::config::strings_view;
use crate::state::{first_index, lemma_first_index, position_of};
use crate::text::{split_on, split_at_char, chars_of, string_from_chars, to_owned_string, push_char, push_str, first_index_of, words,
    split_words};
use crate::validation::lemma_first_index_prefix;

verus! {

/// No entry occurs twice.
pub open spec fn no_duplicates(s: Seq<Seq<char>>) -> bool {
    forall|i: int, j: int| 0 <= i < j < s.len() ==> #[trigger] s[i] != #[trigger] s[j]
}

/// `s` with `x` added at the end unless it is there already.
pub open spec fn set_insert(s: Seq<Seq<char>>, x: Seq<char>) -> Seq<Seq<char>> {
    if s.contains(x) { s } else { s.push(x) }
}

/// `s` without its first occurrence of `x`.
pub open spec fn set_remove(s: Seq<Seq<char>>, x: Seq<char>) -> Seq<Seq<char>> {
    match first_index(s, x) {
        Some(i) => s.remove(i),
        None => s,
    }
}

/// Whether `v` holds `s`.
pub fn contains_string(v: &Vec<String>, s: &str) -> (r: bool)
    ensures
        r == strings_view(v@).contains(s@),
{
    proof {
        lemma_first_index(strings_view(v@), s@);
    }
    let p = position_of(v, s);
    proof {
        if strings_view(v@).contains(s@) {
            let j = choose|j: int| 0 <= j < strings_view(v@).len() && strings_view(v@)[j] == s@;
            assert(strings_view(v@)[j] == s@);
        }
    }
    p.is_some()
}

/// Adds `x` unless it is there already.
pub fn insert_name(v: &mut Vec<String>, x: String)
    requires
        no_duplicates(strings_view(old(v)@)),
    ensures
        no_duplicates(strings_view(final(v)@)),
        strings_view(final(v)@) == set_insert(strings_view(old(v)@), x@),
{
    if !contains_string(v, x.as_str()) {
        let ghost before = strings_view(v@);
        let ghost xv = x@;
        v.push(x);
        assert(strings_view(v@) =~= before.push(xv));
        assert forall|i: int, j: int| 0 <= i < j < strings_view(v@).len() implies
            #[trigger] strings_view(v@)[i] != #[trigger] strings_view(v@)[j] by {
            if j == before.len() {
                assert(before[i] == strings_view(v@)[i]);
                assert(!before.contains(xv));
            }
        }
    }
}

/// Removes the occurrence of `x`, if any.
pub fn remove_name(v: &mut Vec<String>, x: &str)
    requires
        no_duplicates(strings_view(old(v)@)),
    ensures
        no_duplicates(strings_view(final(v)@)),
        strings_view(final(v)@) == set_remove(strings_view(old(v)@), x@),
{
    let ghost before = strings_view(v@);
    proof {
        lemma_first_index(before, x@);
    }
    match position_of(v, x) {
        Some(i) => {
            v.remove(i);
            assert(strings_view(v@) =~= before.remove(i as int));
            assert forall|p: int, q: int| 0 <= p < q < strings_view(v@).len() implies
                #[trigger] strings_view(v@)[p] != #[trigger] strings_view(v@)[q] by {
                let pp = if p < i { p } else { p + 1 };
                let qq = if q < i { q } else { q + 1 };
                assert(before[pp] != before[qq]);
            }
        },
        None => {},
    }
}

/// A capability token split at its first `=`: the name, and the value after
/// the `=` when there is one.
pub open spec fn split_eq(tok: Seq<char>) -> (Seq<char>, Option<Seq<char>>) {
    let i = first_index_of(tok, '=');
    if i < tok.len() {
        (tok.take(i), Some(tok.skip(i + 1)))
    } else {
        (tok, None)
    }
}

proof fn lemma_first_index_absent(s: Seq<char>, c: char)
    requires
        forall|j: int| 0 <= j < s.len() ==> s[j] != c,
    ensures
        first_index_of(s, c) == s.len(),
    decreases s.len(),
{
    if s.len() > 0 {
        assert forall|j: int| 0 <= j < s.drop_first().len() implies s.drop_first()[j] != c by {
            assert(s.drop_first()[j] == s[j + 1]);
        }
        lemma_first_index_absent(s.drop_first(), c);
    }
}

/// Splits a capability token at its first `=`.
pub fn split_token(tok: &str) -> (r: (String, Option<String>))
    ensures
        r.0@ == split_eq(tok@).0,
        crate::config::opt_string_view(r.1) == split_eq(tok@).1,
{
    let v = chars_of(tok);
    let mut i: usize = 0;
    while i < v.len() && v[i] != '='
        invariant
            i <= v@.len(),
            v@ == tok@,
            forall|j: int| 0 <= j < i ==> v@[j] != '=',
        decreases v@.len() - i,
    {
        i += 1;
    }
    if i < v.len() {
        proof {
            lemma_first_index_prefix(v@, '=', i as int);
        }
        assert(v@.subrange(0, i as int) =~= v@.take(i as int));
        assert(v@.subrange(i + 1, v@.len() as int) =~= v@.skip(i + 1));
        (string_from_chars(v.as_slice(), 0, i), Some(string_from_chars(v.as_slice(), i + 1, v.len())))
    } else {
        proof {
            lemma_first_index_absent(v@, '=');
        }
        (to_owned_string(tok), None)
    }
}

/// The capabilities after one `CAP LS` reply's tokens: each name added to the
/// advertised set; a `sasl` token sets the SASL mechanisms from its value
/// (split at commas), or to `PLAIN` when it has none.
pub open spec fn cap_ls_fold(available: Seq<Seq<char>>, mechanisms: Seq<Seq<char>>, toks: Seq<Seq<char>>)
    -> (Seq<Seq<char>>, Seq<Seq<char>>)
    decreases toks.len(),
{
    if toks.len() == 0 {
        (available, mechanisms)
    } else {
        let prev = cap_ls_fold(available, mechanisms, toks.drop_last());
        let (name, value) = split_eq(toks.last());
        (
            set_insert(prev.0, name),
            if name == "sasl"@ {
                match value {
                    Some(v) => split_on(v, ','),
                    None => seq!["PLAIN"@],
                }
            } else {
                prev.1
            },
        )
    }
}

/// `s` without its leading `-` characters.
pub open spec fn strip_dashes(s: Seq<char>) -> Seq<char>
    decreases s.len(),
{
    if s.len() > 0 && s[0] == '-' { strip_dashes(s.drop_first()) } else { s }
}

/// The enabled capabilities after one `CAP ACK` reply's tokens: `-name`
/// disables `name`, any other token enables itself.
pub open spec fn cap_ack_fold(enabled: Seq<Seq<char>>, toks: Seq<Seq<char>>) -> Seq<Seq<char>>
    decreases toks.len(),
{
    if toks.len() == 0 {
        enabled
    } else {
        let prev = cap_ack_fold(enabled, toks.drop_last());
        let t = toks.last();
        if t.len() > 0 && t[0] == '-' { set_remove(prev, strip_dashes(t)) } else { set_insert(prev, strip_dashes(t)) }
    }
}

/// Applies a `CAP LS` reply's capability list.
pub fn apply_cap_ls(available: &mut Vec<String>, mechanisms: &mut Vec<String>, caps: &str)
    requires
        no_duplicates(strings_view(old(available)@)),
    ensures
        no_duplicates(strings_view(final(available)@)),
        (strings_view(final(available)@), strings_view(final(mechanisms)@))
            == cap_ls_fold(strings_view(old(available)@), strings_view(old(mechanisms)@), words(caps@)),
{
    let v = chars_of(caps);
    let toks = split_words(v.as_slice(), 0, v.len());
    assert(v@.subrange(0, v@.len() as int) =~= caps@);
    let ghost tv = toks@.map_values(|w: String| w@);
    let ghost a0 = strings_view(available@);
    let ghost m0 = strings_view(mechanisms@);
    let mut i: usize = 0;
    assert(tv.take(0) =~= Seq::<Seq<char>>::empty());
    while i < toks.len()
        invariant
            i <= toks@.len(),
            tv == toks@.map_values(|w: String| w@),
            no_duplicates(strings_view(available@)),
            (strings_view(available@), strings_view(mechanisms@)) == cap_ls_fold(a0, m0, tv.take(i as int)),
        decreases toks@.len() - i,
    {
        assert(tv.take(i + 1).drop_last() =~= tv.take(i as int));
        assert(tv.take(i + 1).last() == tv[i as int]);
        let (name, value) = split_token(toks[i].as_str());
        let is_sasl = crate::text::str_equal(name.as_str(), "sasl");
        insert_name(available, name);
        if is_sasl {
            match value {
                Some(val) => {
                    *mechanisms = split_at_char(val.as_str(), ',');
                },
                None => {
                    let mut m: Vec<String> = Vec::new();
                    m.push(to_owned_string("PLAIN"));
                    assert(strings_view(m@) =~= seq!["PLAIN"@]);
                    *mechanisms = m;
                },
            }
        }
        i += 1;
    }
    assert(tv.take(tv.len() as int) =~= tv);
}

/// `s` without its leading `-` characters, as a new string.
fn strip_dashes_string(s: &str) -> (r: String)
    ensures
        r@ == strip_dashes(s@),
{
    let v = chars_of(s);
    let mut i: usize = 0;
    assert(v@.skip(0) =~= v@);
    while i < v.len() && v[i] == '-'
        invariant
            i <= v@.len(),
            strip_dashes(v@.skip(i as int)) == strip_dashes(s@),
            v@ == s@,
        decreases v@.len() - i,
    {
        assert(v@.skip(i as int).drop_first() =~= v@.skip(i + 1));
        i += 1;
    }
    assert(v@.subrange(i as int, v@.len() as int) =~= v@.skip(i as int));
    string_from_chars(v.as_slice(), i, v.len())
}

/// Applies a `CAP ACK` reply's capability list.
pub fn apply_cap_ack(enabled: &mut Vec<String>, caps: &str)
    requires
        no_duplicates(strings_view(old(enabled)@)),
    ensures
        no_duplicates(strings_view(final(enabled)@)),
        strings_view(final(enabled)@) == cap_ack_fold(strings_view(old(enabled)@), words(caps@)),
{
    let v = chars_of(caps);
    let toks = split_words(v.as_slice(), 0, v.len());
    assert(v@.subrange(0, v@.len() as int) =~= caps@);
    let ghost tv = toks@.map_values(|w: String| w@);
    let ghost e0 = strings_view(enabled@);
    let mut i: usize = 0;
    assert(tv.take(0) =~= Seq::<Seq<char>>::empty());
    while i < toks.len()
        invariant
            i <= toks@.len(),
            tv == toks@.map_values(|w: String| w@),
            no_duplicates(strings_view(enabled@)),
            strings_view(enabled@) == cap_ack_fold(e0, tv.take(i as int)),
        decreases toks@.len() - i,
    {
        assert(tv.take(i + 1).drop_last() =~= tv.take(i as int));
        assert(tv.take(i + 1).last() == tv[i as int]);
        let tc = chars_of(toks[i].as_str());
        let name = strip_dashes_string(toks[i].as_str());
        if tc.len() > 0 && tc[0] == '-' {
            remove_name(enabled, name.as_str());
        } else {
            insert_name(enabled, name);
        }
        i += 1;
    }
    assert(tv.take(tv.len() as int) =~= tv);
}

/// `s` with `"` and `\` escaped by a backslash, as `Debug` shows them.
pub open spec fn debug_escape(s: Seq<char>) -> Seq<char>
    decreases s.len(),
{
    if s.len() == 0 {
        s
    } else {
        let prev = debug_escape(s.drop_last());
        let c = s.last();
        if c == '"' || c == '\\' { prev + seq!['\\', c] } else { prev.push(c) }
    }
}

/// A name in double quotes, escaped.
pub open spec fn debug_quoted(s: Seq<char>) -> Seq<char> {
    "\""@ + debug_escape(s) + "\""@
}

/// The quoted names separated by `, `.
pub open spec fn debug_items(s: Seq<Seq<char>>) -> Seq<char>
    decreases s.len(),
{
    if s.len() == 0 {
        Seq::empty()
    } else if s.len() == 1 {
        debug_quoted(s[0])
    } else {
        debug_items(s.drop_last()) + ", "@ + debug_quoted(s.last())
    }
}

/// A set of names as `Debug` shows a set of strings: `{"a", "b"}`, here in
/// the order the names were added (a hash set shows them in some order).
pub open spec fn debug_set(s: Seq<Seq<char>>) -> Seq<char> {
    "{"@ + debug_items(s) + "}"@
}

/// Appends `s` in double quotes, escaped.
fn push_quoted(out: &mut String, s: &str)
    ensures
        final(out)@ == old(out)@ + debug_quoted(s@),
{
    let v = chars_of(s);
    let ghost start = out@;
    push_str(out, "\"");
    let mut i: usize = 0;
    assert(v@.take(0) =~= Seq::<char>::empty());
    while i < v.len()
        invariant
            i <= v@.len(),
            v@ == s@,
            out@ == start + "\""@ + debug_escape(v@.take(i as int)),
        decreases v@.len() - i,
    {
        assert(v@.take(i + 1).drop_last() =~= v@.take(i as int));
        assert(v@.take(i + 1).last() == v@[i as int]);
        let c = v[i];
        let ghost before = out@;
        if c == '"' || c == '\\' {
            push_char(out, '\\');
            push_char(out, c);
            assert(out@ =~= before + seq!['\\', c]);
        } else {
            push_char(out, c);
        }
        i += 1;
    }
    assert(v@.take(v@.len() as int) =~= v@);
    push_str(out, "\"");
    assert(out@ =~= old(out)@ + debug_quoted(s@));
}

/// The names as `Debug` shows a set of strings.
pub fn debug_set_string(v: &Vec<String>) -> (r: String)
    ensures
        r@ == debug_set(strings_view(v@)),
{
    let ghost sv = strings_view(v@);
    let mut out = String::new();
    let mut i: usize = 0;
    assert(out@ =~= debug_items(sv.take(0)));
    while i < v.len()
        invariant
            i <= v@.len(),
            sv == strings_view(v@),
            out@ == debug_items(sv.take(i as int)),
        decreases v@.len() - i,
    {
        assert(sv.take(i + 1).drop_last() =~= sv.take(i as int));
        assert(sv.take(i + 1).last() == sv[i as int]);
        if i > 0 {
            push_str(&mut out, ", ");
        } else {
            assert(out@ =~= Seq::<char>::empty());
        }
        push_quoted(&mut out, v[i].as_str());
        proof {
            if i == 0 {
                assert(out@ =~= debug_quoted(sv[0]));
            }
        }
        i += 1;
    }
    assert(sv.take(sv.len() as int) =~= sv);
    let r = concat_braces(out.as_str());
    r
}

fn concat_braces(items: &str) -> (r: String)
    ensures
        r@ == "{"@ + items@ + "}"@,
{
    crate::text::concat3("{", items, "}")
}

/// Enabling a capability and then disabling it (`x`, then `-x` in `CAP
/// ACK`) leaves it disabled, whatever was enabled before.
pub proof fn lemma_ack_then_remove(enabled: Seq<Seq<char>>, x: Seq<char>)
    requires
        no_duplicates(enabled),
        x.len() > 0,
        x[0] != '-',
    ensures
        !cap_ack_fold(enabled, seq![x, "-"@ + x]).contains(x),
{
    reveal_strlit("-");
    let t = "-"@ + x;
    assert(strip_dashes(x) == x);
    assert(t.drop_first() =~= x);
    assert(strip_dashes(t) == strip_dashes(x));
    let toks = seq![x, t];
    assert(toks.drop_last() =~= seq![x]);
    assert(seq![x].drop_last() =~= Seq::<Seq<char>>::empty());
    let e1 = set_insert(enabled, x);
    assert(cap_ack_fold(enabled, seq![x].drop_last()) == enabled);
    assert(seq![x].last() == x);
    assert(cap_ack_fold(enabled, seq![x]) == e1);
    assert(toks.last() == t);
    assert(no_duplicates(e1)) by {
        if !enabled.contains(x) {
            assert forall|i: int, j: int| 0 <= i < j < e1.len() implies #[trigger] e1[i] != #[trigger] e1[j] by {
                if j == enabled.len() {
                    assert(e1[i] == enabled[i]);
                }
            }
        }
    }
    lemma_first_index(e1, x);
    let r = set_remove(e1, x);
    match first_index(e1, x) {
        Some(i) => {
            if r.contains(x) {
                let k = choose|k: int| 0 <= k < r.len() && r[k] == x;
                if k < i {
                    assert(e1[k] == x);
                } else {
                    assert(e1[k + 1] == x);
                    assert(e1[i] != e1[k + 1]);
                }
            }
        },
        None => {
            assert(e1.contains(x)) by {
                if !enabled.contains(x) {
                    assert(e1[enabled.len() as int] == x);
                }
            }
            let k = choose|k: int| 0 <= k < e1.len() && e1[k] == x;
            assert(e1[k] == x);
        },
    }
}

} // verus!
