//! Character-level string helpers shared by the rest of the library.

use vstd::prelude::*;
use vstd::utf8::{encode_utf8, char_is_scalar};
use crate::config::strings_view;

verus! {

/// Whether `p` is a prefix of `s`.
pub open spec fn has_prefix(s: Seq<char>, p: Seq<char>) -> bool {
    p.len() <= s.len() && s.subrange(0, p.len() as int) == p
}

/// Whether `p` occurs in `s` as a contiguous block starting at `i`.
pub open spec fn occurs_at(s: Seq<char>, p: Seq<char>, i: int) -> bool {
    0 <= i && i + p.len() <= s.len() && s.subrange(i, i + p.len()) == p
}

/// Whether `p` occurs anywhere in `s` as a contiguous block.
pub open spec fn contains_seq(s: Seq<char>, p: Seq<char>) -> bool {
    exists|i: int| occurs_at(s, p, i)
}

/// The characters of `s`, in order.
pub fn chars_of(s: &str) -> (v: Vec<char>)
    ensures
        v@ == s@,
{
    let mut v: Vec<char> = Vec::new();
    for c in it: s.chars()
        invariant
            v@ == it.seq().take(it.index()),
    {
        v.push(c);
    }
    v
}

/// Appends one character to a `String` (`String::push`).
#[verifier::external_body]
pub(crate) fn push_char(s: &mut String, c: char)
    ensures
        final(s)@ == old(s)@.push(c),
{
    s.push(c);
}

/// Appends a string slice to a `String` (`String::push_str`).
#[verifier::external_body]
pub(crate) fn push_str(s: &mut String, t: &str)
    ensures
        final(s)@ == old(s)@ + t@,
{
    s.push_str(t);
}

/// Builds a `String` holding the characters of `v[from..to]`.
pub fn string_from_chars(v: &[char], from: usize, to: usize) -> (s: String)
    requires
        from <= to <= v@.len(),
    ensures
        s@ == v@.subrange(from as int, to as int),
{
    let mut s = String::new();
    let mut i = from;
    while i < to
        invariant
            from <= i <= to <= v@.len(),
            s@ == v@.subrange(from as int, i as int),
        decreases to - i,
    {
        push_char(&mut s, v[i]);
        assert(v@.subrange(from as int, i + 1) == v@.subrange(from as int, i as int).push(v@[i as int]));
        i += 1;
    }
    s
}

/// An owned copy of `s`.
pub fn to_owned_string(s: &str) -> (r: String)
    ensures
        r@ == s@,
{
    s.to_owned()
}

/// Concatenation of two string slices.
pub fn concat2(a: &str, b: &str) -> (r: String)
    ensures
        r@ == a@ + b@,
{
    let mut r = to_owned_string(a);
    push_str(&mut r, b);
    r
}

/// Concatenation of three string slices.
pub fn concat3(a: &str, b: &str, c: &str) -> (r: String)
    ensures
        r@ == a@ + b@ + c@,
{
    let mut r = concat2(a, b);
    push_str(&mut r, c);
    r
}

/// Concatenation of four string slices.
pub fn concat4(a: &str, b: &str, c: &str, d: &str) -> (r: String)
    ensures
        r@ == a@ + b@ + c@ + d@,
{
    let mut r = concat3(a, b, c);
    push_str(&mut r, d);
    r
}

/// Equality of two character sequences held in slices.
pub fn chars_equal(a: &[char], b: &[char]) -> (r: bool)
    ensures
        r == (a@ == b@),
{
    if a.len() != b.len() {
        return false;
    }
    let mut i: usize = 0;
    while i < a.len()
        invariant
            a@.len() == b@.len(),
            i <= a@.len(),
            forall|j: int| 0 <= j < i ==> a@[j] == b@[j],
        decreases a@.len() - i,
    {
        if a[i] != b[i] {
            return false;
        }
        i += 1;
    }
    assert(a@ =~= b@);
    true
}

/// Equality of two string slices by their characters.
pub fn str_equal(a: &str, b: &str) -> (r: bool)
    ensures
        r == (a@ == b@),
{
    let va = chars_of(a);
    let vb = chars_of(b);
    chars_equal(va.as_slice(), vb.as_slice())
}

/// Whether `p` is a prefix of `s`, on character slices.
pub fn chars_have_prefix(s: &[char], p: &[char]) -> (r: bool)
    ensures
        r == has_prefix(s@, p@),
{
    if p.len() > s.len() {
        return false;
    }
    let mut i: usize = 0;
    while i < p.len()
        invariant
            p@.len() <= s@.len(),
            i <= p@.len(),
            forall|j: int| 0 <= j < i ==> s@[j] == p@[j],
        decreases p@.len() - i,
    {
        if s[i] != p[i] {
            assert(s@.subrange(0, p@.len() as int)[i as int] != p@[i as int]);
            return false;
        }
        i += 1;
    }
    assert(s@.subrange(0, p@.len() as int) =~= p@);
    true
}

/// Whether `p` occurs in `s` starting at position `i`, on character slices.
pub fn chars_occur_at(s: &[char], p: &[char], i: usize) -> (r: bool)
    ensures
        r == occurs_at(s@, p@, i as int),
{
    if i > s.len() || p.len() > s.len() - i {
        return false;
    }
    let mut k: usize = 0;
    while k < p.len()
        invariant
            i + p@.len() <= s@.len(),
            s@.len() == s.len(),
            k <= p@.len(),
            forall|j: int| 0 <= j < k ==> s@[i + j] == p@[j],
        decreases p@.len() - k,
    {
        if s[i + k] != p[k] {
            assert(s@.subrange(i as int, i + p@.len())[k as int] != p@[k as int]);
            return false;
        }
        k += 1;
    }
    assert(s@.subrange(i as int, i + p@.len()) =~= p@);
    true
}

/// Whether `p` occurs anywhere in `s`, on character slices.
pub fn chars_contain(s: &[char], p: &[char]) -> (r: bool)
    ensures
        r == contains_seq(s@, p@),
{
    if p.len() > s.len() {
        assert forall|i: int| !occurs_at(s@, p@, i) by {}
        return false;
    }
    if p.len() == 0 {
        assert(s@.subrange(0, 0) =~= p@);
        assert(occurs_at(s@, p@, 0));
        return true;
    }
    let mut i: usize = 0;
    while i <= s.len() - p.len()
        invariant
            1 <= p@.len() <= s@.len(),
            s@.len() == s.len(),
            i <= s@.len() - p@.len() + 1,
            forall|j: int| 0 <= j < i ==> !occurs_at(s@, p@, j),
        decreases s@.len() - p@.len() + 1 - i,
    {
        if chars_occur_at(s, p, i) {
            return true;
        }
        i += 1;
    }
    assert forall|j: int| !occurs_at(s@, p@, j) by {
        if 0 <= j < i {
        }
    }
    false
}

/// Whether `c` occurs in `s`, on a character slice.
pub fn chars_contain_char(s: &[char], c: char) -> (r: bool)
    ensures
        r == s@.contains(c),
{
    let mut i: usize = 0;
    while i < s.len()
        invariant
            i <= s@.len(),
            forall|j: int| 0 <= j < i ==> s@[j] != c,
        decreases s@.len() - i,
    {
        if s[i] == c {
            assert(s@[i as int] == c);
            return true;
        }
        i += 1;
    }
    false
}


/// Whether `c` has the Unicode White_Space property (`char::is_whitespace`):
/// U+0009 to U+000D, U+0020, U+0085, U+00A0, U+1680, U+2000 to U+200A, U+2028,
/// U+2029, U+202F, U+205F and U+3000.
pub open spec fn unicode_whitespace(c: char) -> bool {
    ||| ('\u{9}' <= c && c <= '\u{d}')
    ||| c == ' '
    ||| c == '\u{85}'
    ||| c == '\u{a0}'
    ||| c == '\u{1680}'
    ||| ('\u{2000}' <= c && c <= '\u{200a}')
    ||| c == '\u{2028}'
    ||| c == '\u{2029}'
    ||| c == '\u{202f}'
    ||| c == '\u{205f}'
    ||| c == '\u{3000}'
}

/// Whether `c` has the Unicode Alphabetic property (`char::is_alphabetic`).
pub uninterp spec fn unicode_alphabetic(c: char) -> bool;

/// Whether `c` is Alphabetic or Numeric in Unicode terms (`char::is_alphanumeric`).
pub uninterp spec fn unicode_alphanumeric(c: char) -> bool;

/// Whether `c` has the Unicode general category Cc (`char::is_control`):
/// U+0000 to U+001F and U+007F to U+009F.
pub open spec fn unicode_control(c: char) -> bool {
    c <= '\u{1f}' || ('\u{7f}' <= c && c <= '\u{9f}')
}

/// Whether every character of `s` is ASCII.
pub open spec fn is_ascii_seq(s: Seq<char>) -> bool {
    forall|i: int| 0 <= i < s.len() ==> (#[trigger] s[i] as u32) <= 0x7f
}

/// The ASCII lowercase mapping: `A` to `Z` become `a` to `z`, the rest stays.
pub open spec fn ascii_lowercase(s: Seq<char>) -> Seq<char> {
    s.map_values(|c: char| if 'A' <= c && c <= 'Z' { ((c as int) + 32) as char } else { c })
}

/// The lowercase mapping of a string (`str::to_lowercase`).
pub uninterp spec fn unicode_lowercase(s: Seq<char>) -> Seq<char>;

/// Whether `c` has the White_Space property (`char::is_whitespace`).
pub fn char_is_whitespace(c: char) -> (r: bool)
    ensures
        r == unicode_whitespace(c),
{
    ('\u{9}' <= c && c <= '\u{d}') || c == ' ' || c == '\u{85}' || c == '\u{a0}' || c == '\u{1680}'
        || ('\u{2000}' <= c && c <= '\u{200a}') || c == '\u{2028}' || c == '\u{2029}' || c == '\u{202f}'
        || c == '\u{205f}' || c == '\u{3000}'
}

/// Whether `c` is an ASCII letter.
pub open spec fn is_ascii_letter(c: char) -> bool {
    ('a' <= c && c <= 'z') || ('A' <= c && c <= 'Z')
}

/// `char::is_alphabetic`: whether `c` has the Alphabetic property. The result
/// is named; among ASCII characters exactly the letters have the property; the
/// table for other characters is left unstated.
#[verifier::external_body]
pub(crate) fn char_is_alphabetic(c: char) -> (r: bool)
    ensures
        r == unicode_alphabetic(c),
        (c as u32) <= 0x7f ==> (r <==> is_ascii_letter(c)),
{
    c.is_alphabetic()
}

/// `char::is_alphanumeric`: whether `c` is Alphabetic or Numeric. The result
/// is named; among ASCII characters exactly the letters and the digits `0` to
/// `9` are; the tables for other characters are left unstated.
#[verifier::external_body]
pub(crate) fn char_is_alphanumeric(c: char) -> (r: bool)
    ensures
        r == unicode_alphanumeric(c),
        (c as u32) <= 0x7f ==> (r <==> (is_ascii_letter(c) || is_ascii_digit(c))),
{
    c.is_alphanumeric()
}

/// Whether `c` has general category Cc (`char::is_control`).
pub fn char_is_control(c: char) -> (r: bool)
    ensures
        r == unicode_control(c),
{
    c <= '\u{1f}' || ('\u{7f}' <= c && c <= '\u{9f}')
}

/// `str::to_lowercase`: the lowercase equivalent of `s` as a new `String`. The
/// result is named; for ASCII text it is the ASCII mapping (`A`-`Z` to `a`-`z`);
/// the Unicode case mapping of other text is left unstated.
#[verifier::external_body]
pub(crate) fn str_to_lowercase(s: &str) -> (r: String)
    ensures
        r@ == unicode_lowercase(s@),
        is_ascii_seq(s@) ==> r@ == ascii_lowercase(s@),
{
    s.to_lowercase()
}

/// Whether `c` is an ASCII decimal digit.
pub open spec fn is_ascii_digit(c: char) -> bool {
    '0' <= c <= '9'
}

/// `s` with every character equal to one of `drop` removed.
pub open spec fn remove_chars(s: Seq<char>, drop: Seq<char>) -> Seq<char>
    decreases s.len(),
{
    if s.len() == 0 {
        s
    } else if drop.contains(s.last()) {
        remove_chars(s.drop_last(), drop)
    } else {
        remove_chars(s.drop_last(), drop).push(s.last())
    }
}

/// Number of occurrences of `c` in `s`.
pub open spec fn count_char(s: Seq<char>, c: char) -> nat
    decreases s.len(),
{
    if s.len() == 0 {
        0
    } else {
        count_char(s.drop_last(), c) + if s.last() == c { 1nat } else { 0nat }
    }
}

/// Index of the first occurrence of `c` in `s`, or `s.len()` when there is none.
pub open spec fn first_index_of(s: Seq<char>, c: char) -> int
    decreases s.len(),
{
    if s.len() == 0 {
        0
    } else if s[0] == c {
        0
    } else {
        1 + first_index_of(s.drop_first(), c)
    }
}


/// Number of bytes in the UTF-8 encoding of `c`.
pub open spec fn utf8_width(c: char) -> nat {
    if (c as u32) <= 0x7F {
        1
    } else if (c as u32) <= 0x7FF {
        2
    } else if (c as u32) <= 0xFFFF {
        3
    } else {
        4
    }
}

/// Number of bytes in the UTF-8 encoding of `s`, summed character by character.
pub open spec fn utf8_len(s: Seq<char>) -> nat
    decreases s.len(),
{
    if s.len() == 0 {
        0
    } else {
        utf8_len(s.drop_last()) + utf8_width(s.last())
    }
}

proof fn lemma_utf8_len_front(s: Seq<char>)
    requires
        s.len() > 0,
    ensures
        utf8_len(s) == utf8_width(s[0]) + utf8_len(s.drop_first()),
    decreases s.len(),
{
    reveal_with_fuel(utf8_len, 2);
    if s.len() > 1 {
        lemma_utf8_len_front(s.drop_last());
        assert(s.drop_last().drop_first() =~= s.drop_first().drop_last());
        assert(s.drop_first().last() == s.last());
        assert(s.drop_last()[0] == s[0]);
    } else {
        assert(s.drop_first().len() == 0);
        assert(s.drop_last().len() == 0);
        assert(s.last() == s[0]);
    }
}

/// The summed widths are the length of vstd's UTF-8 encoding.
pub proof fn lemma_utf8_len_is_encoding_len(s: Seq<char>)
    ensures
        utf8_len(s) == encode_utf8(s).len(),
    decreases s.len(),
{
    if s.len() > 0 {
        lemma_utf8_len_front(s);
        lemma_utf8_len_is_encoding_len(s.drop_first());
        char_is_scalar(s[0]);
    }
}

/// Whether the UTF-8 encoding of `s` is longer than `limit` bytes.
pub fn utf8_len_exceeds(s: &[char], limit: usize) -> (r: bool)
    requires
        limit <= 1_000_000,
    ensures
        r == (encode_utf8(s@).len() > limit),
{
    proof {
        lemma_utf8_len_is_encoding_len(s@);
    }
    let mut total: usize = 0;
    let mut i: usize = 0;
    while i < s.len()
        invariant
            i <= s@.len(),
            total as nat == utf8_len(s@.take(i as int)),
            total <= limit,
            limit <= 1_000_000,
        decreases s@.len() - i,
    {
        let c = s[i];
        let w: usize = if (c as u32) <= 0x7F {
            1
        } else if (c as u32) <= 0x7FF {
            2
        } else if (c as u32) <= 0xFFFF {
            3
        } else {
            4
        };
        assert(s@.take(i + 1).drop_last() =~= s@.take(i as int));
        assert(s@.take(i + 1).last() == c);
        assert(w as nat == utf8_width(c));
        total = total + w;
        i += 1;
        assert(total as nat == utf8_len(s@.take(i as int)));
        if total > limit {
            proof {
                lemma_utf8_len_prefix_le(s@, i as int);
                lemma_utf8_len_is_encoding_len(s@);
            }
            return true;
        }
    }
    assert(s@.take(s@.len() as int) =~= s@);
    false
}

pub proof fn lemma_utf8_len_prefix_le(s: Seq<char>, i: int)
    requires
        0 <= i <= s.len(),
    ensures
        utf8_len(s.take(i)) <= utf8_len(s),
    decreases s.len() - i,
{
    if i < s.len() {
        lemma_utf8_len_prefix_le(s, i + 1);
        assert(s.take(i + 1).drop_last() =~= s.take(i));
    } else {
        assert(s.take(i) =~= s);
    }
}


/// Lexicographic order on character sequences (by code point), as `str`'s
/// ordering gives (UTF-8 byte order agrees with code point order).
pub open spec fn lex_le(a: Seq<char>, b: Seq<char>) -> bool
    decreases a.len(),
{
    if a.len() == 0 {
        true
    } else if b.len() == 0 {
        false
    } else if a[0] < b[0] {
        true
    } else if a[0] > b[0] {
        false
    } else {
        lex_le(a.drop_first(), b.drop_first())
    }
}

/// Strict lexicographic order.
pub open spec fn lex_lt(a: Seq<char>, b: Seq<char>) -> bool {
    lex_le(a, b) && a != b
}

/// `lex_le` is reflexive, total, antisymmetric and transitive.
pub proof fn lemma_lex_le_total(a: Seq<char>, b: Seq<char>)
    ensures
        lex_le(a, b) || lex_le(b, a),
        lex_le(a, b) && lex_le(b, a) ==> a == b,
        lex_le(a, a),
    decreases a.len(),
{
    if a.len() > 0 && b.len() > 0 {
        lemma_lex_le_total(a.drop_first(), b.drop_first());
        if lex_le(a, b) && lex_le(b, a) {
            assert(a[0] == b[0]);
            assert(a =~= seq![a[0]] + a.drop_first());
            assert(b =~= seq![b[0]] + b.drop_first());
        }
    }
    if a.len() > 0 {
        lemma_lex_le_total(a.drop_first(), a.drop_first());
    }
    if a.len() == 0 && b.len() == 0 {
        assert(a =~= b);
    }
}

/// `lex_le` is transitive.
pub proof fn lemma_lex_le_trans(a: Seq<char>, b: Seq<char>, c: Seq<char>)
    requires
        lex_le(a, b),
        lex_le(b, c),
    ensures
        lex_le(a, c),
    decreases a.len(),
{
    if a.len() > 0 && b.len() > 0 && c.len() > 0 {
        if a[0] == b[0] && b[0] == c[0] {
            lemma_lex_le_trans(a.drop_first(), b.drop_first(), c.drop_first());
        }
    }
}

/// Compares two character slices lexicographically: whether `a <= b`.
pub fn chars_lex_le(a: &[char], b: &[char]) -> (r: bool)
    ensures
        r == lex_le(a@, b@),
{
    let mut i: usize = 0;
    assert(a@.subrange(0, a@.len() as int) =~= a@);
    assert(b@.subrange(0, b@.len() as int) =~= b@);
    while i < a.len() && i < b.len()
        invariant
            i <= a@.len(),
            i <= b@.len(),
            a@.subrange(0, i as int) == b@.subrange(0, i as int),
            lex_le(a@, b@) == lex_le(a@.subrange(i as int, a@.len() as int), b@.subrange(i as int, b@.len() as int)),
        decreases a@.len() - i,
    {
        let ghost ra = a@.subrange(i as int, a@.len() as int);
        let ghost rb = b@.subrange(i as int, b@.len() as int);
        assert(ra[0] == a@[i as int]);
        assert(rb[0] == b@[i as int]);
        if a[i] < b[i] {
            return true;
        }
        if a[i] > b[i] {
            return false;
        }
        assert(ra.drop_first() =~= a@.subrange(i + 1, a@.len() as int));
        assert(rb.drop_first() =~= b@.subrange(i + 1, b@.len() as int));
        assert(a@.subrange(0, i + 1) =~= a@.subrange(0, i as int).push(a@[i as int]));
        assert(b@.subrange(0, i + 1) =~= b@.subrange(0, i as int).push(b@[i as int]));
        i += 1;
    }
    if i == a.len() {
        true
    } else {
        false
    }
}


/// `s` without its leading whitespace (`str::trim_start`).
pub open spec fn trim_start_spec(s: Seq<char>) -> Seq<char>
    decreases s.len(),
{
    if s.len() > 0 && unicode_whitespace(s[0]) {
        trim_start_spec(s.drop_first())
    } else {
        s
    }
}

/// `s` without its trailing whitespace (`str::trim_end`).
pub open spec fn trim_end_spec(s: Seq<char>) -> Seq<char>
    decreases s.len(),
{
    if s.len() > 0 && unicode_whitespace(s.last()) {
        trim_end_spec(s.drop_last())
    } else {
        s
    }
}

/// `s` without leading and trailing whitespace (`str::trim`).
pub open spec fn trim_spec(s: Seq<char>) -> Seq<char> {
    trim_end_spec(trim_start_spec(s))
}

/// Index where `s[from..to]` starts once its leading whitespace is skipped.
pub fn skip_whitespace(s: &[char], from: usize, to: usize) -> (i: usize)
    requires
        from <= to <= s@.len(),
    ensures
        from <= i <= to,
        s@.subrange(i as int, to as int) == trim_start_spec(s@.subrange(from as int, to as int)),
{
    let mut i = from;
    while i < to && char_is_whitespace(s[i])
        invariant
            from <= i <= to <= s@.len(),
            trim_start_spec(s@.subrange(i as int, to as int)) == trim_start_spec(s@.subrange(from as int, to as int)),
        decreases to - i,
    {
        assert(s@.subrange(i as int, to as int).drop_first() =~= s@.subrange(i + 1, to as int));
        i += 1;
    }
    i
}

/// Index where `s[from..to]` ends once its trailing whitespace is dropped.
pub fn trim_end_index(s: &[char], from: usize, to: usize) -> (j: usize)
    requires
        from <= to <= s@.len(),
    ensures
        from <= j <= to,
        s@.subrange(from as int, j as int) == trim_end_spec(s@.subrange(from as int, to as int)),
{
    let mut j = to;
    while j > from && char_is_whitespace(s[j - 1])
        invariant
            from <= j <= to <= s@.len(),
            trim_end_spec(s@.subrange(from as int, j as int)) == trim_end_spec(s@.subrange(from as int, to as int)),
        decreases j - from,
    {
        assert(s@.subrange(from as int, j as int).drop_last() =~= s@.subrange(from as int, j - 1));
        j -= 1;
    }
    j
}

/// Bounds of `s[from..to]` without leading and trailing whitespace.
pub fn trim_bounds(s: &[char], from: usize, to: usize) -> (r: (usize, usize))
    requires
        from <= to <= s@.len(),
    ensures
        from <= r.0 <= r.1 <= to,
        s@.subrange(r.0 as int, r.1 as int) == trim_spec(s@.subrange(from as int, to as int)),
{
    let i = skip_whitespace(s, from, to);
    let j = trim_end_index(s, i, to);
    (i, j)
}

/// `s` trimmed of whitespace on both ends, as a new `String`.
pub fn trim_string(s: &str) -> (r: String)
    ensures
        r@ == trim_spec(s@),
{
    let v = chars_of(s);
    let (i, j) = trim_bounds(v.as_slice(), 0, v.len());
    assert(v@.subrange(0, v@.len() as int) =~= v@);
    string_from_chars(v.as_slice(), i, j)
}

/// One step of splitting on whitespace: the finished words and the word
/// being read, after the character `c`.
pub open spec fn split_step(acc: (Seq<Seq<char>>, Seq<char>), c: char) -> (Seq<Seq<char>>, Seq<char>) {
    if unicode_whitespace(c) {
        if acc.1.len() > 0 { (acc.0.push(acc.1), Seq::empty()) } else { (acc.0, Seq::empty()) }
    } else {
        (acc.0, acc.1.push(c))
    }
}

/// The finished words and the word being read after all of `s`.
pub open spec fn split_state(s: Seq<char>) -> (Seq<Seq<char>>, Seq<char>)
    decreases s.len(),
{
    if s.len() == 0 {
        (Seq::empty(), Seq::empty())
    } else {
        split_step(split_state(s.drop_last()), s.last())
    }
}

/// The maximal runs of non-whitespace characters of `s`, in order
/// (`str::split_whitespace`).
pub open spec fn words(s: Seq<char>) -> Seq<Seq<char>> {
    let st = split_state(s);
    if st.1.len() > 0 { st.0.push(st.1) } else { st.0 }
}

/// Whether `w` can be a word: not empty and without whitespace.
pub open spec fn is_word(w: Seq<char>) -> bool {
    w.len() > 0 && forall|i: int| 0 <= i < w.len() ==> !unicode_whitespace(#[trigger] w[i])
}

proof fn lemma_split_state_append_word(s: Seq<char>, t: Seq<char>)
    requires
        forall|i: int| 0 <= i < t.len() ==> !unicode_whitespace(#[trigger] t[i]),
    ensures
        split_state(s + t) == (split_state(s).0, split_state(s).1 + t),
    decreases t.len(),
{
    if t.len() == 0 {
        assert(s + t =~= s);
        assert(split_state(s).1 + t =~= split_state(s).1);
    } else {
        let u = t.drop_last();
        lemma_split_state_append_word(s, u);
        assert((s + t).drop_last() =~= s + u);
        assert((s + t).last() == t[t.len() - 1]);
        assert(split_state(s).1 + u.push(t.last()) =~= split_state(s).1 + t);
        assert(u.push(t.last()) =~= t);
    }
}

proof fn lemma_split_state_space(s: Seq<char>)
    ensures
        split_state(s + " "@) == split_step(split_state(s), ' '),
{
    reveal_strlit(" ");
    assert((s + " "@).drop_last() =~= s);
    assert((s + " "@).last() == ' ');
}

/// The words of `s` are words: not empty and without whitespace.
pub proof fn lemma_words_are_words(s: Seq<char>)
    ensures
        forall|i: int| 0 <= i < words(s).len() ==> is_word(#[trigger] words(s)[i]),
{
    lemma_split_state_words(s);
}

proof fn lemma_split_state_words(s: Seq<char>)
    ensures
        forall|i: int| 0 <= i < split_state(s).0.len() ==> is_word(#[trigger] split_state(s).0[i]),
        forall|i: int| 0 <= i < split_state(s).1.len() ==> !unicode_whitespace(#[trigger] split_state(s).1[i]),
        forall|i: int| 0 <= i < words(s).len() ==> is_word(#[trigger] words(s)[i]),
    decreases s.len(),
{
    if s.len() > 0 {
        lemma_split_state_words(s.drop_last());
        let prev = split_state(s.drop_last());
        let c = s.last();
        if unicode_whitespace(c) {
            if prev.1.len() > 0 {
                assert forall|i: int| 0 <= i < prev.0.push(prev.1).len() implies is_word(#[trigger] prev.0.push(prev.1)[i]) by {
                    if i < prev.0.len() {
                        assert(prev.0.push(prev.1)[i] == prev.0[i]);
                    }
                }
            }
        } else {
            assert forall|i: int| 0 <= i < prev.1.push(c).len() implies !unicode_whitespace(#[trigger] prev.1.push(c)[i]) by {
                if i < prev.1.len() {
                    assert(prev.1.push(c)[i] == prev.1[i]);
                }
            }
        }
    }
    let st = split_state(s);
    if st.1.len() > 0 {
        assert forall|i: int| 0 <= i < st.0.push(st.1).len() implies is_word(#[trigger] st.0.push(st.1)[i]) by {
            if i < st.0.len() {
                assert(st.0.push(st.1)[i] == st.0[i]);
            }
        }
    }
}

proof fn lemma_split_state_join(ws: Seq<Seq<char>>)
    requires
        ws.len() > 0,
        forall|i: int| 0 <= i < ws.len() ==> is_word(#[trigger] ws[i]),
    ensures
        split_state(join_words(ws)) == (ws.drop_last(), ws.last()),
    decreases ws.len(),
{
    reveal_strlit(" ");
    if ws.len() == 1 {
        assert(is_word(ws[0]));
        lemma_split_state_append_word(Seq::empty(), ws[0]);
        assert(Seq::<char>::empty() + ws[0] =~= ws[0]);
        assert(split_state(Seq::<char>::empty()) == (Seq::<Seq<char>>::empty(), Seq::<char>::empty()));
        assert(ws.drop_last() =~= Seq::<Seq<char>>::empty());
    } else {
        let front = ws.drop_last();
        assert forall|i: int| 0 <= i < front.len() implies is_word(#[trigger] front[i]) by {
            assert(front[i] == ws[i]);
        }
        lemma_split_state_join(front);
        let j = join_words(front);
        lemma_split_state_space(j);
        assert(is_word(front.last())) by {
            assert(front.last() == ws[ws.len() - 2]);
        }
        assert(front.drop_last().push(front.last()) =~= front);
        let w = ws.last();
        assert(is_word(w)) by {
            assert(w == ws[ws.len() - 1]);
        }
        lemma_split_state_append_word(j + " "@, w);
        assert(join_words(ws) == j + " "@ + w);
        assert(split_state(j + " "@).1 + w =~= w);
    }
}

/// Joining words with single spaces and splitting the result on whitespace
/// gives the words back.
pub proof fn lemma_words_of_join(ws: Seq<Seq<char>>)
    requires
        forall|i: int| 0 <= i < ws.len() ==> is_word(#[trigger] ws[i]),
    ensures
        words(join_words(ws)) == ws,
        ws.len() > 0 ==> join_words(ws).len() > 0,
{
    if ws.len() == 0 {
        assert(split_state(Seq::<char>::empty()) == (Seq::<Seq<char>>::empty(), Seq::<char>::empty()));
    } else {
        lemma_split_state_join(ws);
        assert(is_word(ws.last())) by {
            assert(ws.last() == ws[ws.len() - 1]);
        }
        assert(ws.drop_last().push(ws.last()) =~= ws);
    }
}

/// The words of `v[from..to]`.
pub fn split_words(v: &[char], from: usize, to: usize) -> (r: Vec<String>)
    requires
        from <= to <= v@.len(),
    ensures
        r@.map_values(|w: String| w@) == words(v@.subrange(from as int, to as int)),
{
    let mut out: Vec<String> = Vec::new();
    let mut cur = String::new();
    let mut i = from;
    assert(out@.map_values(|w: String| w@) =~= Seq::<Seq<char>>::empty());
    assert(cur@ =~= Seq::<char>::empty());
    while i < to
        invariant
            from <= i <= to <= v@.len(),
            (out@.map_values(|w: String| w@), cur@) == split_state(v@.subrange(from as int, i as int)),
        decreases to - i,
    {
        let c = v[i];
        assert(v@.subrange(from as int, i + 1).drop_last() =~= v@.subrange(from as int, i as int));
        if char_is_whitespace(c) {
            if !cur.as_str().is_empty() {
                let ghost before = out@;
                let w = cur;
                out.push(w);
                cur = String::new();
                assert(out@.map_values(|w: String| w@) =~= before.map_values(|w: String| w@).push(w@));
                assert(cur@ =~= Seq::<char>::empty());
            } else {
                assert(cur@ =~= Seq::<char>::empty());
            }
        } else {
            push_char(&mut cur, c);
        }
        i += 1;
    }
    if !cur.as_str().is_empty() {
        let ghost before = out@;
        out.push(cur);
        assert(out@.map_values(|w: String| w@) =~= before.map_values(|w: String| w@).push(split_state(v@.subrange(from as int, to as int)).1));
    }
    out
}

/// The words of `ws` joined with single spaces (`[..].join(" ")`).
pub open spec fn join_words(ws: Seq<Seq<char>>) -> Seq<char>
    decreases ws.len(),
{
    if ws.len() == 0 {
        Seq::empty()
    } else if ws.len() == 1 {
        ws[0]
    } else {
        join_words(ws.drop_last()) + " "@ + ws.last()
    }
}

/// Joins `ws[from..]` with single spaces.
pub fn join_from(ws: &Vec<String>, from: usize) -> (r: String)
    ensures
        r@ == join_words(ws@.map_values(|w: String| w@).subrange(
            if from <= ws@.len() { from as int } else { ws@.len() as int }, ws@.len() as int)),
{
    let ghost vs = ws@.map_values(|w: String| w@);
    let start = if from <= ws.len() { from } else { ws.len() };
    let mut r = String::new();
    let mut i = start;
    assert(vs.subrange(start as int, start as int) =~= Seq::<Seq<char>>::empty());
    while i < ws.len()
        invariant
            start <= i <= ws@.len(),
            vs == ws@.map_values(|w: String| w@),
            r@ == join_words(vs.subrange(start as int, i as int)),
        decreases ws@.len() - i,
    {
        let ghost prev = vs.subrange(start as int, i as int);
        assert(vs.subrange(start as int, i + 1).drop_last() =~= prev);
        if i > start {
            push_str(&mut r, " ");
        } else {
            assert(r@ =~= Seq::<char>::empty());
        }
        push_str(&mut r, ws[i].as_str());
        proof {
            if i > start {
                assert(r@ =~= join_words(prev) + " "@ + vs[i as int]);
            } else {
                assert(r@ =~= vs[i as int]);
            }
        }
        i += 1;
    }
    r
}

/// Longer prefixes have strictly longer encodings.
pub proof fn lemma_utf8_len_prefix_lt(s: Seq<char>, i: int, j: int)
    requires
        0 <= i < j <= s.len(),
    ensures
        utf8_len(s.take(i)) < utf8_len(s.take(j)),
    decreases j - i,
{
    assert(s.take(j).drop_last() =~= s.take(j - 1));
    if i < j - 1 {
        lemma_utf8_len_prefix_lt(s, i, j - 1);
    }
}

/// Whether byte offset `b` of the UTF-8 encoding of `s` falls between two
/// characters.
pub open spec fn is_char_boundary_at(s: Seq<char>, b: int) -> bool {
    exists|j: int| 0 <= j <= s.len() && #[trigger] utf8_len(s.take(j)) == b
}

/// The number of characters before byte offset `b` (meaningful at a boundary).
pub open spec fn char_index_at(s: Seq<char>, b: int) -> int {
    choose|j: int| 0 <= j <= s.len() && #[trigger] utf8_len(s.take(j)) == b
}

/// The UTF-8 width of `c`, in bytes.
pub fn char_width(c: char) -> (w: usize)
    ensures
        w as nat == utf8_width(c),
        1 <= w <= 4,
{
    if (c as u32) <= 0x7F {
        1
    } else if (c as u32) <= 0x7FF {
        2
    } else if (c as u32) <= 0xFFFF {
        3
    } else {
        4
    }
}

/// The length in bytes of the UTF-8 encoding of `s`.
pub fn utf8_byte_len(s: &str) -> (n: usize)
    ensures
        n as nat == utf8_len(s@),
{
    proof {
        lemma_utf8_len_is_encoding_len(s@);
    }
    s.as_bytes().len()
}

/// The byte length of the first `k` characters of `s`, given that the whole
/// encoding is `total` bytes.
pub fn utf8_prefix_len(s: &[char], k: usize, total: usize) -> (n: usize)
    requires
        k <= s@.len(),
        total as nat == utf8_len(s@),
    ensures
        n as nat == utf8_len(s@.take(k as int)),
{
    let mut n: usize = 0;
    let mut i: usize = 0;
    while i < k
        invariant
            i <= k <= s@.len(),
            total as nat == utf8_len(s@),
            n as nat == utf8_len(s@.take(i as int)),
        decreases k - i,
    {
        proof {
            lemma_utf8_len_prefix_le(s@, i + 1);
            assert(s@.take(i + 1).drop_last() =~= s@.take(i as int));
        }
        n = n + char_width(s[i]);
        i += 1;
    }
    n
}

/// The number of characters before byte offset `b`, which must fall between
/// two characters.
pub fn char_index_of_byte(s: &[char], b: usize) -> (j: usize)
    requires
        is_char_boundary_at(s@, b as int),
    ensures
        j <= s@.len(),
        utf8_len(s@.take(j as int)) == b,
        j == char_index_at(s@, b as int),
{
    let ghost target = char_index_at(s@, b as int);
    proof {
        assert(0 <= target <= s@.len() && utf8_len(s@.take(target)) == b);
    }
    let mut n: usize = 0;
    let mut i: usize = 0;
    while n < b
        invariant
            0 <= target <= s@.len(),
            utf8_len(s@.take(target)) == b,
            i <= target,
            n as nat == utf8_len(s@.take(i as int)),
            n <= b,
        decreases b - n,
    {
        proof {
            if i == target {
                assert(false);
            }
            lemma_utf8_len_prefix_le(s@.take(target), i + 1);
            assert(s@.take(target).take(i + 1) =~= s@.take(i + 1));
            assert(s@.take(i + 1).drop_last() =~= s@.take(i as int));
        }
        n = n + char_width(s[i]);
        i += 1;
        proof {
            if i > target {
                assert(false);
            } else if i < target {
                lemma_utf8_len_prefix_lt(s@, i as int, target);
            }
        }
    }
    proof {
        if i < target {
            lemma_utf8_len_prefix_lt(s@, i as int, target);
        }
    }
    i
}

/// The decimal digit for `d` (0 to 9).
pub open spec fn digit_char(d: nat) -> char {
    if d == 0 { '0' } else if d == 1 { '1' } else if d == 2 { '2' } else if d == 3 { '3' } else if d == 4 { '4' }
    else if d == 5 { '5' } else if d == 6 { '6' } else if d == 7 { '7' } else if d == 8 { '8' } else { '9' }
}

/// The decimal representation of `n`, without leading zeros.
pub open spec fn decimal(n: nat) -> Seq<char>
    decreases n,
{
    if n < 10 { seq![digit_char(n)] } else { decimal(n / 10).push(digit_char(n % 10)) }
}

/// `n` in decimal (`n.to_string()`).
pub fn decimal_string(n: u64) -> (r: String)
    ensures
        r@ == decimal(n as nat),
    decreases n,
{
    let d = n % 10;
    let c = if d == 0 { '0' } else if d == 1 { '1' } else if d == 2 { '2' } else if d == 3 { '3' } else if d == 4 { '4' }
        else if d == 5 { '5' } else if d == 6 { '6' } else if d == 7 { '7' } else if d == 8 { '8' } else { '9' };
    if n < 10 {
        let mut r = String::new();
        push_char(&mut r, c);
        assert(r@ =~= seq![digit_char(n as nat)]);
        r
    } else {
        let mut r = decimal_string(n / 10);
        push_char(&mut r, c);
        r
    }
}

/// The pieces of `s` between occurrences of `sep`, empty ones included
/// (`str::split` with a character).
pub open spec fn split_on(s: Seq<char>, sep: char) -> Seq<Seq<char>>
    decreases s.len(),
{
    if s.len() == 0 {
        seq![Seq::empty()]
    } else {
        let prev = split_on(s.drop_last(), sep);
        if s.last() == sep {
            prev.push(Seq::empty())
        } else {
            prev.update(prev.len() - 1, prev.last().push(s.last()))
        }
    }
}

pub proof fn lemma_split_on_nonempty(s: Seq<char>, sep: char)
    ensures
        split_on(s, sep).len() >= 1,
    decreases s.len(),
{
    if s.len() > 0 {
        lemma_split_on_nonempty(s.drop_last(), sep);
    }
}

/// Splits `s` at every `sep`.
pub fn split_at_char(s: &str, sep: char) -> (r: Vec<String>)
    ensures
        strings_view(r@) == split_on(s@, sep),
{
    let v = chars_of(s);
    let mut done: Vec<String> = Vec::new();
    let mut cur = String::new();
    let mut i: usize = 0;
    assert(v@.take(0) =~= Seq::<char>::empty());
    assert(strings_view(done@).push(cur@) =~= split_on(v@.take(0), sep));
    while i < v.len()
        invariant
            i <= v@.len(),
            v@ == s@,
            strings_view(done@).push(cur@) == split_on(v@.take(i as int), sep),
        decreases v@.len() - i,
    {
        let ghost prev = split_on(v@.take(i as int), sep);
        assert(v@.take(i + 1).drop_last() =~= v@.take(i as int));
        assert(v@.take(i + 1).last() == v@[i as int]);
        if v[i] == sep {
            let ghost d = strings_view(done@);
            let w = cur;
            done.push(w);
            cur = String::new();
            assert(strings_view(done@) =~= d.push(prev.last()));
            assert(strings_view(done@).push(cur@) =~= prev.push(Seq::<char>::empty()));
        } else {
            let ghost d = strings_view(done@);
            push_char(&mut cur, v[i]);
            assert(strings_view(done@).push(cur@) =~= prev.update(prev.len() - 1, prev.last().push(v@[i as int])));
        }
        i += 1;
    }
    assert(v@.take(v@.len() as int) =~= v@);
    let ghost d = strings_view(done@);
    done.push(cur);
    assert(strings_view(done@) =~= d.push(strings_view(done@).last()));
    done
}

/// A text without `sep` is a single piece.
proof fn lemma_split_on_no_sep(b: Seq<char>, sep: char)
    requires
        !b.contains(sep),
    ensures
        split_on(b, sep) == seq![b],
    decreases b.len(),
{
    if b.len() > 0 {
        let d = b.drop_last();
        assert(!d.contains(sep)) by {
            if d.contains(sep) {
                let i = choose|i: int| 0 <= i < d.len() && d[i] == sep;
                assert(b[i] == sep);
            }
        }
        lemma_split_on_no_sep(d, sep);
        assert(b.last() != sep) by {
            assert(b[b.len() - 1] == b.last());
        }
        assert(d.push(b.last()) =~= b);
    } else {
        assert(b =~= Seq::<char>::empty());
    }
}

/// Splitting `a`, a separator and a text `b` without separator gives the
/// pieces of `a` and then `b`.
proof fn lemma_split_on_append(a: Seq<char>, b: Seq<char>, sep: char)
    requires
        !b.contains(sep),
    ensures
        split_on(a + seq![sep] + b, sep) == split_on(a, sep).push(b),
    decreases b.len(),
{
    let s = a + seq![sep] + b;
    if b.len() == 0 {
        assert(s.drop_last() =~= a);
        assert(s.last() == sep);
        assert(b =~= Seq::<char>::empty());
    } else {
        let d = b.drop_last();
        assert(!d.contains(sep)) by {
            if d.contains(sep) {
                let i = choose|i: int| 0 <= i < d.len() && d[i] == sep;
                assert(b[i] == sep);
            }
        }
        lemma_split_on_append(a, d, sep);
        assert(s.drop_last() =~= a + seq![sep] + d);
        assert(s.last() == b.last());
        assert(b.last() != sep) by {
            assert(b[b.len() - 1] == b.last());
        }
        lemma_split_on_nonempty(a, sep);
        assert(d.push(b.last()) =~= b);
    }
}

/// Whether `x` can stand in a comma-separated list and be read back: it is
/// not empty, holds no comma, and is its own trim.
pub open spec fn list_entry_ok(x: Seq<char>) -> bool {
    &&& x.len() > 0
    &&& !x.contains(',')
    &&& trim_spec(x) == x
}

proof fn lemma_trim_start_len(s: Seq<char>)
    ensures
        trim_start_spec(s).len() <= s.len(),
        s.len() > 0 && unicode_whitespace(s[0]) ==> trim_start_spec(s).len() < s.len(),
        s.len() > 0 && !unicode_whitespace(s[0]) ==> trim_start_spec(s) == s,
    decreases s.len(),
{
    if s.len() > 0 && unicode_whitespace(s[0]) {
        lemma_trim_start_len(s.drop_first());
    }
}

proof fn lemma_trim_end_len(s: Seq<char>)
    ensures
        trim_end_spec(s).len() <= s.len(),
        s.len() > 0 && unicode_whitespace(s.last()) ==> trim_end_spec(s).len() < s.len(),
    decreases s.len(),
{
    if s.len() > 0 && unicode_whitespace(s.last()) {
        lemma_trim_end_len(s.drop_last());
    }
}

/// A non-empty text that is its own trim neither starts nor ends with
/// whitespace.
pub proof fn lemma_trimmed_ends(x: Seq<char>)
    requires
        x.len() > 0,
        trim_spec(x) == x,
    ensures
        !unicode_whitespace(x[0]),
        !unicode_whitespace(x.last()),
{
    lemma_trim_start_len(x);
    lemma_trim_end_len(trim_start_spec(x));
    lemma_trim_start_len(x);
    assert(trim_start_spec(x) == x);
    lemma_trim_end_len(x);
}

proof fn lemma_trim_entry(x: Seq<char>)
    requires
        list_entry_ok(x),
    ensures
        trim_spec(x) == x,
        trim_spec(seq![' '] + x) == x,
{
    lemma_trimmed_ends(x);
    assert(trim_start_spec(x) == x);
    let y = seq![' '] + x;
    assert(y[0] == ' ');
    assert(unicode_whitespace(' '));
    assert(y.drop_first() =~= x);
    assert(trim_start_spec(y) == trim_start_spec(x));
}

proof fn lemma_keep_nonempty_all(ls: Seq<Seq<char>>)
    requires
        forall|i: int| 0 <= i < ls.len() ==> (#[trigger] ls[i]).len() > 0,
    ensures
        keep_nonempty(ls) == ls,
    decreases ls.len(),
{
    if ls.len() > 0 {
        lemma_keep_nonempty_all(ls.drop_last());
        assert(ls.last() == ls[ls.len() - 1]);
        assert(ls.drop_last().push(ls.last()) =~= ls);
    }
}

proof fn lemma_trimmed_pieces(ls: Seq<Seq<char>>)
    requires
        ls.len() > 0,
        forall|i: int| 0 <= i < ls.len() ==> list_entry_ok(#[trigger] ls[i]),
    ensures
        split_on(join_with(ls, ", "@), ',').map_values(|p: Seq<char>| trim_spec(p)) == ls,
    decreases ls.len(),
{
    reveal_strlit(", ");
    if ls.len() == 1 {
        assert(list_entry_ok(ls[0]));
        lemma_split_on_no_sep(ls[0], ',');
        lemma_trim_entry(ls[0]);
        assert(split_on(ls[0], ',').map_values(|p: Seq<char>| trim_spec(p)) =~= ls);
    } else {
        let front = ls.drop_last();
        let x = ls.last();
        assert(list_entry_ok(ls[ls.len() - 1]));
        assert forall|i: int| 0 <= i < front.len() implies list_entry_ok(#[trigger] front[i]) by {
            assert(list_entry_ok(ls[i]));
        }
        lemma_trimmed_pieces(front);
        let b = seq![' '] + x;
        assert(!b.contains(',')) by {
            if b.contains(',') {
                let i = choose|i: int| 0 <= i < b.len() && b[i] == ',';
                if i > 0 {
                    assert(x[i - 1] == ',');
                }
            }
        }
        assert(join_with(ls, ", "@) =~= join_with(front, ", "@) + seq![','] + b);
        lemma_split_on_append(join_with(front, ", "@), b, ',');
        lemma_trim_entry(x);
        let pieces = split_on(join_with(front, ", "@), ',');
        assert(pieces.push(b).map_values(|p: Seq<char>| trim_spec(p))
            =~= pieces.map_values(|p: Seq<char>| trim_spec(p)).push(trim_spec(b)));
        assert(front.push(x) =~= ls);
    }
}

/// Reading back a joined list: joining entries with `, ` and reading the
/// text as a comma-separated list gives the entries again, when each of
/// them can stand in such a list (see `list_entry_ok`).
pub proof fn lemma_comma_list_of_join(ls: Seq<Seq<char>>)
    requires
        forall|i: int| 0 <= i < ls.len() ==> list_entry_ok(#[trigger] ls[i]),
    ensures
        comma_list(join_with(ls, ", "@)) == ls,
{
    if ls.len() == 0 {
        reveal_strlit(", ");
        assert(join_with(ls, ", "@) =~= Seq::<char>::empty());
        let pieces = split_on(Seq::<char>::empty(), ',');
        assert(pieces == seq![Seq::<char>::empty()]);
        assert(trim_start_spec(Seq::<char>::empty()) == Seq::<char>::empty());
        assert(trim_end_spec(Seq::<char>::empty()) == Seq::<char>::empty());
        let t = pieces.map_values(|p: Seq<char>| trim_spec(p));
        assert(t =~= seq![Seq::<char>::empty()]);
        assert(t.drop_last() =~= Seq::<Seq<char>>::empty());
        assert(keep_nonempty(t) =~= keep_nonempty(Seq::<Seq<char>>::empty()));
        assert(keep_nonempty(t) =~= ls);
    } else {
        lemma_trimmed_pieces(ls);
        assert forall|i: int| 0 <= i < ls.len() implies (#[trigger] ls[i]).len() > 0 by {
            assert(list_entry_ok(ls[i]));
        }
        lemma_keep_nonempty_all(ls);
    }
}

/// The entries of `ls` joined with `sep` between them (`[..].join(sep)`).
pub open spec fn join_with(ls: Seq<Seq<char>>, sep: Seq<char>) -> Seq<char>
    decreases ls.len(),
{
    if ls.len() == 0 {
        Seq::empty()
    } else if ls.len() == 1 {
        ls[0]
    } else {
        join_with(ls.drop_last(), sep) + sep + ls.last()
    }
}

/// Joins the strings of `v` with `sep` between them.
pub fn join_strings(v: &Vec<String>, sep: &str) -> (r: String)
    ensures
        r@ == join_with(strings_view(v@), sep@),
{
    let ghost sv = strings_view(v@);
    let mut r = String::new();
    let mut i: usize = 0;
    assert(sv.take(0) =~= Seq::<Seq<char>>::empty());
    while i < v.len()
        invariant
            i <= v@.len(),
            sv == strings_view(v@),
            r@ == join_with(sv.take(i as int), sep@),
        decreases v@.len() - i,
    {
        assert(sv.take(i + 1).drop_last() =~= sv.take(i as int));
        assert(sv.take(i + 1).last() == sv[i as int]);
        if i > 0 {
            push_str(&mut r, sep);
        } else {
            assert(r@ =~= Seq::<char>::empty());
        }
        push_str(&mut r, v[i].as_str());
        proof {
            if i == 0 {
                assert(r@ =~= sv[0]);
            }
        }
        i += 1;
    }
    assert(sv.take(sv.len() as int) =~= sv);
    r
}

/// The entries of `ls` that are not empty, in order.
pub open spec fn keep_nonempty(ls: Seq<Seq<char>>) -> Seq<Seq<char>>
    decreases ls.len(),
{
    if ls.len() == 0 {
        ls
    } else if ls.last().len() > 0 {
        keep_nonempty(ls.drop_last()).push(ls.last())
    } else {
        keep_nonempty(ls.drop_last())
    }
}

/// A comma-separated list: the pieces between commas, trimmed, without the
/// empty ones.
pub open spec fn comma_list(s: Seq<char>) -> Seq<Seq<char>> {
    keep_nonempty(split_on(s, ',').map_values(|p: Seq<char>| trim_spec(p)))
}

/// Splits a comma-separated list into its trimmed, non-empty entries.
pub fn parse_comma_list(s: &str) -> (r: Vec<String>)
    ensures
        strings_view(r@) == comma_list(s@),
{
    let pieces = split_at_char(s, ',');
    let ghost pv = strings_view(pieces@);
    let ghost tv = pv.map_values(|p: Seq<char>| trim_spec(p));
    let mut out: Vec<String> = Vec::new();
    let mut i: usize = 0;
    assert(tv.take(0) =~= Seq::<Seq<char>>::empty());
    while i < pieces.len()
        invariant
            i <= pieces@.len(),
            pv == strings_view(pieces@),
            tv == pv.map_values(|p: Seq<char>| trim_spec(p)),
            strings_view(out@) == keep_nonempty(tv.take(i as int)),
        decreases pieces@.len() - i,
    {
        assert(tv.take(i + 1).drop_last() =~= tv.take(i as int));
        assert(tv.take(i + 1).last() == tv[i as int]);
        let t = trim_string(pieces[i].as_str());
        if !t.as_str().is_empty() {
            let ghost before = strings_view(out@);
            out.push(t);
            assert(strings_view(out@) =~= before.push(tv[i as int]));
        }
        i += 1;
    }
    assert(tv.take(tv.len() as int) =~= tv);
    out
}

} // verus!
