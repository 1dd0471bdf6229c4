//! Links and nicks in message text: a formatted span is cut into words
//! (each keeping the whitespace after it), and each word is shown as a link
//! when it matches the link pattern, in the nick's color when it names a
//! user of the channel, else as plain text.

use vstd::prelude::*;
use crate::config::strings_view;
use crate::protocol::{UserInfo, users_view, UserView};
use crate::text::{chars_of, char_is_whitespace, unicode_whitespace, push_char, trim_bounds, trim_spec,
    string_from_chars, to_owned_string};
use crate::users::{has_nick, has_user};

verus! {

/// The pattern of a link: `http://` or `https://` and what follows up to
/// whitespace.
pub const URL_PATTERN: &'static str = "(https?://[^\\s]+)";

/// Whether the regular expression `pattern` matches somewhere in
/// `haystack`; false when `pattern` is not a valid regular expression.
pub uninterp spec fn regex_is_match(pattern: Seq<char>, haystack: Seq<char>) -> bool;

/// Whether a link of the form `URL_PATTERN` starts at position `i` of `h`:
/// `http://` or `https://` there, followed by a character that is not
/// whitespace.
pub open spec fn url_at(h: Seq<char>, i: int) -> bool {
    ||| (0 <= i && i + 7 < h.len() && h.subrange(i, i + 7) == "http://"@ && !unicode_whitespace(h[i + 7]))
    ||| (0 <= i && i + 8 < h.len() && h.subrange(i, i + 8) == "https://"@ && !unicode_whitespace(h[i + 8]))
}

/// Whether `URL_PATTERN` matches somewhere in `h`.
pub open spec fn url_match(h: Seq<char>) -> bool {
    exists|i: int| #[trigger] url_at(h, i)
}

/// `regex::Regex::new` then `Regex::is_match`: whether `pattern` matches
/// anywhere in `haystack`; an invalid pattern gives false. For a pattern in
/// general the result is named, not stated: it is the regex crate's
/// matching. For the link pattern it is stated: `(https?://[^\s]+)` matches
/// where `http://` or `https://` is followed by a character outside
/// `\s`, which the regex crate defines as the Unicode White_Space property.
#[verifier::external_body]
fn regex_matches(pattern: &str, haystack: &str) -> (r: bool)
    ensures
        r == regex_is_match(pattern@, haystack@),
        pattern@ == "(https?://[^\\s]+)"@ ==> (r <==> url_match(haystack@)),
{
    match regex::Regex::new(pattern) {
        Ok(re) => re.is_match(haystack),
        Err(_) => false,
    }
}

/// `s` cut after each whitespace character (`str::split_inclusive`): the
/// pieces are not empty, and each but the last ends with whitespace.
pub open spec fn ws_pieces(s: Seq<char>) -> Seq<Seq<char>>
    decreases s.len(),
{
    if s.len() == 0 {
        Seq::empty()
    } else {
        let p = ws_pieces(s.drop_last());
        if p.len() > 0 && !unicode_whitespace(p.last().last()) {
            p.update(p.len() - 1, p.last().push(s.last()))
        } else {
            p.push(seq![s.last()])
        }
    }
}

/// `s` without its leading `@`s (`trim_start_matches('@')`).
pub open spec fn strip_at(s: Seq<char>) -> Seq<char>
    decreases s.len(),
{
    if s.len() > 0 && s[0] == '@' { strip_at(s.drop_first()) } else { s }
}

/// A word of message text and how it is shown.
#[derive(Debug)]
pub enum TextPiece {
    /// A link to `url` (the word without surrounding whitespace).
    Link { word: String, url: String },
    /// A user's nick (the word trimmed, without leading `@`).
    Nick { word: String, nick: String },
    /// Plain text.
    Plain(String),
}

/// A piece as plain values.
pub enum PieceView {
    Link { word: Seq<char>, url: Seq<char> },
    Nick { word: Seq<char>, nick: Seq<char> },
    Plain(Seq<char>),
}

impl View for TextPiece {
    type V = PieceView;

    open spec fn view(&self) -> PieceView {
        match self {
            TextPiece::Link { word, url } => PieceView::Link { word: word@, url: url@ },
            TextPiece::Nick { word, nick } => PieceView::Nick { word: word@, nick: nick@ },
            TextPiece::Plain(w) => PieceView::Plain(w@),
        }
    }
}

/// The views of a sequence of pieces.
pub open spec fn pieces_view(v: Seq<TextPiece>) -> Seq<PieceView> {
    v.map_values(|p: TextPiece| p@)
}

/// How the word `w` is shown, given whether its trimmed form is a link and
/// the channel's users.
pub open spec fn piece_of(w: Seq<char>, is_link: bool, users: Seq<UserView>) -> PieceView {
    let t = trim_spec(w);
    if is_link {
        PieceView::Link { word: w, url: t }
    } else if has_nick(users, strip_at(t)) {
        PieceView::Nick { word: w, nick: strip_at(t) }
    } else {
        PieceView::Plain(w)
    }
}

/// How the words of `s` are shown among `users`.
pub open spec fn message_pieces_spec(s: Seq<char>, users: Seq<UserView>) -> Seq<PieceView> {
    ws_pieces(s).map_values(|w: Seq<char>| piece_of(w, url_match(trim_spec(w)), users))
}

/// Cuts `text` after each whitespace character (see `ws_pieces`).
pub fn split_pieces(text: &str) -> (r: Vec<String>)
    ensures
        strings_view(r@) == ws_pieces(text@),
{
    let v = chars_of(text);
    let mut done: Vec<String> = Vec::new();
    let mut cur = String::new();
    let mut i: usize = 0;
    assert(v@.take(0) =~= Seq::<char>::empty());
    while i < v.len()
        invariant
            i <= v@.len(),
            v@ == text@,
            ws_pieces(v@.take(i as int)) == if cur@.len() > 0 { strings_view(done@).push(cur@) } else { strings_view(done@) },
            cur@.len() > 0 ==> !unicode_whitespace(cur@.last()),
            strings_view(done@).len() > 0 && cur@.len() == 0 ==> unicode_whitespace(strings_view(done@).last().last()),
        decreases v@.len() - i,
    {
        let c = v[i];
        let ghost d = strings_view(done@);
        let ghost before = cur@;
        assert(v@.take(i + 1).drop_last() =~= v@.take(i as int));
        assert(v@.take(i + 1).last() == c);
        push_char(&mut cur, c);
        if char_is_whitespace(c) {
            let piece = cur;
            done.push(piece);
            cur = String::new();
            proof {
                assert(strings_view(done@) =~= d.push(before.push(c)));
                if before.len() > 0 {
                    assert(d.push(before).update(d.len() as int, before.push(c)) =~= d.push(before.push(c)));
                } else {
                    assert(before.push(c) =~= seq![c]);
                }
            }
        } else {
            proof {
                if before.len() > 0 {
                    assert(d.push(before).update(d.len() as int, before.push(c)) =~= d.push(cur@));
                } else {
                    assert(before.push(c) =~= seq![c]);
                }
            }
        }
        i += 1;
    }
    assert(v@.take(v@.len() as int) =~= v@);
    if !cur.as_str().is_empty() {
        let ghost d = strings_view(done@);
        done.push(cur);
        assert(strings_view(done@) =~= d.push(strings_view(done@).last()));
    }
    done
}

/// `s` without its leading `@`s, from character `from` on.
fn strip_at_from(v: &Vec<char>, from: usize, to: usize) -> (r: usize)
    requires
        from <= to <= v@.len(),
    ensures
        from <= r <= to,
        v@.subrange(r as int, to as int) == strip_at(v@.subrange(from as int, to as int)),
{
    let mut i = from;
    while i < to && v[i] == '@'
        invariant
            from <= i <= to <= v@.len(),
            strip_at(v@.subrange(i as int, to as int)) == strip_at(v@.subrange(from as int, to as int)),
        decreases to - i,
    {
        assert(v@.subrange(i as int, to as int).drop_first() =~= v@.subrange(i + 1, to as int));
        i += 1;
    }
    i
}

/// How the word `word` is shown (see `piece_of`), given whether its trimmed
/// form is a link.
pub fn classify_piece(word: &str, is_link: bool, users: &Vec<UserInfo>) -> (r: TextPiece)
    ensures
        r@ == piece_of(word@, is_link, users_view(users@)),
{
    let v = chars_of(word);
    let (lo, hi) = trim_bounds(v.as_slice(), 0, v.len());
    assert(v@.subrange(0, v@.len() as int) =~= v@);
    if is_link {
        return TextPiece::Link { word: to_owned_string(word), url: string_from_chars(v.as_slice(), lo, hi) };
    }
    let s = strip_at_from(&v, lo, hi);
    let nick = string_from_chars(v.as_slice(), s, hi);
    if has_user(users, nick.as_str()) {
        TextPiece::Nick { word: to_owned_string(word), nick }
    } else {
        TextPiece::Plain(to_owned_string(word))
    }
}

/// The words of `text` and how each is shown among `users` (see
/// `message_pieces_spec`).
pub fn message_pieces(text: &str, users: &Vec<UserInfo>) -> (r: Vec<TextPiece>)
    ensures
        pieces_view(r@) == message_pieces_spec(text@, users_view(users@)),
{
    let words = split_pieces(text);
    let ghost ws = strings_view(words@);
    let mut out: Vec<TextPiece> = Vec::new();
    let mut i: usize = 0;
    while i < words.len()
        invariant
            i <= words@.len(),
            ws == strings_view(words@),
            ws == ws_pieces(text@),
            pieces_view(out@) == ws.take(i as int).map_values(|w: Seq<char>|
                piece_of(w, url_match(trim_spec(w)), users_view(users@))),
        decreases words@.len() - i,
    {
        let w = words[i].as_str();
        let v = chars_of(w);
        let (lo, hi) = trim_bounds(v.as_slice(), 0, v.len());
        assert(v@.subrange(0, v@.len() as int) =~= v@);
        let trimmed = string_from_chars(v.as_slice(), lo, hi);
        let is_link = regex_matches(URL_PATTERN, trimmed.as_str());
        let p = classify_piece(w, is_link, users);
        let ghost before = pieces_view(out@);
        out.push(p);
        assert(ws.take(i + 1) =~= ws.take(i as int).push(ws[i as int]));
        assert(pieces_view(out@) =~= before.push(p@));
        i += 1;
    }
    assert(ws.take(ws.len() as int) =~= ws);
    out
}

} // verus!
