//! IRC formatting codes: bold, italic, colors and reset, split into styled
//! spans of text.

use vstd::prelude::*;
use crate::text::{chars_of, push_char, is_ascii_digit};
use crate::ui::theme::{Rgb, mirc_color, mirc_rgb};

verus! {

/// Represents a styled span of text with IRC formatting
#[derive(Debug, Clone)]
pub struct TextSpan {
    pub text: String,
    pub fg_color: Option<Rgb>,
    pub bg_color: Option<Rgb>,
    pub bold: bool,
    pub italic: bool,
}

/// A span as plain values.
pub struct SpanView {
    pub text: Seq<char>,
    pub fg_color: Option<Rgb>,
    pub bg_color: Option<Rgb>,
    pub bold: bool,
    pub italic: bool,
}

impl View for TextSpan {
    type V = SpanView;

    open spec fn view(&self) -> SpanView {
        SpanView { text: self.text@, fg_color: self.fg_color, bg_color: self.bg_color, bold: self.bold, italic: self.italic }
    }
}

/// The views of a sequence of spans.
pub open spec fn spans_view(v: Seq<TextSpan>) -> Seq<SpanView> {
    v.map_values(|s: TextSpan| s@)
}

/// The parser's state: the text of the current span and the current style.
pub struct FmtState {
    pub cur: Seq<char>,
    pub fg: Option<Rgb>,
    pub bg: Option<Rgb>,
    pub bold: bool,
    pub italic: bool,
}

/// The starting state: no text, no style.
pub open spec fn fmt_start() -> FmtState {
    FmtState { cur: Seq::empty(), fg: None, bg: None, bold: false, italic: false }
}

/// `spans` with the current text closed as a span, when there is any.
pub open spec fn flush(spans: Seq<SpanView>, st: FmtState) -> Seq<SpanView> {
    if st.cur.len() > 0 {
        spans.push(SpanView { text: st.cur, fg_color: st.fg, bg_color: st.bg, bold: st.bold, italic: st.italic })
    } else {
        spans
    }
}

/// How many color digits start at `i`: at most two ASCII digits.
pub open spec fn digit_run(chars: Seq<char>, i: int) -> int {
    if 0 <= i < chars.len() && is_ascii_digit(chars[i]) {
        if i + 1 < chars.len() && is_ascii_digit(chars[i + 1]) { 2 } else { 1 }
    } else {
        0
    }
}

/// The value of the `n` (1 or 2) color digits at `i`.
pub open spec fn code_at(chars: Seq<char>, i: int, n: int) -> u8 {
    let d0 = (chars[i] as int - '0' as int);
    if n == 2 { (d0 * 10 + (chars[i + 1] as int - '0' as int)) as u8 } else { d0 as u8 }
}

/// The spans of `chars` from position `i` on, after `spans` and in state
/// `st`. `\x02` toggles bold, `\x1D` italic, `\x0F` resets everything; `\x03`
/// followed by up to two digits sets the foreground color, then `,` and up to
/// two digits the background (a `,` without digits is dropped and leaves the
/// background); `\x03` without digits clears both colors. Every code closes
/// the current span.
pub open spec fn fmt_from(chars: Seq<char>, i: int, spans: Seq<SpanView>, st: FmtState) -> Seq<SpanView>
    decreases chars.len() - i,
{
    if i < 0 || i >= chars.len() {
        flush(spans, st)
    } else {
        let c = chars[i];
        let sp = flush(spans, st);
        if c == '\x02' {
            fmt_from(chars, i + 1, sp, FmtState { cur: Seq::empty(), bold: !st.bold, ..st })
        } else if c == '\x1D' {
            fmt_from(chars, i + 1, sp, FmtState { cur: Seq::empty(), italic: !st.italic, ..st })
        } else if c == '\x0F' {
            fmt_from(chars, i + 1, sp, fmt_start())
        } else if c == '\x03' {
            let j = i + 1;
            let n = digit_run(chars, j);
            let st0 = FmtState { cur: Seq::empty(), ..st };
            if n == 0 {
                fmt_from(chars, j, sp, FmtState { fg: None, bg: None, ..st0 })
            } else {
                let fg = Some(mirc_rgb(code_at(chars, j, n)));
                let k = j + n;
                if k < chars.len() && chars[k] == ',' {
                    let m = digit_run(chars, k + 1);
                    if m == 0 {
                        fmt_from(chars, k + 1, sp, FmtState { fg, ..st0 })
                    } else {
                        fmt_from(chars, k + 1 + m, sp, FmtState { fg, bg: Some(mirc_rgb(code_at(chars, k + 1, m))), ..st0 })
                    }
                } else {
                    fmt_from(chars, k, sp, FmtState { fg, ..st0 })
                }
            }
        } else {
            fmt_from(chars, i + 1, spans, FmtState { cur: st.cur.push(c), ..st })
        }
    }
}

/// The number of color digits at `i`, and their value.
fn read_code(chars: &Vec<char>, i: usize) -> (r: (usize, u8))
    ensures
        r.0 as int == digit_run(chars@, i as int),
        r.0 > 0 ==> r.1 == code_at(chars@, i as int, r.0 as int),
{
    if i < chars.len() && '0' <= chars[i] && chars[i] <= '9' {
        let d0 = (chars[i] as u32 - '0' as u32) as u8;
        if i + 1 < chars.len() && '0' <= chars[i + 1] && chars[i + 1] <= '9' {
            let d1 = (chars[i + 1] as u32 - '0' as u32) as u8;
            (2, d0 * 10 + d1)
        } else {
            (1, d0)
        }
    } else {
        (0, 0)
    }
}

/// Closes the current span, if it has text.
fn flush_span(spans: &mut Vec<TextSpan>, cur: &mut String, fg: Option<Rgb>, bg: Option<Rgb>, bold: bool, italic: bool)
    ensures
        spans_view(final(spans)@) == flush(spans_view(old(spans)@),
            FmtState { cur: old(cur)@, fg, bg, bold, italic }),
        final(cur)@ == Seq::<char>::empty(),
{
    if !cur.as_str().is_empty() {
        let ghost before = spans@;
        let mut text = String::new();
        std::mem::swap(cur, &mut text);
        spans.push(TextSpan { text, fg_color: fg, bg_color: bg, bold, italic });
        assert(spans_view(spans@) =~= spans_view(before).push(spans@.last()@));
    } else {
        assert(cur@ =~= Seq::<char>::empty());
    }
}

/// Parse IRC formatting codes into styled text spans.
pub fn parse_irc_formatting(text: &str) -> (r: Vec<TextSpan>)
    ensures
        spans_view(r@) == fmt_from(text@, 0, Seq::empty(), fmt_start()),
{
    let chars = chars_of(text);
    let mut spans: Vec<TextSpan> = Vec::new();
    let mut cur = String::new();
    let mut fg: Option<Rgb> = None;
    let mut bg: Option<Rgb> = None;
    let mut bold = false;
    let mut italic = false;
    let mut i: usize = 0;
    assert(spans_view(spans@) =~= Seq::<SpanView>::empty());
    assert(cur@ =~= Seq::<char>::empty());
    while i < chars.len()
        invariant
            chars@ == text@,
            i <= chars@.len(),
            fmt_from(text@, 0, Seq::empty(), fmt_start())
                == fmt_from(chars@, i as int, spans_view(spans@), FmtState { cur: cur@, fg, bg, bold, italic }),
        decreases chars@.len() - i,
    {
        let c = chars[i];
        if c == '\x02' {
            flush_span(&mut spans, &mut cur, fg, bg, bold, italic);
            bold = !bold;
            i += 1;
        } else if c == '\x1D' {
            flush_span(&mut spans, &mut cur, fg, bg, bold, italic);
            italic = !italic;
            i += 1;
        } else if c == '\x0F' {
            flush_span(&mut spans, &mut cur, fg, bg, bold, italic);
            fg = None;
            bg = None;
            bold = false;
            italic = false;
            i += 1;
        } else if c == '\x03' {
            flush_span(&mut spans, &mut cur, fg, bg, bold, italic);
            let j = i + 1;
            let (n, code) = read_code(&chars, j);
            if n == 0 {
                fg = None;
                bg = None;
                i = j;
            } else {
                fg = Some(mirc_color(code));
                let k = j + n;
                if k < chars.len() && chars[k] == ',' {
                    let (m, code2) = read_code(&chars, k + 1);
                    if m == 0 {
                        i = k + 1;
                    } else {
                        bg = Some(mirc_color(code2));
                        i = k + 1 + m;
                    }
                } else {
                    i = k;
                }
            }
        } else {
            push_char(&mut cur, c);
            i += 1;
        }
    }
    flush_span(&mut spans, &mut cur, fg, bg, bold, italic);
    spans
}

/// The texts of the spans, one after the other.
pub open spec fn concat_texts(spans: Seq<SpanView>) -> Seq<char>
    decreases spans.len(),
{
    if spans.len() == 0 { Seq::empty() } else { concat_texts(spans.drop_last()) + spans.last().text }
}

/// The visible text of `chars` from position `i` on: everything but the
/// formatting codes and the color numbers that follow `\x03`.
pub open spec fn stripped_from(chars: Seq<char>, i: int) -> Seq<char>
    decreases chars.len() - i,
{
    if i < 0 || i >= chars.len() {
        Seq::empty()
    } else {
        let c = chars[i];
        if c == '\x02' || c == '\x1D' || c == '\x0F' {
            stripped_from(chars, i + 1)
        } else if c == '\x03' {
            let j = i + 1;
            let n = digit_run(chars, j);
            if n == 0 {
                stripped_from(chars, j)
            } else {
                let k = j + n;
                if k < chars.len() && chars[k] == ',' {
                    stripped_from(chars, k + 1 + digit_run(chars, k + 1))
                } else {
                    stripped_from(chars, k)
                }
            }
        } else {
            seq![c] + stripped_from(chars, i + 1)
        }
    }
}

proof fn lemma_flush_texts(spans: Seq<SpanView>, st: FmtState)
    ensures
        concat_texts(flush(spans, st)) == concat_texts(spans) + st.cur,
        forall|k: int| 0 <= k < spans.len() ==> flush(spans, st)[k] == spans[k],
        flush(spans, st).len() >= spans.len(),
        forall|k: int| spans.len() <= k < flush(spans, st).len() ==> (#[trigger] flush(spans, st)[k]).text.len() > 0,
{
    if st.cur.len() > 0 {
        let f = flush(spans, st);
        assert(f.drop_last() =~= spans);
    } else {
        assert(concat_texts(spans) + st.cur =~= concat_texts(spans));
    }
}

proof fn lemma_fmt_texts(chars: Seq<char>, i: int, spans: Seq<SpanView>, st: FmtState)
    requires
        i >= 0,
    ensures
        concat_texts(fmt_from(chars, i, spans, st)) == concat_texts(spans) + st.cur + stripped_from(chars, i),
        (forall|k: int| 0 <= k < spans.len() ==> (#[trigger] spans[k]).text.len() > 0)
            ==> (forall|k: int| 0 <= k < fmt_from(chars, i, spans, st).len()
                ==> (#[trigger] fmt_from(chars, i, spans, st)[k]).text.len() > 0),
    decreases chars.len() - i,
{
    lemma_flush_texts(spans, st);
    let sp = flush(spans, st);
    if i >= chars.len() {
        assert(concat_texts(spans) + st.cur + stripped_from(chars, i) =~= concat_texts(spans) + st.cur);
    } else {
        let c = chars[i];
        if c == '\x02' || c == '\x1D' || c == '\x0F' {
            let st2 = if c == '\x02' {
                FmtState { cur: Seq::empty(), bold: !st.bold, ..st }
            } else if c == '\x1D' {
                FmtState { cur: Seq::empty(), italic: !st.italic, ..st }
            } else {
                fmt_start()
            };
            lemma_fmt_texts(chars, i + 1, sp, st2);
            assert(concat_texts(sp) + st2.cur + stripped_from(chars, i + 1) =~= concat_texts(spans) + st.cur + stripped_from(chars, i));
        } else if c == '\x03' {
            let j = i + 1;
            let n = digit_run(chars, j);
            let st0 = FmtState { cur: Seq::empty(), ..st };
            if n == 0 {
                lemma_fmt_texts(chars, j, sp, FmtState { fg: None, bg: None, ..st0 });
            } else {
                let fg = Some(mirc_rgb(code_at(chars, j, n)));
                let k = j + n;
                if k < chars.len() && chars[k] == ',' {
                    let m = digit_run(chars, k + 1);
                    if m == 0 {
                        lemma_fmt_texts(chars, k + 1, sp, FmtState { fg, ..st0 });
                    } else {
                        lemma_fmt_texts(chars, k + 1 + m, sp, FmtState { fg, bg: Some(mirc_rgb(code_at(chars, k + 1, m))), ..st0 });
                    }
                } else {
                    lemma_fmt_texts(chars, k, sp, FmtState { fg, ..st0 });
                }
            }
            assert(concat_texts(sp) + Seq::<char>::empty() + stripped_from(chars, i) =~= concat_texts(spans) + st.cur + stripped_from(chars, i));
        } else {
            let st2 = FmtState { cur: st.cur.push(c), ..st };
            lemma_fmt_texts(chars, i + 1, spans, st2);
            assert(concat_texts(spans) + st2.cur + stripped_from(chars, i + 1) =~= concat_texts(spans) + st.cur + stripped_from(chars, i));
        }
    }
}

/// Formatting only styles the text: the spans' texts, one after the other,
/// are the input without its formatting codes and color numbers, and no span
/// is empty.
pub proof fn lemma_formatting_keeps_text(text: Seq<char>)
    ensures
        concat_texts(fmt_from(text, 0, Seq::empty(), fmt_start())) == stripped_from(text, 0),
        forall|k: int| 0 <= k < fmt_from(text, 0, Seq::empty(), fmt_start()).len()
            ==> (#[trigger] fmt_from(text, 0, Seq::empty(), fmt_start())[k]).text.len() > 0,
{
    lemma_fmt_texts(text, 0, Seq::empty(), fmt_start());
    assert(concat_texts(Seq::<SpanView>::empty()) + fmt_start().cur + stripped_from(text, 0) =~= stripped_from(text, 0));
}

} // verus!
