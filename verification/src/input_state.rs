//! Input state management for message composition, history, and tab completion.

use vstd::prelude::*;
use crate::buffers::BufferMap;
use crate::config::{strings_view, opt_string_view};
use crate::events::is_channel_name;
use crate::protocol::UserView;
use crate::text::{chars_of, char_is_whitespace, unicode_whitespace, utf8_len, utf8_byte_len, utf8_prefix_len,
    is_char_boundary_at, char_index_at, char_index_of_byte, string_from_chars, trim_bounds,
    trim_spec, has_prefix, chars_have_prefix, chars_lex_le, lex_le, lex_lt, lemma_lex_le_total, lemma_lex_le_trans,
    to_owned_string, concat2, concat3, str_equal};

verus! {

/// Manages all input-related state for the IRC client: message composition,
/// command history navigation, tab completion, and the channel input field.
#[derive(Debug)]
pub struct InputState {
    /// Current message being composed
    pub message_input: String,
    /// Channel name input (for join operations)
    pub channel_input: String,
    /// Command/message history (for up/down arrow navigation)
    pub history: Vec<String>,
    /// Current position in history (None = not navigating)
    pub history_pos: Option<usize>,
    /// Saved input when entering history mode
    pub history_saved_input: Option<String>,
    /// Tab completion candidates
    pub completions: Vec<String>,
    /// Current completion index (for cycling through completions)
    pub completion_index: Option<usize>,
    /// Original prefix that was completed
    pub completion_prefix: Option<String>,
    /// Whether we're completing a channel name
    pub completion_target_channel: bool,
    /// Last input text (for detecting changes that should reset completion)
    pub last_input_text: String,
}

/// An input state as plain values.
pub struct InputView {
    pub message_input: Seq<char>,
    pub channel_input: Seq<char>,
    pub history: Seq<Seq<char>>,
    pub history_pos: Option<usize>,
    pub history_saved_input: Option<Seq<char>>,
    pub completions: Seq<Seq<char>>,
    pub completion_index: Option<usize>,
    pub completion_prefix: Option<Seq<char>>,
    pub completion_target_channel: bool,
    pub last_input_text: Seq<char>,
}

impl View for InputState {
    type V = InputView;

    open spec fn view(&self) -> InputView {
        InputView {
            message_input: self.message_input@,
            channel_input: self.channel_input@,
            history: strings_view(self.history@),
            history_pos: self.history_pos,
            history_saved_input: opt_string_view(self.history_saved_input),
            completions: strings_view(self.completions@),
            completion_index: self.completion_index,
            completion_prefix: opt_string_view(self.completion_prefix),
            completion_target_channel: self.completion_target_channel,
            last_input_text: self.last_input_text@,
        }
    }
}

/// An input state with every field empty.
pub open spec fn is_empty_input(s: InputState) -> bool {
    &&& s.message_input@.len() == 0
    &&& s.channel_input@.len() == 0
    &&& s.history@.len() == 0
    &&& s.history_pos is None
    &&& s.history_saved_input is None
    &&& s.completions@.len() == 0
    &&& s.completion_index is None
    &&& s.completion_prefix is None
    &&& !s.completion_target_channel
    &&& s.last_input_text@.len() == 0
}

impl Default for InputState {
    fn default() -> (r: Self)
        ensures
            is_empty_input(r),
    {
        InputState {
            message_input: String::new(),
            channel_input: String::new(),
            history: Vec::new(),
            history_pos: None,
            history_saved_input: None,
            completions: Vec::new(),
            completion_index: None,
            completion_prefix: None,
            completion_target_channel: false,
            last_input_text: String::new(),
        }
    }
}

/// Position of the last whitespace character of `s`.
pub open spec fn last_ws_index(s: Seq<char>) -> Option<int>
    decreases s.len(),
{
    if s.len() == 0 {
        None
    } else if unicode_whitespace(s.last()) {
        Some(s.len() - 1)
    } else {
        last_ws_index(s.drop_last())
    }
}

pub(crate) proof fn lemma_last_ws_index(s: Seq<char>)
    ensures
        match last_ws_index(s) {
            Some(k) => 0 <= k < s.len() && unicode_whitespace(s[k])
                && forall|j: int| k < j < s.len() ==> !unicode_whitespace(#[trigger] s[j]),
            None => forall|j: int| 0 <= j < s.len() ==> !unicode_whitespace(#[trigger] s[j]),
        },
    decreases s.len(),
{
    if s.len() > 0 && !unicode_whitespace(s.last()) {
        let d = s.drop_last();
        lemma_last_ws_index(d);
        match last_ws_index(d) {
            Some(k) => {
                assert(s[k] == d[k]);
                assert forall|j: int| k < j < s.len() implies !unicode_whitespace(#[trigger] s[j]) by {
                    if j < s.len() - 1 {
                        assert(s[j] == d[j]);
                    }
                }
            },
            None => {
                assert forall|j: int| 0 <= j < s.len() implies !unicode_whitespace(#[trigger] s[j]) by {
                    if j < s.len() - 1 {
                        assert(s[j] == d[j]);
                    }
                }
            },
        }
    }
}

/// The character position where the last word of `s` starts.
pub open spec fn word_start_char(s: Seq<char>) -> int {
    match last_ws_index(s) {
        Some(k) => k + 1,
        None => 0,
    }
}

/// The byte bounds of the last word of `s`: the byte offset of the character
/// after the last whitespace character (or 0), and the length of `s` in bytes.
pub open spec fn last_word_bounds(s: Seq<char>) -> (int, int) {
    (utf8_len(s.take(word_start_char(s))) as int, utf8_len(s) as int)
}

/// `s` with everything from character `start` on replaced by `completion`
/// and a suffix: `: ` after a nick that is the first word of the line, a
/// space after anything else (a command, a channel, a later word). A
/// completion is a nick when it starts with none of `/`, `#` and `&`.
pub open spec fn completed_input(s: Seq<char>, completion: Seq<char>, start: int) -> Seq<char> {
    let before = s.take(start);
    let suffix = if completion.len() > 0 && (completion[0] == '/' || completion[0] == '#' || completion[0] == '&') {
        " "@
    } else if trim_spec(before).len() == 0 {
        ": "@
    } else {
        " "@
    };
    before + completion + suffix
}

/// The input state after a completion from character `start`: the input as
/// `completed_input` says, history navigation left.
pub open spec fn after_completion(v: InputView, completion: Seq<char>, start: int) -> InputView {
    InputView {
        message_input: completed_input(v.message_input, completion, start),
        history_pos: None,
        history_saved_input: None,
        ..v
    }
}

/// The index of the completion chosen by cycling in `direction` from `index`
/// among `n` candidates (the first one when not cycling yet).
pub open spec fn next_completion_index(index: Option<usize>, direction: int, n: int) -> int {
    match index {
        Some(i) => (i + direction) % n,
        None => 0,
    }
}

/// History navigation one step up (older): entering it saves the input and
/// goes to the newest entry; the input shows the entry reached.
pub open spec fn history_up_view(v: InputView) -> InputView {
    let n = v.history.len();
    if n == 0 {
        v
    } else {
        let pos: int = match v.history_pos {
            None => n - 1,
            Some(p) => if p > 0 { p - 1 } else { p as int },
        };
        InputView {
            history_pos: Some(pos as usize),
            history_saved_input: if v.history_pos is None { Some(v.message_input) } else { v.history_saved_input },
            message_input: if pos < n { v.history[pos] } else { v.message_input },
            ..v
        }
    }
}

/// History navigation one step down (newer): past the newest entry it is
/// left and the saved input comes back.
pub open spec fn history_down_view(v: InputView) -> InputView {
    match v.history_pos {
        None => v,
        Some(p) => if p + 1 < v.history.len() {
            InputView { history_pos: Some((p + 1) as usize), message_input: v.history[p + 1], ..v }
        } else {
            InputView {
                history_pos: None,
                message_input: match v.history_saved_input {
                    Some(t) => t,
                    None => Seq::empty(),
                },
                history_saved_input: None,
                ..v
            }
        },
    }
}

/// Stepping up into the history and straight back down restores what was
/// being typed and leaves history navigation; from inside the history (not at
/// the oldest entry) it comes back to the same entry.
pub proof fn lemma_history_up_down(v: InputView)
    requires
        v.history.len() <= usize::MAX,
    ensures
        v.history_pos is None ==> {
            &&& history_down_view(history_up_view(v)).message_input == v.message_input
            &&& history_down_view(history_up_view(v)).history_pos is None
            &&& v.history.len() > 0 ==> history_down_view(history_up_view(v)).history_saved_input is None
        },
        v.history_pos matches Some(p) && 0 < p < v.history.len() ==> {
            &&& history_down_view(history_up_view(v)).history_pos == v.history_pos
            &&& history_down_view(history_up_view(v)).message_input == v.history[v.history_pos.unwrap() as int]
        },
{
}

/// The input state after `k` steps up the history.
pub open spec fn ups(v: InputView, k: nat) -> InputView
    decreases k,
{
    if k == 0 { v } else { history_up_view(ups(v, (k - 1) as nat)) }
}

/// The input state after `k` steps down the history.
pub open spec fn downs(v: InputView, k: nat) -> InputView
    decreases k,
{
    if k == 0 { v } else { history_down_view(downs(v, (k - 1) as nat)) }
}

proof fn lemma_ups(v: InputView, k: nat)
    requires
        v.history_pos is None,
        0 < v.history.len() <= usize::MAX,
        k >= 1,
    ensures
        ({
            let n = v.history.len() as int;
            let pos: int = if n - k > 0 { n - k } else { 0 };
            ups(v, k) == InputView {
                history_pos: Some(pos as usize),
                history_saved_input: Some(v.message_input),
                message_input: v.history[pos],
                ..v
            }
        }),
    decreases k,
{
    let n = v.history.len() as int;
    if k == 1 {
        assert(ups(v, 0) == v);
    } else {
        lemma_ups(v, (k - 1) as nat);
        let prev = ups(v, (k - 1) as nat);
        let q: int = if n - (k - 1) > 0 { n - (k - 1) } else { 0 };
        assert(prev.history_pos == Some(q as usize));
        assert(ups(v, k) == history_up_view(prev));
    }
}

proof fn lemma_downs(w: InputView, p: int, orig: Seq<char>, m: nat)
    requires
        w.history_pos == Some(p as usize),
        0 <= p < w.history.len() <= usize::MAX,
        w.history_saved_input == Some(orig),
    ensures
        downs(w, m) == if m <= w.history.len() - 1 - p {
            InputView {
                history_pos: Some((p + m) as usize),
                message_input: if m == 0 { w.message_input } else { w.history[p + m] },
                ..w
            }
        } else {
            InputView { history_pos: None, message_input: orig, history_saved_input: None, ..w }
        },
    decreases m,
{
    if m > 0 {
        lemma_downs(w, p, orig, (m - 1) as nat);
    }
}

/// Going `k` steps up the history from the input line and `k` steps back
/// down restores what was being typed and leaves history navigation, for
/// every `k` (steps up stop at the oldest entry, steps down past the newest
/// do nothing).
pub proof fn lemma_history_k_steps(v: InputView, k: nat)
    requires
        v.history_pos is None,
        0 < v.history.len() <= usize::MAX,
        k >= 1,
    ensures
        downs(ups(v, k), k) == (InputView { history_pos: None, history_saved_input: None, ..v }),
{
    lemma_ups(v, k);
    let n = v.history.len() as int;
    let pos: int = if n - k > 0 { n - k } else { 0 };
    lemma_downs(ups(v, k), pos, v.message_input, k);
}

/// The commands offered for completion.
pub open spec fn command_names() -> Seq<Seq<char>> {
    seq!["/join"@, "/j"@, "/part"@, "/p"@, "/msg"@, "/privmsg"@, "/me"@, "/whois"@, "/w"@, "/topic"@,
        "/t"@, "/kick"@, "/k"@, "/nick"@, "/quit"@, "/exit"@, "/help"@]
}

/// The entries among the first `n` of `list` that start with `p`.
pub open spec fn prefixed_set(list: Seq<Seq<char>>, n: int, p: Seq<char>) -> Set<Seq<char>> {
    Set::new(|c: Seq<char>| exists|j: int| 0 <= j < n && #[trigger] list[j] == c && has_prefix(c, p))
}

/// `lead` followed by each nick among the first `n` users that starts with `p`.
pub open spec fn nick_set(users: Seq<UserView>, n: int, p: Seq<char>, lead: Seq<char>) -> Set<Seq<char>> {
    Set::new(|c: Seq<char>| exists|j: int| 0 <= j < n && has_prefix(#[trigger] users[j].nick, p) && c == lead + users[j].nick)
}

/// Whether `s` starts with `c`.
pub open spec fn starts_with_char(s: Seq<char>, c: char) -> bool {
    s.len() > 0 && s[0] == c
}

/// The completion candidates for `prefix`: commands when it starts with `/`;
/// buffer names when it starts with `#` or `&`; otherwise nicks of the active
/// buffer's users (`@` kept in front when the prefix has one) and buffer names.
pub open spec fn completion_candidates(prefix: Seq<char>, order: Seq<Seq<char>>, users: Option<Seq<UserView>>) -> Set<Seq<char>> {
    let slash = starts_with_char(prefix, '/');
    let at = !slash && starts_with_char(prefix, '@');
    let search = if at { prefix.drop_first() } else { prefix };
    let lead = if at { "@"@ } else { Seq::empty() };
    let cmds = if slash { prefixed_set(command_names(), command_names().len() as int, prefix) } else { Set::empty() };
    let rest = if is_channel_name(prefix) {
        prefixed_set(order, order.len() as int, prefix)
    } else if !slash {
        let nicks = match users {
            Some(u) => nick_set(u, u.len() as int, search, lead),
            None => Set::empty(),
        };
        nicks.union(prefixed_set(order, order.len() as int, prefix))
    } else {
        Set::empty()
    };
    cmds.union(rest)
}

/// Strictly increasing in lexicographic order (so no entry twice).
pub open spec fn strictly_sorted(s: Seq<Seq<char>>) -> bool {
    forall|i: int, j: int| 0 <= i < j < s.len() ==> lex_lt(#[trigger] s[i], #[trigger] s[j])
}

proof fn lemma_lex_lt_le_trans(a: Seq<char>, b: Seq<char>, c: Seq<char>)
    requires
        lex_lt(a, b),
        lex_le(b, c),
    ensures
        lex_lt(a, c),
{
    lemma_lex_le_trans(a, b, c);
    if a == c {
        lemma_lex_le_total(b, c);
    }
}

/// Inserts `s` into a strictly sorted list unless it is there already.
fn insert_sorted_unique(v: &mut Vec<String>, s: String)
    requires
        strictly_sorted(strings_view(old(v)@)),
    ensures
        strictly_sorted(strings_view(final(v)@)),
        strings_view(final(v)@).to_set() == strings_view(old(v)@).to_set().insert(s@),
{
    let ghost o = strings_view(v@);
    let sc = chars_of(s.as_str());
    let mut p: usize = 0;
    while p < v.len() && !chars_lex_le(sc.as_slice(), chars_of(v[p].as_str()).as_slice())
        invariant
            p <= v@.len(),
            o == strings_view(v@),
            sc@ == s@,
            forall|k: int| 0 <= k < p ==> lex_lt(#[trigger] o[k], s@),
        decreases v@.len() - p,
    {
        proof {
            lemma_lex_le_total(s@, o[p as int]);
        }
        p += 1;
    }
    if p < v.len() && str_equal(v[p].as_str(), s.as_str()) {
        assert(strings_view(v@).to_set() =~= o.to_set().insert(s@)) by {
            assert(o[p as int] == s@);
        }
        return;
    }
    proof {
        if p < o.len() {
            assert(lex_lt(s@, o[p as int]));
            assert forall|k: int| p <= k < o.len() implies lex_lt(s@, #[trigger] o[k]) by {
                if k > p {
                    lemma_lex_lt_le_trans(s@, o[p as int], o[k]);
                }
            }
        }
    }
    let ghost sv = s@;
    v.insert(p, s);
    proof {
        let n = strings_view(v@);
        assert(n =~= o.insert(p as int, sv));
        assert forall|i: int, j: int| 0 <= i < j < n.len() implies lex_lt(#[trigger] n[i], #[trigger] n[j]) by {
            if i < p && j > p {
                assert(n[j] == o[j - 1]);
                lemma_lex_le_total(o[i], o[j - 1]);
            } else if i == p {
                assert(n[j] == o[j - 1]);
            } else if i > p {
                assert(n[i] == o[i - 1]);
                assert(n[j] == o[j - 1]);
            }
        }
        assert forall|c: Seq<char>| n.contains(c) <==> #[trigger] o.to_set().insert(sv).contains(c) by {
            if n.contains(c) {
                let i = choose|i: int| 0 <= i < n.len() && n[i] == c;
                if i < p {
                    assert(o[i] == c);
                } else if i > p {
                    assert(o[i - 1] == c);
                }
            }
            if o.contains(c) {
                let i = choose|i: int| 0 <= i < o.len() && o[i] == c;
                if i < p {
                    assert(n[i] == c);
                } else {
                    assert(n[i + 1] == c);
                }
            }
            if c == sv {
                assert(n[p as int] == c);
            }
        }
        assert(n.to_set() =~= o.to_set().insert(sv));
    }
}

impl InputState {
    /// Create a new InputState with default values.
    pub fn new() -> (r: Self)
        ensures
            is_empty_input(r),
    {
        Self::default()
    }

    /// The byte bounds `(start, end)` of the last word in the message input:
    /// it starts at the character after the last whitespace character and
    /// ends at the end of the input. The start falls between two characters.
    pub fn current_last_word_bounds(&self) -> (r: (usize, usize))
        ensures
            (r.0 as int, r.1 as int) == last_word_bounds(self.message_input@),
            is_char_boundary_at(self.message_input@, r.0 as int),
            char_index_at(self.message_input@, r.0 as int) == word_start_char(self.message_input@),
    {
        let v = chars_of(self.message_input.as_str());
        let total = utf8_byte_len(self.message_input.as_str());
        let i = last_word_start(&v);
        let start = utf8_prefix_len(v.as_slice(), i, total);
        proof {
            lemma_boundary_unique(v@, i as int, start as int);
        }
        (start, total)
    }

    /// Replaces the last word (from byte `last_word_start`, which must fall
    /// between two characters) with `completion` plus a suffix (`: ` after a
    /// nick at the start of the line, a space after a command, a channel or a
    /// later word; see `completed_input`),
    /// and leaves history navigation.
    pub fn apply_completion(&mut self, completion: &str, last_word_start: usize, _last_word_end: usize)
        requires
            is_char_boundary_at(old(self).message_input@, last_word_start as int),
        ensures
            final(self)@ == after_completion(old(self)@, completion@, char_index_at(old(self).message_input@,
                last_word_start as int)),
    {
        let v = chars_of(self.message_input.as_str());
        let j = char_index_of_byte(v.as_slice(), last_word_start);
        let (lo, hi) = trim_bounds(v.as_slice(), 0, j);
        assert(v@.subrange(0, j as int) =~= v@.take(j as int));
        let is_first_token = lo == hi;
        let cv = chars_of(completion);
        let not_nick = cv.len() > 0 && (cv[0] == '/' || cv[0] == '#' || cv[0] == '&');
        let suffix = if not_nick { " " } else if is_first_token { ": " } else { " " };
        let before = string_from_chars(v.as_slice(), 0, j);
        self.message_input = concat3(before.as_str(), completion, suffix);
        self.history_pos = None;
        self.history_saved_input = None;
    }

    /// Cycle through tab completion candidates. Returns whether a completion
    /// was applied (there are candidates).
    pub fn cycle_completion(&mut self, direction: isize) -> (r: bool)
        requires
            old(self).completions@.len() <= isize::MAX,
            old(self).completion_index matches Some(i) ==> i <= isize::MAX && isize::MIN <= i + direction <= isize::MAX,
        ensures
            r == (old(self).completions@.len() > 0),
            !r ==> *final(self) == *old(self),
            r ==> {
                let idx = next_completion_index(old(self).completion_index, direction as int,
                    old(self).completions@.len() as int);
                final(self)@ == InputView {
                    completion_index: Some(idx as usize),
                    ..after_completion(old(self)@, strings_view(old(self).completions@)[idx],
                        word_start_char(old(self).message_input@))
                }
            },
    {
        let len = self.completions.len();
        if len == 0 {
            return false;
        }
        let next: usize = match self.completion_index {
            Some(idx) => {
                let t: isize = idx as isize + direction;
                if t >= 0 {
                    (t as usize) % len
                } else {
                    let a = ((-(t as i128)) as u128 % (len as u128)) as usize;
                    proof {
                        let x = -(t as int);
                        let l = len as int;
                        let q = x / l;
                        let ti = t as int;
                        let ai = a as int;
                        vstd::arithmetic::div_mod::lemma_fundamental_div_mod(x, l);
                        assert(ai == x % l);
                        if a == 0 {
                            assert(ti == (-q) * l + 0) by (nonlinear_arith)
                                requires x == l * q + ai, ti == -x, ai == 0;
                            vstd::arithmetic::div_mod::lemma_fundamental_div_mod_converse(ti, l, -q, 0);
                        } else {
                            assert(ti == (-q - 1) * l + (l - ai)) by (nonlinear_arith)
                                requires x == l * q + ai, ti == -x;
                            vstd::arithmetic::div_mod::lemma_fundamental_div_mod_converse(ti, l, -q - 1, l - ai);
                        }
                    }
                    if a == 0 { 0 } else { len - a }
                }
            },
            None => 0,
        };
        self.completion_index = Some(next);
        let comp = self.completions[next].clone();
        let (start, end) = self.current_last_word_bounds();
        self.apply_completion(comp.as_str(), start, end);
        true
    }

    /// Navigate up (to older entries) in command history.
    pub fn history_up(&mut self)
        ensures
            final(self)@ == history_up_view(old(self)@),
    {
        if self.history.len() == 0 {
            return;
        }
        match self.history_pos {
            None => {
                self.history_saved_input = Some(self.message_input.clone());
                self.history_pos = Some(self.history.len() - 1);
            },
            Some(pos) => {
                if pos > 0 {
                    self.history_pos = Some(pos - 1);
                }
            },
        }
        match self.history_pos {
            Some(pos) => {
                if pos < self.history.len() {
                    self.message_input = self.history[pos].clone();
                }
            },
            None => {},
        }
    }

    /// Navigate down (to newer entries) in command history.
    pub fn history_down(&mut self)
        requires
            old(self).history_pos matches Some(p) ==> p < usize::MAX,
        ensures
            final(self)@ == history_down_view(old(self)@),
    {
        match self.history_pos {
            Some(pos) => {
                if pos + 1 < self.history.len() {
                    self.history_pos = Some(pos + 1);
                    self.message_input = self.history[pos + 1].clone();
                } else {
                    self.history_pos = None;
                    let saved = self.history_saved_input.take();
                    self.message_input = match saved {
                        Some(t) => t,
                        None => String::new(),
                    };
                }
            },
            None => {},
        }
    }

    /// Collect tab completion candidates for `prefix`, sorted and without
    /// duplicates: commands for `/`, buffer names for `#` or `&`, otherwise the
    /// active buffer's nicks (with `@` kept for `@mentions`) and buffer names.
    pub fn collect_completions(&self, prefix: &str, buffers_order: &[String], active_buffer: &str,
        buffers: &BufferMap) -> (r: Vec<String>)
        requires
            buffers.wf(),
        ensures
            strictly_sorted(strings_view(r@)),
            strings_view(r@).to_set() == completion_candidates(prefix@, strings_view(buffers_order@),
                users_of(buffers.map(), active_buffer@)),
    {
        let pv = chars_of(prefix);
        let slash = pv.len() > 0 && pv[0] == '/';
        let at = !slash && pv.len() > 0 && pv[0] == '@';
        let search: String = if at { string_from_chars(pv.as_slice(), 1, pv.len()) } else { to_owned_string(prefix) };
        let lead: &str = if at { "@" } else { "" };
        assert(pv@.subrange(1, pv@.len() as int) =~= pv@.drop_first());
        proof {
            reveal_strlit("");
            assert(""@ =~= Seq::<char>::empty());
        }
        let sv = chars_of(search.as_str());
        let mut out: Vec<String> = Vec::new();
        assert(strings_view(out@).to_set() =~= Set::<Seq<char>>::empty());
        let ghost order = strings_view(buffers_order@);
        if slash {
            let commands: Vec<&str> = vec!["/join", "/j", "/part", "/p", "/msg", "/privmsg", "/me", "/whois", "/w",
                "/topic", "/t", "/kick", "/k", "/nick", "/quit", "/exit", "/help"];
            assert(commands@.map_values(|c: &str| c@) =~= command_names());
            let mut i: usize = 0;
            while i < commands.len()
                invariant
                    i <= commands@.len(),
                    commands@.map_values(|c: &str| c@) == command_names(),
                    pv@ == prefix@,
                    strictly_sorted(strings_view(out@)),
                    strings_view(out@).to_set() == prefixed_set(command_names(), i as int, prefix@),
                decreases commands@.len() - i,
            {
                let cv = chars_of(commands[i]);
                if chars_have_prefix(cv.as_slice(), pv.as_slice()) {
                    insert_sorted_unique(&mut out, to_owned_string(commands[i]));
                    assert(prefixed_set(command_names(), i + 1, prefix@) =~=
                        prefixed_set(command_names(), i as int, prefix@).insert(command_names()[i as int]));
                } else {
                    assert(prefixed_set(command_names(), i + 1, prefix@) =~= prefixed_set(command_names(), i as int, prefix@));
                }
                i += 1;
            }
        }
        let ghost cmds = strings_view(out@).to_set();
        if is_channel_name_exec(&pv) {
            add_prefixed(&mut out, buffers_order, &pv);
            assert(strings_view(out@).to_set() =~= completion_candidates(prefix@, order,
                users_of(buffers.map(), active_buffer@)));
        } else if !slash {
            match buffers.get(active_buffer) {
                Some(buffer) => {
                    add_nicks(&mut out, &buffer.users, &sv, lead);
                },
                None => {},
            }
            let ghost nicks = strings_view(out@).to_set();
            add_prefixed(&mut out, buffers_order, &pv);
            assert(strings_view(out@).to_set() =~= completion_candidates(prefix@, order,
                users_of(buffers.map(), active_buffer@)));
        } else {
            assert(strings_view(out@).to_set() =~= completion_candidates(prefix@, order,
                users_of(buffers.map(), active_buffer@)));
        }
        out
    }
}

/// The users of the buffer named `k`, when there is one.
pub open spec fn users_of(m: Map<Seq<char>, crate::buffer::BufferView>, k: Seq<char>) -> Option<Seq<UserView>> {
    if m.contains_key(k) { Some(m[k].users) } else { None }
}

fn is_channel_name_exec(v: &Vec<char>) -> (r: bool)
    ensures
        r == is_channel_name(v@),
{
    v.len() > 0 && (v[0] == '#' || v[0] == '&')
}

/// Adds each name of `list` that starts with `p`.
fn add_prefixed(out: &mut Vec<String>, list: &[String], p: &Vec<char>)
    requires
        strictly_sorted(strings_view(old(out)@)),
    ensures
        strictly_sorted(strings_view(final(out)@)),
        strings_view(final(out)@).to_set() == strings_view(old(out)@).to_set().union(
            prefixed_set(strings_view(list@), list@.len() as int, p@)),
{
    let ghost base = strings_view(out@).to_set();
    let ghost l = strings_view(list@);
    let mut i: usize = 0;
    assert(prefixed_set(l, 0, p@) =~= Set::<Seq<char>>::empty());
    assert(base.union(Set::<Seq<char>>::empty()) =~= base);
    while i < list.len()
        invariant
            i <= list@.len(),
            l == strings_view(list@),
            strictly_sorted(strings_view(out@)),
            strings_view(out@).to_set() == base.union(prefixed_set(l, i as int, p@)),
        decreases list@.len() - i,
    {
        let cv = chars_of(list[i].as_str());
        if chars_have_prefix(cv.as_slice(), p.as_slice()) {
            insert_sorted_unique(out, list[i].clone());
            assert(prefixed_set(l, i + 1, p@) =~= prefixed_set(l, i as int, p@).insert(l[i as int]));
            assert(base.union(prefixed_set(l, i + 1, p@)) =~= base.union(prefixed_set(l, i as int, p@)).insert(l[i as int]));
        } else {
            assert(prefixed_set(l, i + 1, p@) =~= prefixed_set(l, i as int, p@));
        }
        i += 1;
    }
}

/// Adds `lead` followed by each nick of `users` that starts with `p`.
fn add_nicks(out: &mut Vec<String>, users: &Vec<crate::protocol::UserInfo>, p: &Vec<char>, lead: &str)
    requires
        strictly_sorted(strings_view(old(out)@)),
    ensures
        strictly_sorted(strings_view(final(out)@)),
        strings_view(final(out)@).to_set() == strings_view(old(out)@).to_set().union(
            nick_set(crate::protocol::users_view(users@), users@.len() as int, p@, lead@)),
{
    let ghost base = strings_view(out@).to_set();
    let ghost u = crate::protocol::users_view(users@);
    let mut i: usize = 0;
    assert(nick_set(u, 0, p@, lead@) =~= Set::<Seq<char>>::empty());
    assert(base.union(Set::<Seq<char>>::empty()) =~= base);
    while i < users.len()
        invariant
            i <= users@.len(),
            u == crate::protocol::users_view(users@),
            strictly_sorted(strings_view(out@)),
            strings_view(out@).to_set() == base.union(nick_set(u, i as int, p@, lead@)),
        decreases users@.len() - i,
    {
        let nv = chars_of(users[i].nick.as_str());
        if chars_have_prefix(nv.as_slice(), p.as_slice()) {
            let c = concat2(lead, users[i].nick.as_str());
            insert_sorted_unique(out, c);
            assert(nick_set(u, i + 1, p@, lead@) =~= nick_set(u, i as int, p@, lead@).insert(lead@ + u[i as int].nick));
            assert(base.union(nick_set(u, i + 1, p@, lead@)) =~= base.union(nick_set(u, i as int, p@, lead@)).insert(lead@ + u[i as int].nick));
        } else {
            assert(nick_set(u, i + 1, p@, lead@) =~= nick_set(u, i as int, p@, lead@));
        }
        i += 1;
    }
}

/// A byte offset reached after `j` characters is a boundary, and `j` is the
/// character index there.
/// Where the last word of `v` starts (see `word_start_char`).
pub(crate) fn last_word_start(v: &Vec<char>) -> (i: usize)
    ensures
        i as int == word_start_char(v@),
        i <= v@.len(),
{
    proof {
        lemma_last_ws_index(v@);
    }
    let mut i = v.len();
    while i > 0 && !char_is_whitespace(v[i - 1])
        invariant
            i <= v@.len(),
            forall|j: int| i <= j < v@.len() ==> !unicode_whitespace(#[trigger] v@[j]),
        decreases i,
    {
        i -= 1;
    }
    proof {
        let s = v@;
        match last_ws_index(s) {
            Some(k) => {
                if k < i as int - 1 {
                    assert(unicode_whitespace(s[i - 1]));
                } else if k > i as int - 1 {
                    assert(!unicode_whitespace(s[k]));
                }
            },
            None => {
                if i > 0 {
                    assert(!unicode_whitespace(s[i - 1]));
                }
            },
        }
    }
    i
}

proof fn lemma_boundary_unique(s: Seq<char>, j: int, b: int)
    requires
        0 <= j <= s.len(),
        utf8_len(s.take(j)) == b,
    ensures
        is_char_boundary_at(s, b),
        char_index_at(s, b) == j,
{
    assert(is_char_boundary_at(s, b));
    let c = char_index_at(s, b);
    if c < j {
        crate::text::lemma_utf8_len_prefix_lt(s, c, j);
    } else if c > j {
        crate::text::lemma_utf8_len_prefix_lt(s, j, c);
    }
}

} // verus!
