//! What the keys of the message input do: Enter sends the line (or runs it
//! as a command), Tab completes the last word, Escape clears the input.

use vstd::prelude::*;
use crate::commands::{CommandEffect, command_effect, topic_of, handle_user_command};
use crate::config::strings_view;
use crate::events::{log_line, make_log_line, is_channel, is_channel_name};
use crate::input_state::{InputState, InputView, word_start_char, last_word_start,
    strictly_sorted, completion_candidates, users_of, next_completion_index, after_completion};
use crate::protocol::{BackendAction, ActionView};
use crate::state::ClientState;
use crate::text::{chars_of, str_equal, trim_bounds, trim_spec,
    string_from_chars};

verus! {

/// What pressing Enter does with the non-empty line `m`: a line starting with
/// `/` is a command (see `command_effect`); any other line is sent to the
/// active buffer when connected (nothing happens in the system buffer), and
/// a warning is logged when not connected.
pub open spec fn enter_effect(m: Seq<char>, active: Seq<char>, connected: bool, topic: Option<Seq<char>>,
    ts: Seq<char>) -> CommandEffect {
    if m[0] == '/' {
        command_effect(m, active, topic)
    } else if !connected {
        CommandEffect::Log(log_line(ts, "⚠ Not connected: message not sent"@))
    } else if active != "System"@ {
        CommandEffect::Send(ActionView::SendMessage { target: active, text: m })
    } else {
        CommandEffect::Nothing
    }
}

/// Whether the line `m` goes into the input history: a command always, a
/// plain line when it was sent.
pub open spec fn enter_keeps(m: Seq<char>, e: CommandEffect) -> bool {
    if m[0] == '/' { !(e is NotCommand) } else { e is Send }
}

/// The input after Enter: empty, out of history navigation, with the line
/// added to the history when `keep`.
pub open spec fn input_after_enter(v: InputView, keep: bool) -> InputView {
    InputView {
        message_input: Seq::empty(),
        history_pos: None,
        history_saved_input: None,
        history: if keep { v.history.push(v.message_input) } else { v.history },
        ..v
    }
}

/// Pressing Enter in the message input. An empty input does nothing. Else
/// the line's effect (see `enter_effect`) is carried out: the action to send
/// is returned, a log line is appended to the system log, `/nick` updates
/// `nickname`; the input is cleared (see `input_after_enter`). `ts` is the
/// current time as shown in the log.
pub fn submit_input(input: &mut InputState, state: &mut ClientState, nickname: &mut String, ts: &str)
    -> (r: Option<BackendAction>)
    requires
        old(state).wf(),
    ensures
        final(state).buffers == old(state).buffers,
        final(state).buffers_order == old(state).buffers_order,
        final(state).active_buffer == old(state).active_buffer,
        final(state).is_connected == old(state).is_connected,
        final(state).networks == old(state).networks,
        final(state).expanded_networks == old(state).expanded_networks,
        final(state).status_messages == old(state).status_messages,
        old(input).message_input@.len() == 0 ==> {
            &&& r is None
            &&& *final(input) == *old(input)
            &&& final(state).system_log == old(state).system_log
            &&& final(nickname)@ == old(nickname)@
        },
        old(input).message_input@.len() > 0 ==> ({
            let m = old(input).message_input@;
            let active = old(state).active_buffer@;
            let e = enter_effect(m, active, old(state).is_connected, topic_of(old(state).buffers.map(), active), ts@);
            &&& final(input)@ == input_after_enter(old(input)@, enter_keeps(m, e))
            &&& match e {
                CommandEffect::Send(a) => r is Some && r.unwrap()@ == a
                    && strings_view(final(state).system_log@) == strings_view(old(state).system_log@),
                CommandEffect::Log(l) => r is None
                    && strings_view(final(state).system_log@) == strings_view(old(state).system_log@).push(l),
                _ => r is None && strings_view(final(state).system_log@) == strings_view(old(state).system_log@),
            }
            &&& final(nickname)@ == match e {
                CommandEffect::Send(ActionView::Nick(n)) => n,
                _ => old(nickname)@,
            }
        }),
{
    if input.message_input.as_str().is_empty() {
        return None;
    }
    let line = input.message_input.clone();
    let v = chars_of(line.as_str());
    let ghost m = line@;
    let ghost hist = input@.history;
    let mut keep = false;
    let mut out: Option<BackendAction> = None;
    if v[0] == '/' {
        let (is_cmd, action) = handle_user_command(line.as_str(), state.active_buffer.as_str(), &state.buffers,
            &mut state.system_log, nickname);
        keep = is_cmd;
        out = action;
    } else if state.is_connected {
        if !str_equal(state.active_buffer.as_str(), "System") {
            out = Some(BackendAction::SendMessage { target: state.active_buffer.clone(), text: line.clone() });
            keep = true;
        }
    } else {
        let note = make_log_line(ts, "⚠ Not connected: message not sent");
        let ghost before = state.system_log@;
        state.system_log.push(note);
        assert(strings_view(state.system_log@) =~= strings_view(before).push(log_line(ts@,
            "⚠ Not connected: message not sent"@)));
    }
    if keep {
        input.history.push(line);
        assert(strings_view(input.history@) =~= hist.push(m));
    }
    input.history_pos = None;
    input.history_saved_input = None;
    input.message_input = String::new();
    out
}

/// After each frame of typing: when the text changed and Tab was not the
/// key pressed, the completion in progress is dropped; the text is then
/// remembered for the next comparison.
pub fn note_edit(input: &mut InputState, tab_pressed: bool)
    ensures
        final(input)@ == ({
            let v = old(input)@;
            let reset = v.last_input_text != v.message_input && !tab_pressed;
            InputView {
                last_input_text: v.message_input,
                completions: if reset { Seq::empty() } else { v.completions },
                completion_index: if reset { None } else { v.completion_index },
                completion_prefix: if reset { None } else { v.completion_prefix },
                ..v
            }
        }),
{
    if !str_equal(input.last_input_text.as_str(), input.message_input.as_str()) && !tab_pressed {
        input.completions = Vec::new();
        input.completion_index = None;
        input.completion_prefix = None;
        assert(strings_view(input.completions@) =~= Seq::<Seq<char>>::empty());
    }
    input.last_input_text = input.message_input.clone();
}

/// Escape: the input is cleared, history navigation and any completion in
/// progress are left.
pub fn cancel_input(input: &mut InputState)
    ensures
        final(input)@ == (InputView {
            message_input: Seq::empty(),
            history_pos: None,
            history_saved_input: None,
            completions: Seq::empty(),
            completion_index: None,
            completion_prefix: None,
            ..old(input)@
        }),
{
    input.message_input = String::new();
    input.history_pos = None;
    input.history_saved_input = None;
    input.completions = Vec::new();
    input.completion_index = None;
    input.completion_prefix = None;
    assert(strings_view(input.completions@) =~= Seq::<Seq<char>>::empty());
}

/// The word that Tab completes: the last word of the input, trimmed.
pub open spec fn tab_prefix(s: Seq<char>) -> Seq<char> {
    trim_spec(s.subrange(word_start_char(s), s.len() as int))
}

/// Pressing Tab (`backwards` with Shift). When there are no candidates yet,
/// they are collected for the last word (see `tab_prefix` and
/// `InputState::collect_completions`), and the word and whether it names a
/// channel are remembered. Then, when there are candidates, the next one
/// (the previous one when `backwards`) replaces the last word (see
/// `InputState::cycle_completion`). Returns whether a completion was applied.
/// A list of more than `isize::MAX` candidates, which no machine can hold,
/// is left alone.
pub fn tab_complete(input: &mut InputState, backwards: bool, state: &ClientState) -> (r: bool)
    requires
        state.wf(),
        old(input).completion_index matches Some(i) ==> i < isize::MAX,
    ensures
        ({
            let pre = old(input)@;
            let post = final(input)@;
            let w = tab_prefix(pre.message_input);
            &&& pre.completions.len() > 0 ==> {
                &&& post.completions == pre.completions
                &&& post.completion_prefix == pre.completion_prefix
                &&& post.completion_target_channel == pre.completion_target_channel
            }
            &&& pre.completions.len() == 0 ==> {
                &&& strictly_sorted(post.completions)
                &&& post.completions.to_set() == completion_candidates(w, strings_view(state.buffers_order@),
                    users_of(state.buffers.map(), state.active_buffer@))
                &&& post.completion_prefix == Some(w)
                &&& post.completion_target_channel == is_channel_name(w)
            }
            &&& r == (0 < post.completions.len() <= isize::MAX)
            &&& !r ==> post == InputView {
                completions: post.completions,
                completion_prefix: post.completion_prefix,
                completion_target_channel: post.completion_target_channel,
                ..pre
            }
            &&& r ==> {
                let idx = next_completion_index(pre.completion_index, if backwards { -1int } else { 1int },
                    post.completions.len() as int);
                post == InputView {
                    completion_index: Some(idx as usize),
                    completions: post.completions,
                    completion_prefix: post.completion_prefix,
                    completion_target_channel: post.completion_target_channel,
                    ..after_completion(pre, post.completions[idx], word_start_char(pre.message_input))
                }
            }
        }),
{
    let v = chars_of(input.message_input.as_str());
    let ghost pre = input@;
    if input.completions.len() == 0 {
        let start = last_word_start(&v);
        let (lo, hi) = trim_bounds(v.as_slice(), start, v.len());
        assert(v@.subrange(start as int, v@.len() as int) =~= pre.message_input.subrange(
            word_start_char(pre.message_input), pre.message_input.len() as int));
        let prefix = string_from_chars(v.as_slice(), lo, hi);
        let found = input.collect_completions(prefix.as_str(), state.buffers_order.as_slice(),
            state.active_buffer.as_str(), &state.buffers);
        input.completions = found;
        input.completion_target_channel = is_channel(prefix.as_str());
        input.completion_prefix = Some(prefix);
    }
    let n = input.completions.len();
    if n == 0 || n > isize::MAX as usize {
        return false;
    }
    let direction: isize = if backwards { -1 } else { 1 };
    input.cycle_completion(direction)
}

} // verus!
