//! IRC command handling (/join, /part, /msg, etc.).

use vstd::prelude::*;
use crate::buffers::BufferMap;
use crate::config::strings_view;
use crate::events::{is_channel, is_channel_name};
use crate::protocol::{BackendAction, ActionView};
use crate::text::{chars_of, trim_bounds, trim_spec, words, split_words, join_words, join_from, str_equal,
    str_to_lowercase, unicode_lowercase, to_owned_string, concat2, concat3, concat4};

verus! {

/// What a line typed by the user does.
pub enum CommandEffect {
    /// Not a command (does not start with `/`): it is not consumed.
    NotCommand,
    /// A command that sends this action.
    Send(ActionView),
    /// A command that only writes this line to the system log.
    Log(Seq<char>),
    /// A command that does nothing visible.
    Nothing,
}

/// A channel argument: kept when it starts with `#` or `&`, else `#` is put
/// in front.
pub open spec fn channel_arg(s: Seq<char>) -> Seq<char> {
    if is_channel_name(s) { s } else { "#"@ + s }
}

/// `None` for an empty text, else the text.
pub open spec fn nonempty(s: Seq<char>) -> Option<Seq<char>> {
    if s.len() == 0 { None } else { Some(s) }
}

/// The topic of the buffer named `k`, when there is such a buffer.
pub open spec fn topic_of(m: Map<Seq<char>, crate::buffer::BufferView>, k: Seq<char>) -> Option<Seq<char>> {
    if m.contains_key(k) { Some(m[k].topic) } else { None }
}

/// The effect of the command `cmd` (lowercased) with arguments `rest`, typed
/// while `active` is the active buffer, whose topic is `topic` (when it exists).
pub open spec fn command_word_effect(cmd: Seq<char>, rest: Seq<Seq<char>>, active: Seq<char>,
    topic: Option<Seq<char>>) -> CommandEffect {
    if cmd == "join"@ || cmd == "j"@ {
        if rest.len() > 0 {
            CommandEffect::Send(ActionView::Join(channel_arg(rest[0])))
        } else {
            CommandEffect::Log("Usage: /join <channel>"@)
        }
    } else if cmd == "part"@ || cmd == "p"@ {
        if rest.len() > 0 {
            CommandEffect::Send(ActionView::Part {
                channel: channel_arg(rest[0]),
                message: nonempty(join_words(rest.drop_first())),
            })
        } else if is_channel_name(active) {
            CommandEffect::Send(ActionView::Part { channel: active, message: None })
        } else {
            CommandEffect::Log("Usage: /part <channel>"@)
        }
    } else if cmd == "msg"@ || cmd == "privmsg"@ {
        if rest.len() > 0 && join_words(rest.drop_first()).len() > 0 {
            CommandEffect::Send(ActionView::SendMessage { target: rest[0], text: join_words(rest.drop_first()) })
        } else {
            CommandEffect::Log("Usage: /msg <target> <message>"@)
        }
    } else if cmd == "me"@ {
        if join_words(rest).len() == 0 {
            CommandEffect::Log("Usage: /me <action>"@)
        } else if active != "System"@ {
            CommandEffect::Send(ActionView::SendMessage {
                target: active,
                text: "\x01ACTION "@ + join_words(rest) + "\x01"@,
            })
        } else {
            CommandEffect::Log("/me can only be used in a channel or PM"@)
        }
    } else if cmd == "whois"@ || cmd == "w"@ {
        if rest.len() > 0 {
            CommandEffect::Send(ActionView::Whois(rest[0]))
        } else {
            CommandEffect::Log("Usage: /whois <nick>"@)
        }
    } else if cmd == "topic"@ || cmd == "t"@ {
        if !is_channel_name(active) {
            CommandEffect::Log("/topic can only be used in a channel"@)
        } else if join_words(rest).len() > 0 {
            CommandEffect::Send(ActionView::SetTopic { channel: active, topic: join_words(rest) })
        } else {
            match topic {
                Some(t) => if t.len() == 0 {
                    CommandEffect::Log("No topic set for "@ + active)
                } else {
                    CommandEffect::Log("Topic for "@ + active + ": "@ + t)
                },
                None => CommandEffect::Nothing,
            }
        }
    } else if cmd == "kick"@ || cmd == "k"@ {
        if rest.len() == 0 {
            CommandEffect::Log("Usage: /kick <nick> [reason]"@)
        } else if is_channel_name(active) {
            CommandEffect::Send(ActionView::Kick {
                channel: active,
                nick: rest[0],
                reason: nonempty(join_words(rest.drop_first())),
            })
        } else {
            CommandEffect::Log("/kick can only be used in a channel"@)
        }
    } else if cmd == "nick"@ {
        if rest.len() > 0 {
            CommandEffect::Send(ActionView::Nick(rest[0]))
        } else {
            CommandEffect::Log("Usage: /nick <newnick>"@)
        }
    } else if cmd == "quit"@ || cmd == "exit"@ {
        CommandEffect::Send(ActionView::Quit(nonempty(join_words(rest))))
    } else if cmd == "help"@ {
        CommandEffect::Log("Supported commands: /join, /part, /msg, /me, /nick, /quit, /whois, /topic, /kick"@)
    } else {
        CommandEffect::Log("Unknown command: /"@ + cmd)
    }
}

/// The effect of the line `input`: once trimmed it must start with `/`; the
/// first word after it (lowercased) is the command, the other words its
/// arguments.
pub open spec fn command_effect(input: Seq<char>, active: Seq<char>, topic: Option<Seq<char>>) -> CommandEffect {
    let s = trim_spec(input);
    if !(s.len() > 0 && s[0] == '/') {
        CommandEffect::NotCommand
    } else {
        let ws = words(s.subrange(1, s.len() as int));
        let cmd = if ws.len() > 0 { unicode_lowercase(ws[0]) } else { unicode_lowercase(Seq::empty()) };
        let rest = if ws.len() > 0 { ws.drop_first() } else { ws };
        command_word_effect(cmd, rest, active, topic)
    }
}

/// `/quit` and `/exit` quit with the words after the command as the reason:
/// with no words there is no reason; with words `w1 .. wn` the reason is a
/// non-empty text that splits on whitespace back into exactly `w1 .. wn`
/// (the words joined by single spaces).
pub proof fn lemma_quit_reason(input: Seq<char>, active: Seq<char>, topic: Option<Seq<char>>)
    requires
        trim_spec(input).len() > 0,
        trim_spec(input)[0] == '/',
        ({
            let ws = words(trim_spec(input).subrange(1, trim_spec(input).len() as int));
            ws.len() > 0 && (unicode_lowercase(ws[0]) == "quit"@ || unicode_lowercase(ws[0]) == "exit"@)
        }),
    ensures
        ({
            let ws = words(trim_spec(input).subrange(1, trim_spec(input).len() as int));
            let rest = ws.drop_first();
            match command_effect(input, active, topic) {
                CommandEffect::Send(ActionView::Quit(reason)) => {
                    &&& rest.len() == 0 ==> reason is None
                    &&& rest.len() > 0 ==> (reason matches Some(r) && r.len() > 0 && words(r) == rest
                        && r == join_words(rest))
                },
                _ => false,
            }
        }),
{
    let s = trim_spec(input);
    let ws = words(s.subrange(1, s.len() as int));
    let rest = ws.drop_first();
    crate::text::lemma_words_are_words(s.subrange(1, s.len() as int));
    assert forall|i: int| 0 <= i < rest.len() implies crate::text::is_word(#[trigger] rest[i]) by {
        assert(rest[i] == ws[i + 1]);
    }
    crate::text::lemma_words_of_join(rest);
    let cmd = unicode_lowercase(ws[0]);
    reveal_strlit("quit");
    reveal_strlit("exit");
    reveal_strlit("join");
    reveal_strlit("j");
    reveal_strlit("part");
    reveal_strlit("p");
    reveal_strlit("msg");
    reveal_strlit("privmsg");
    reveal_strlit("me");
    reveal_strlit("whois");
    reveal_strlit("w");
    reveal_strlit("topic");
    reveal_strlit("t");
    reveal_strlit("kick");
    reveal_strlit("k");
    reveal_strlit("nick");
    assert(cmd.len() == 4 && (cmd[0] == 'q' || cmd[0] == 'e'));
    assert("join"@[0] == 'j' && "j"@[0] == 'j' && "part"@[0] == 'p' && "p"@[0] == 'p' && "msg"@[0] == 'm'
        && "privmsg"@[0] == 'p' && "me"@[0] == 'm' && "whois"@[0] == 'w' && "w"@[0] == 'w'
        && "topic"@[0] == 't' && "t"@[0] == 't' && "kick"@[0] == 'k' && "k"@[0] == 'k' && "nick"@[0] == 'n');
    assert(cmd != "join"@ && cmd != "j"@ && cmd != "part"@ && cmd != "p"@ && cmd != "msg"@
        && cmd != "privmsg"@ && cmd != "me"@ && cmd != "whois"@ && cmd != "w"@ && cmd != "topic"@
        && cmd != "t"@ && cmd != "kick"@ && cmd != "k"@ && cmd != "nick"@);
    if rest.len() == 0 {
        assert(join_words(rest).len() == 0);
    }
}

/// `o` carries the words `ws` joined by single spaces: nothing when there
/// are no words, else a text that splits back into exactly `ws`.
pub open spec fn carries_words(o: Option<Seq<char>>, ws: Seq<Seq<char>>) -> bool {
    if ws.len() == 0 {
        o is None
    } else {
        o matches Some(r) && words(r) == ws && r == join_words(ws)
    }
}

proof fn lemma_carries_words(ws: Seq<Seq<char>>)
    requires
        forall|i: int| 0 <= i < ws.len() ==> crate::text::is_word(#[trigger] ws[i]),
    ensures
        carries_words(nonempty(join_words(ws)), ws),
        ws.len() > 0 <==> join_words(ws).len() > 0,
{
    crate::text::lemma_words_of_join(ws);
    if ws.len() == 0 {
        assert(join_words(ws).len() == 0);
    }
}

/// The message of `/msg` and `/privmsg`, the parting message of `/part` and
/// the reason of `/kick` are the words after their first argument, joined by
/// single spaces. `/msg` needs a target and some text, `/part` a channel (or
/// an active channel), `/kick` a nick and an active channel.
pub proof fn lemma_command_text_arguments(input: Seq<char>, active: Seq<char>, topic: Option<Seq<char>>)
    requires
        trim_spec(input).len() > 0,
        trim_spec(input)[0] == '/',
        words(trim_spec(input).subrange(1, trim_spec(input).len() as int)).len() > 0,
    ensures
        ({
            let ws = words(trim_spec(input).subrange(1, trim_spec(input).len() as int));
            let cmd = unicode_lowercase(ws[0]);
            let rest = ws.drop_first();
            let e = command_effect(input, active, topic);
            &&& (cmd == "msg"@ || cmd == "privmsg"@) ==> if rest.len() >= 2 {
                e matches CommandEffect::Send(ActionView::SendMessage { target, text })
                    && target == rest[0] && carries_words(Some(text), rest.drop_first())
            } else {
                e is Log
            }
            &&& (cmd == "part"@ || cmd == "p"@) && rest.len() > 0 ==> {
                e matches CommandEffect::Send(ActionView::Part { channel, message })
                    && channel == channel_arg(rest[0]) && carries_words(message, rest.drop_first())
            }
            &&& (cmd == "kick"@ || cmd == "k"@) && rest.len() > 0 ==> if is_channel_name(active) {
                e matches CommandEffect::Send(ActionView::Kick { channel, nick, reason })
                    && channel == active && nick == rest[0] && carries_words(reason, rest.drop_first())
            } else {
                e is Log
            }
        }),
{
    let s = trim_spec(input);
    let ws = words(s.subrange(1, s.len() as int));
    let rest = ws.drop_first();
    crate::text::lemma_words_are_words(s.subrange(1, s.len() as int));
    if rest.len() > 0 {
        let args = rest.drop_first();
        assert forall|i: int| 0 <= i < args.len() implies crate::text::is_word(#[trigger] args[i]) by {
            assert(args[i] == ws[i + 2]);
            assert(crate::text::is_word(ws[i + 2]));
        }
        lemma_carries_words(args);
    }
    let cmd = unicode_lowercase(ws[0]);
    reveal_strlit("join");
    reveal_strlit("j");
    reveal_strlit("part");
    reveal_strlit("p");
    reveal_strlit("msg");
    reveal_strlit("privmsg");
    reveal_strlit("me");
    reveal_strlit("whois");
    reveal_strlit("w");
    reveal_strlit("topic");
    reveal_strlit("t");
    reveal_strlit("kick");
    reveal_strlit("k");
    if cmd == "msg"@ || cmd == "privmsg"@ {
        assert(cmd[0] == 'm' || cmd.len() == 7);
        assert(cmd != "join"@ && cmd != "j"@ && cmd != "part"@ && cmd != "p"@);
        if rest.len() >= 2 {
            assert(rest.drop_first().len() > 0);
        } else if rest.len() == 1 {
            assert(rest.drop_first().len() == 0);
        }
    }
    if cmd == "part"@ || cmd == "p"@ {
        assert(cmd[0] == 'p' && (cmd.len() == 4 || cmd.len() == 1));
        assert(cmd != "join"@ && cmd != "j"@);
    }
    if cmd == "kick"@ || cmd == "k"@ {
        assert(cmd[0] == 'k');
        assert(cmd != "join"@ && cmd != "j"@ && cmd != "part"@ && cmd != "p"@ && cmd != "msg"@
            && cmd != "privmsg"@ && cmd != "me"@ && cmd != "whois"@ && cmd != "w"@ && cmd != "topic"@
            && cmd != "t"@);
    }
}

/// `Some(s)` for a non-empty `s`, else `None`.
fn nonempty_string(s: String) -> (r: Option<String>)
    ensures
        match r {
            Some(t) => nonempty(s@) == Some(t@),
            None => nonempty(s@) is None,
        },
{
    if s.as_str().is_empty() { None } else { Some(s) }
}

/// A channel argument with `#` put in front when it has no channel prefix.
pub fn make_channel_arg(s: &str) -> (r: String)
    ensures
        r@ == channel_arg(s@),
{
    if is_channel(s) { to_owned_string(s) } else { concat2("#", s) }
}

/// Handle user commands starting with '/'.
/// Returns whether the input was a command (and should be cleared), and the
/// action to send to the backend, if any. Usage and error lines are appended
/// to `system_log`; `/nick` also updates `nickname_input`.
pub fn handle_user_command(
    message_input: &str,
    active_buffer: &str,
    buffers: &BufferMap,
    system_log: &mut Vec<String>,
    nickname_input: &mut String,
) -> (r: (bool, Option<BackendAction>))
    requires
        buffers.wf(),
    ensures
        ({
            let e = command_effect(message_input@, active_buffer@, topic_of(buffers.map(), active_buffer@));
            &&& r.0 == !(e is NotCommand)
            &&& match e {
                CommandEffect::Send(a) => r.1 is Some && r.1.unwrap()@ == a
                    && strings_view(final(system_log)@) == strings_view(old(system_log)@),
                CommandEffect::Log(l) => r.1 is None
                    && strings_view(final(system_log)@) == strings_view(old(system_log)@).push(l),
                _ => r.1 is None && strings_view(final(system_log)@) == strings_view(old(system_log)@),
            }
            &&& final(nickname_input)@ == match e {
                CommandEffect::Send(ActionView::Nick(n)) => n,
                _ => old(nickname_input)@,
            }
        }),
{
    let v = chars_of(message_input);
    let (lo, hi) = trim_bounds(v.as_slice(), 0, v.len());
    assert(v@.subrange(0, v@.len() as int) =~= v@);
    let ghost s = trim_spec(message_input@);
    if !(lo < hi && v[lo] == '/') {
        return (false, None);
    }
    assert(s.subrange(1, s.len() as int) =~= v@.subrange(lo + 1, hi as int));
    let ws = split_words(v.as_slice(), lo + 1, hi);
    let ghost wv = ws@.map_values(|w: String| w@);
    let cmd = if ws.len() > 0 { str_to_lowercase(ws[0].as_str()) } else { str_to_lowercase("") };
    let ghost rest = if wv.len() > 0 { wv.drop_first() } else { wv };
    proof {
        reveal_strlit("");
        assert(""@ =~= Seq::<char>::empty());
        if wv.len() >= 1 {
            assert(wv.subrange(1, wv.len() as int) =~= wv.drop_first());
        }
        if wv.len() >= 2 {
            assert(wv.subrange(2, wv.len() as int) =~= rest.drop_first());
        }
        assert(wv.subrange(wv.len() as int, wv.len() as int) =~= Seq::<Seq<char>>::empty());
    }
    let ghost topic = topic_of(buffers.map(), active_buffer@);
    let ghost e = command_word_effect(cmd@, rest, active_buffer@, topic);
    assert(e == command_effect(message_input@, active_buffer@, topic));
    let c = cmd.as_str();
    let mut action: Option<BackendAction> = None;
    let mut line: Option<String> = None;
    if str_equal(c, "join") || str_equal(c, "j") {
        if ws.len() > 1 {
            action = Some(BackendAction::Join(make_channel_arg(ws[1].as_str())));
        } else {
            line = Some(to_owned_string("Usage: /join <channel>"));
        }
    } else if str_equal(c, "part") || str_equal(c, "p") {
        if ws.len() > 1 {
            let channel = make_channel_arg(ws[1].as_str());
            let message = nonempty_string(join_from(&ws, 2));
            action = Some(BackendAction::Part { channel, message });
        } else if is_channel(active_buffer) {
            action = Some(BackendAction::Part { channel: to_owned_string(active_buffer), message: None });
        } else {
            line = Some(to_owned_string("Usage: /part <channel>"));
        }
    } else if str_equal(c, "msg") || str_equal(c, "privmsg") {
        if ws.len() > 1 {
            let text = join_from(&ws, 2);
            if text.as_str().is_empty() {
                line = Some(to_owned_string("Usage: /msg <target> <message>"));
            } else {
                action = Some(BackendAction::SendMessage { target: ws[1].clone(), text });
            }
        } else {
            line = Some(to_owned_string("Usage: /msg <target> <message>"));
        }
    } else if str_equal(c, "me") {
        let text = join_from(&ws, 1);
        if text.as_str().is_empty() {
            line = Some(to_owned_string("Usage: /me <action>"));
        } else if !str_equal(active_buffer, "System") {
            let action_text = concat3("\x01ACTION ", text.as_str(), "\x01");
            action = Some(BackendAction::SendMessage { target: to_owned_string(active_buffer), text: action_text });
        } else {
            line = Some(to_owned_string("/me can only be used in a channel or PM"));
        }
    } else if str_equal(c, "whois") || str_equal(c, "w") {
        if ws.len() > 1 {
            action = Some(BackendAction::Whois(ws[1].clone()));
        } else {
            line = Some(to_owned_string("Usage: /whois <nick>"));
        }
    } else if str_equal(c, "topic") || str_equal(c, "t") {
        let new_topic = join_from(&ws, 1);
        if !is_channel(active_buffer) {
            line = Some(to_owned_string("/topic can only be used in a channel"));
        } else if !new_topic.as_str().is_empty() {
            action = Some(BackendAction::SetTopic { channel: to_owned_string(active_buffer), topic: new_topic });
        } else {
            match buffers.get(active_buffer) {
                Some(buffer) => {
                    if buffer.topic.as_str().is_empty() {
                        line = Some(concat2("No topic set for ", active_buffer));
                    } else {
                        line = Some(concat4("Topic for ", active_buffer, ": ", buffer.topic.as_str()));
                    }
                },
                None => {},
            }
        }
    } else if str_equal(c, "kick") || str_equal(c, "k") {
        if ws.len() <= 1 {
            line = Some(to_owned_string("Usage: /kick <nick> [reason]"));
        } else if is_channel(active_buffer) {
            let reason = nonempty_string(join_from(&ws, 2));
            action = Some(BackendAction::Kick {
                channel: to_owned_string(active_buffer),
                nick: ws[1].clone(),
                reason,
            });
        } else {
            line = Some(to_owned_string("/kick can only be used in a channel"));
        }
    } else if str_equal(c, "nick") {
        if ws.len() > 1 {
            *nickname_input = ws[1].clone();
            action = Some(BackendAction::Nick(ws[1].clone()));
        } else {
            line = Some(to_owned_string("Usage: /nick <newnick>"));
        }
    } else if str_equal(c, "quit") || str_equal(c, "exit") {
        let reason = nonempty_string(join_from(&ws, 1));
        action = Some(BackendAction::Quit(reason));
    } else if str_equal(c, "help") {
        line = Some(to_owned_string(
            "Supported commands: /join, /part, /msg, /me, /nick, /quit, /whois, /topic, /kick"));
    } else {
        line = Some(concat2("Unknown command: /", c));
    }
    match line {
        Some(l) => {
            let ghost before = system_log@;
            let ghost lv = l@;
            system_log.push(l);
            assert(strings_view(system_log@) =~= strings_view(before).push(lv));
        },
        None => {},
    }
    (true, action)
}

} // verus!
