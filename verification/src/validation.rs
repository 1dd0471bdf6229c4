//! Input validation for IRC protocol compliance (channel names, nicknames,
//! server addresses and message text).

use vstd::prelude::*;
use vstd::utf8::encode_utf8;
use crate::text::{utf8_len_exceeds, chars_of, to_owned_string, char_is_control, char_is_alphabetic, char_is_alphanumeric, push_char, push_str, string_from_chars, concat2, chars_contain_char, unicode_control, unicode_alphabetic, unicode_alphanumeric, is_ascii_digit, count_char, first_index_of, remove_chars,
    decimal, digit_char, utf8_len, utf8_width, lemma_utf8_len_is_encoding_len, is_ascii_seq};

verus! {

/// Length in bytes of the UTF-8 encoding of `s` (what `str::len` reports).
pub open spec fn byte_len(s: Seq<char>) -> nat {
    encode_utf8(s).len()
}

/// Whether `c` may not appear in a channel name.
pub open spec fn channel_char_invalid(c: char) -> bool {
    unicode_control(c) || c == ' ' || c == ',' || c == '\x07'
}

/// The error that channel-name validation reports for `s`, if any.
pub open spec fn channel_name_error(s: Seq<char>) -> Option<Seq<char>> {
    if s.len() == 0 {
        Some("Channel name cannot be empty"@)
    } else if !(s[0] == '#' || s[0] == '&') {
        Some("Channel name must start with # or &"@)
    } else if byte_len(s) > 50 {
        Some("Channel name too long (max 50 characters)"@)
    } else if exists|i: int| 0 <= i < s.len() && channel_char_invalid(#[trigger] s[i]) {
        Some("Channel name contains invalid characters"@)
    } else {
        None
    }
}

/// Validates an IRC channel name according to RFC 2812.
pub fn validate_channel_name(name: &str) -> (r: Result<(), String>)
    ensures
        match r {
            Ok(()) => channel_name_error(name@) is None,
            Err(e) => channel_name_error(name@) == Some(e@),
        },
{
    let chars = chars_of(name);
    if chars.len() == 0 {
        return Err(to_owned_string("Channel name cannot be empty"));
    }
    if !(chars[0] == '#' || chars[0] == '&') {
        return Err(to_owned_string("Channel name must start with # or &"));
    }
    if utf8_len_exceeds(chars.as_slice(), 50) {
        return Err(to_owned_string("Channel name too long (max 50 characters)"));
    }
    let mut i: usize = 0;
    while i < chars.len()
        invariant
            chars@ == name@,
            name@.len() > 0,
            name@[0] == '#' || name@[0] == '&',
            !(byte_len(name@) > 50),
            i <= chars@.len(),
            forall|j: int| 0 <= j < i ==> !channel_char_invalid(#[trigger] chars@[j]),
        decreases chars@.len() - i,
    {
        let c = chars[i];
        if char_is_control(c) || c == ' ' || c == ',' || c == '\x07' {
            assert(channel_char_invalid(name@[i as int]));
            assert(exists|k: int| 0 <= k < name@.len() && channel_char_invalid(#[trigger] name@[k]));
            return Err(to_owned_string("Channel name contains invalid characters"));
        }
        i += 1;
    }
    Ok(())
}

/// Whether `c` may start a nickname: a letter or one of `[ ] { } \ | _ ^`.
pub open spec fn nick_first_char_ok(c: char) -> bool {
    unicode_alphabetic(c) || c == '[' || c == ']' || c == '{' || c == '}' || c == '\\'
        || c == '|' || c == '_' || c == '^'
}

/// Whether `c` may appear in a nickname: alphanumeric or one of `- [ ] { } \ | _ ^`.
pub open spec fn nick_char_ok(c: char) -> bool {
    unicode_alphanumeric(c) || c == '-' || c == '[' || c == ']' || c == '{' || c == '}'
        || c == '\\' || c == '|' || c == '_' || c == '^'
}

/// The first character of `s` that may not appear in a nickname, if any.
pub open spec fn first_bad_nick_char(s: Seq<char>) -> Option<char>
    decreases s.len(),
{
    if s.len() == 0 {
        None
    } else if !nick_char_ok(s[0]) {
        Some(s[0])
    } else {
        first_bad_nick_char(s.drop_first())
    }
}

/// The error that nickname validation reports for `s`, if any.
pub open spec fn nickname_error(s: Seq<char>) -> Option<Seq<char>> {
    if s.len() == 0 {
        Some("Nickname cannot be empty"@)
    } else if byte_len(s) > 30 {
        Some("Nickname too long (max 30 characters)"@)
    } else if !nick_first_char_ok(s[0]) {
        Some("Nickname must start with a letter or special character"@)
    } else {
        match first_bad_nick_char(s) {
            Some(c) => Some("Invalid character '"@.push(c) + "' in nickname"@),
            None => None,
        }
    }
}

proof fn lemma_first_bad_nick_char(s: Seq<char>)
    ensures
        first_bad_nick_char(s) is None <==> forall|i: int| 0 <= i < s.len() ==> nick_char_ok(#[trigger] s[i]),
    decreases s.len(),
{
    if s.len() > 0 {
        lemma_first_bad_nick_char(s.drop_first());
        if first_bad_nick_char(s) is None {
            assert forall|i: int| 0 <= i < s.len() implies nick_char_ok(#[trigger] s[i]) by {
                if i > 0 {
                    assert(s[i] == s.drop_first()[i - 1]);
                }
            }
        } else if nick_char_ok(s[0]) {
            let i = choose|i: int| 0 <= i < s.drop_first().len() && !nick_char_ok(#[trigger] s.drop_first()[i]);
            assert(s[i + 1] == s.drop_first()[i]);
        }
    }
}

/// A nickname is accepted exactly when it is not empty, takes at most 30
/// bytes, starts with a letter or one of `[ ] { } \ | _ ^`, and every one of
/// its characters is a letter, a digit (alphanumeric) or one of
/// `- [ ] { } \ | _ ^`.
pub proof fn lemma_nickname_accepted(s: Seq<char>)
    ensures
        nickname_error(s) is None <==> {
            &&& s.len() > 0
            &&& byte_len(s) <= 30
            &&& (unicode_alphabetic(s[0]) || s[0] == '[' || s[0] == ']' || s[0] == '{' || s[0] == '}'
                || s[0] == '\\' || s[0] == '|' || s[0] == '_' || s[0] == '^')
            &&& forall|i: int| 0 <= i < s.len() ==> {
                ||| unicode_alphanumeric(#[trigger] s[i])
                ||| s[i] == '-' || s[i] == '[' || s[i] == ']' || s[i] == '{' || s[i] == '}'
                ||| s[i] == '\\' || s[i] == '|' || s[i] == '_' || s[i] == '^'
            }
        },
{
    lemma_first_bad_nick_char(s);
}

/// Validate IRC nickname according to RFC 2812.
pub fn validate_nickname(nick: &str) -> (r: Result<(), String>)
    ensures
        match r {
            Ok(()) => nickname_error(nick@) is None,
            Err(e) => nickname_error(nick@) == Some(e@),
        },
{
    let chars = chars_of(nick);
    if chars.len() == 0 {
        return Err(to_owned_string("Nickname cannot be empty"));
    }
    if utf8_len_exceeds(chars.as_slice(), 30) {
        return Err(to_owned_string("Nickname too long (max 30 characters)"));
    }
    let f = chars[0];
    if !(char_is_alphabetic(f) || f == '[' || f == ']' || f == '{' || f == '}' || f == '\\'
        || f == '|' || f == '_' || f == '^') {
        return Err(to_owned_string("Nickname must start with a letter or special character"));
    }
    let mut i: usize = 0;
    assert(nick@.subrange(0, nick@.len() as int) =~= nick@);
    while i < chars.len()
        invariant
            chars@ == nick@,
            nick@.len() > 0,
            !(byte_len(nick@) > 30),
            nick_first_char_ok(nick@[0]),
            i <= chars@.len(),
            first_bad_nick_char(nick@) == first_bad_nick_char(nick@.subrange(i as int, nick@.len() as int)),
        decreases chars@.len() - i,
    {
        let ghost rest = nick@.subrange(i as int, nick@.len() as int);
        assert(rest.drop_first() =~= nick@.subrange(i + 1, nick@.len() as int));
        let c = chars[i];
        assert(rest[0] == c);
        if !(char_is_alphanumeric(c) || c == '-' || c == '[' || c == ']' || c == '{' || c == '}'
            || c == '\\' || c == '|' || c == '_' || c == '^') {
            let mut e = to_owned_string("Invalid character '");
            push_char(&mut e, c);
            push_str(&mut e, "' in nickname");
            return Err(e);
        }
        i += 1;
    }
    assert(nick@.subrange(i as int, nick@.len() as int).len() == 0);
    Ok(())
}

/// Decimal value of a sequence of ASCII digits.
pub open spec fn digits_value(d: Seq<char>) -> nat
    decreases d.len(),
{
    if d.len() == 0 {
        0
    } else {
        digits_value(d.drop_last()) * 10 + ((d.last() as int) - ('0' as int)) as nat
    }
}

/// The digits part of a `u16` literal: `s` without one leading `+`.
pub open spec fn u16_digits(s: Seq<char>) -> Seq<char> {
    if s.len() > 0 && s[0] == '+' { s.drop_first() } else { s }
}

/// Whether every character of `d` is an ASCII digit.
pub open spec fn all_ascii_digits(d: Seq<char>) -> bool {
    forall|i: int| 0 <= i < d.len() ==> is_ascii_digit(#[trigger] d[i])
}

/// What `str::parse::<u16>` gives for `s`: an optional `+`, then one or more ASCII
/// digits whose value fits in 16 bits.
pub open spec fn parse_u16_spec(s: Seq<char>) -> Option<u16> {
    let d = u16_digits(s);
    if d.len() == 0 || !all_ascii_digits(d) || digits_value(d) > 65535 {
        None
    } else {
        Some(digits_value(d) as u16)
    }
}

pub proof fn lemma_digits_value_monotone(d: Seq<char>, i: int)
    requires
        0 <= i <= d.len(),
        forall|k: int| 0 <= k < d.len() ==> is_ascii_digit(#[trigger] d[k]),
    ensures
        digits_value(d.subrange(0, i)) <= digits_value(d),
    decreases d.len() - i,
{
    if i < d.len() {
        lemma_digits_value_monotone(d, i + 1);
        assert(d.subrange(0, i + 1).drop_last() =~= d.subrange(0, i));
    } else {
        assert(d.subrange(0, i) =~= d);
    }
}

/// Parses a decimal `u16` the way `str::parse::<u16>` does.
pub fn parse_u16(s: &[char]) -> (r: Option<u16>)
    ensures
        r == parse_u16_spec(s@),
{
    let start: usize = if s.len() > 0 && s[0] == '+' { 1 } else { 0 };
    let ghost d = u16_digits(s@);
    assert(d =~= s@.subrange(start as int, s@.len() as int));
    if start >= s.len() {
        return None;
    }
    let mut value: u32 = 0;
    let mut i = start;
    while i < s.len()
        invariant
            start <= i <= s@.len(),
            start < s@.len(),
            d =~= s@.subrange(start as int, s@.len() as int),
            d == u16_digits(s@),
            forall|k: int| start <= k < i ==> is_ascii_digit(#[trigger] s@[k]),
            value as nat == digits_value(s@.subrange(start as int, i as int)),
            value <= 65535,
        decreases s@.len() - i,
    {
        let c = s[i];
        if !('0' <= c && c <= '9') {
            assert(!is_ascii_digit(d[i - start]));
            assert(!all_ascii_digits(d));
            return None;
        }
        let ghost pre = s@.subrange(start as int, i as int);
        assert(s@.subrange(start as int, i + 1).drop_last() =~= pre);
        let digit = (c as u32) - ('0' as u32);
        value = value * 10 + digit;
        if value > 65535 {
            proof {
                if all_ascii_digits(d) {
                    lemma_digits_value_monotone(d, i + 1 - start);
                    assert(d.subrange(0, i + 1 - start) =~= s@.subrange(start as int, i + 1));
                }
            }
            return None;
        }
        i += 1;
    }
    assert(s@.subrange(start as int, i as int) =~= d);
    Some(value as u16)
}

/// The outcome that server-address validation reports for `s`.
pub open spec fn server_address_result(s: Seq<char>) -> Result<(Seq<char>, u16), Seq<char>> {
    if s.len() == 0 {
        Err("Server address cannot be empty"@)
    } else if count_char(s, ':') == 0 {
        Ok((s, 6667u16))
    } else if count_char(s, ':') == 1 {
        let k = first_index_of(s, ':');
        let host = s.subrange(0, k);
        let port = s.subrange(k + 1, s.len() as int);
        if host.len() == 0 {
            Err("Hostname cannot be empty"@)
        } else {
            match parse_u16_spec(port) {
                None => Err("Invalid port number: "@ + port),
                Some(p) => if p == 0 {
                    Err("Port number must be greater than 0"@)
                } else {
                    Ok((host, p))
                },
            }
        }
    } else {
        Err("Invalid server format. Use 'host:port' or 'host'"@)
    }
}

proof fn lemma_count_char_push(s: Seq<char>, c: char, x: char)
    ensures
        count_char(s.push(x), c) == count_char(s, c) + if x == c { 1nat } else { 0nat },
{
    assert(s.push(x).drop_last() =~= s);
}

pub proof fn lemma_first_index_prefix(s: Seq<char>, c: char, k: int)
    requires
        0 <= k < s.len(),
        s[k] == c,
        forall|j: int| 0 <= j < k ==> s[j] != c,
    ensures
        first_index_of(s, c) == k,
    decreases k,
{
    if k > 0 {
        lemma_first_index_prefix(s.drop_first(), c, k - 1);
    }
}

/// Validates a server address (`host:port` or `host`) and splits it.
pub fn validate_server_address(addr: &str) -> (r: Result<(String, u16), String>)
    ensures
        match r {
            Ok((h, p)) => server_address_result(addr@) == Ok::<(Seq<char>, u16), Seq<char>>((h@, p)),
            Err(e) => server_address_result(addr@) == Err::<(Seq<char>, u16), Seq<char>>(e@),
        },
{
    let chars = chars_of(addr);
    if chars.len() == 0 {
        return Err(to_owned_string("Server address cannot be empty"));
    }
    let mut colons: usize = 0;
    let mut first: usize = chars.len();
    let mut i: usize = 0;
    while i < chars.len()
        invariant
            chars@ == addr@,
            i <= chars@.len(),
            colons as nat == count_char(chars@.subrange(0, i as int), ':'),
            colons <= i,
            first <= chars@.len(),
            first < chars@.len() ==> (first < i && chars@[first as int] == ':'),
            forall|j: int| 0 <= j < i && j < first ==> chars@[j] != ':',
            first < chars@.len() ==> forall|j: int| 0 <= j < first ==> chars@[j] != ':',
            colons == 0 ==> first == chars@.len(),
            colons > 0 ==> first < chars@.len(),
        decreases chars@.len() - i,
    {
        proof {
            assert(chars@.subrange(0, i + 1) =~= chars@.subrange(0, i as int).push(chars@[i as int]));
            lemma_count_char_push(chars@.subrange(0, i as int), ':', chars@[i as int]);
        }
        if chars[i] == ':' {
            if colons == 0 {
                first = i;
            }
            colons += 1;
        }
        i += 1;
    }
    assert(chars@.subrange(0, chars@.len() as int) =~= chars@);
    if colons == 0 {
        return Ok((to_owned_string(addr), 6667));
    }
    if colons > 1 {
        return Err(to_owned_string("Invalid server format. Use 'host:port' or 'host'"));
    }
    proof {
        lemma_first_index_prefix(chars@, ':', first as int);
    }
    if first == 0 {
        return Err(to_owned_string("Hostname cannot be empty"));
    }
    let host = string_from_chars(chars.as_slice(), 0, first);
    let port = string_from_chars(chars.as_slice(), first + 1, chars.len());
    let port_chars = chars_of(port.as_str());
    let port_num = parse_u16(port_chars.as_slice());
    match port_num {
        None => Err(concat2("Invalid port number: ", port.as_str())),
        Some(p) => {
            if p == 0 {
                Err(to_owned_string("Port number must be greater than 0"))
            } else {
                Ok((host, p))
            }
        },
    }
}

/// The error that message validation reports for `s`, if any.
pub open spec fn message_error(s: Seq<char>) -> Option<Seq<char>> {
    if s.len() == 0 {
        Some("Message cannot be empty"@)
    } else if byte_len(s) > 400 {
        Some("Message too long (max 400 characters)"@)
    } else if s.contains('\r') || s.contains('\n') {
        Some("Message cannot contain newline characters"@)
    } else {
        None
    }
}

/// Validates an IRC message (PRIVMSG/NOTICE text).
pub fn validate_message(msg: &str) -> (r: Result<(), String>)
    ensures
        match r {
            Ok(()) => message_error(msg@) is None,
            Err(e) => message_error(msg@) == Some(e@),
        },
{
    let chars = chars_of(msg);
    if chars.len() == 0 {
        return Err(to_owned_string("Message cannot be empty"));
    }
    if utf8_len_exceeds(chars.as_slice(), 400) {
        return Err(to_owned_string("Message too long (max 400 characters)"));
    }
    if chars_contain_char(chars.as_slice(), '\r') || chars_contain_char(chars.as_slice(), '\n') {
        return Err(to_owned_string("Message cannot contain newline characters"));
    }
    Ok(())
}

/// The characters that message sanitizing removes: CR, LF and NUL.
pub open spec fn sanitize_dropped() -> Seq<char> {
    seq!['\r', '\n', '\0']
}

/// At most the first `n` elements of `s`.
pub open spec fn take_at_most(s: Seq<char>, n: nat) -> Seq<char> {
    if s.len() <= n { s } else { s.take(n as int) }
}

/// What sanitizing gives for `s`: CR, LF and NUL removed, then cut to 400 characters.
pub open spec fn sanitized(s: Seq<char>) -> Seq<char> {
    take_at_most(remove_chars(s, sanitize_dropped()), 400)
}

/// Sanitizes a message by removing CR, LF and NUL and keeping at most 400 characters.
pub fn sanitize_message(msg: &str) -> (r: String)
    ensures
        r@ == sanitized(msg@),
{
    let chars = chars_of(msg);
    let mut out = String::new();
    let mut n: usize = 0;
    let mut i: usize = 0;
    while i < chars.len()
        invariant
            chars@ == msg@,
            i <= chars@.len(),
            out@ == take_at_most(remove_chars(chars@.take(i as int), sanitize_dropped()), 400),
            n as nat == out@.len(),
            n <= 400,
        decreases chars@.len() - i,
    {
        let c = chars[i];
        proof {
            assert(chars@.take(i + 1).drop_last() =~= chars@.take(i as int));
            assert(chars@.take(i + 1).last() == c);
            assert(sanitize_dropped().contains(c) <==> (c == '\r' || c == '\n' || c == '\0')) by {
                if c == '\r' { assert(sanitize_dropped()[0] == c); }
                if c == '\n' { assert(sanitize_dropped()[1] == c); }
                if c == '\0' { assert(sanitize_dropped()[2] == c); }
            }
        }
        if c != '\r' && c != '\n' && c != '\0' {
            if n < 400 {
                push_char(&mut out, c);
                n += 1;
            } else {
                proof {
                    let f = remove_chars(chars@.take(i as int), sanitize_dropped());
                    assert(f.push(c).take(400) =~= f.take(400));
                }
            }
        }
        i += 1;
    }
    assert(chars@.take(chars@.len() as int) =~= chars@);
    out
}

/// The digits of an unsigned literal: `s` without one leading `+`.
pub open spec fn unsigned_digits(s: Seq<char>) -> Seq<char> {
    if s.len() > 0 && s[0] == '+' { s.drop_first() } else { s }
}

/// What `str::parse` gives for an unsigned integer type whose largest value is
/// `max`: an optional `+`, then one or more ASCII digits whose value is at
/// most `max`.
pub open spec fn parse_decimal_spec(s: Seq<char>, max: nat) -> Option<nat> {
    let d = unsigned_digits(s);
    if d.len() == 0 || !all_ascii_digits(d) || digits_value(d) > max {
        None
    } else {
        Some(digits_value(d))
    }
}

/// Parses an unsigned decimal number no larger than `max`, the way `str::parse`
/// does for an unsigned integer type whose largest value is `max`.
pub fn parse_decimal(s: &str, max: u64) -> (r: Option<u64>)
    ensures
        match r {
            Some(v) => parse_decimal_spec(s@, max as nat) == Some(v as nat),
            None => parse_decimal_spec(s@, max as nat) is None,
        },
{
    let v = chars_of(s);
    let start: usize = if v.len() > 0 && v[0] == '+' { 1 } else { 0 };
    let ghost d = unsigned_digits(v@);
    assert(d =~= v@.subrange(start as int, v@.len() as int));
    if start >= v.len() {
        return None;
    }
    let mut value: u128 = 0;
    let mut i = start;
    while i < v.len()
        invariant
            start <= i <= v@.len(),
            start < v@.len(),
            v@ == s@,
            d =~= v@.subrange(start as int, v@.len() as int),
            d == unsigned_digits(v@),
            forall|k: int| start <= k < i ==> is_ascii_digit(#[trigger] v@[k]),
            value as nat == digits_value(v@.subrange(start as int, i as int)),
            value <= max,
        decreases v@.len() - i,
    {
        let c = v[i];
        if !('0' <= c && c <= '9') {
            assert(!is_ascii_digit(d[i - start]));
            assert(!all_ascii_digits(d));
            return None;
        }
        let ghost pre = v@.subrange(start as int, i as int);
        assert(v@.subrange(start as int, i + 1).drop_last() =~= pre);
        let digit = ((c as u32) - ('0' as u32)) as u128;
        value = value * 10 + digit;
        if value > max as u128 {
            proof {
                if all_ascii_digits(d) {
                    lemma_digits_value_monotone(d, i + 1 - start);
                    assert(d.subrange(0, i + 1 - start) =~= v@.subrange(start as int, i + 1));
                }
            }
            return None;
        }
        i += 1;
    }
    assert(v@.subrange(start as int, i as int) =~= d);
    Some(value as u64)
}

proof fn lemma_remove_chars_clean(s: Seq<char>, d: Seq<char>)
    ensures
        forall|i: int| 0 <= i < remove_chars(s, d).len() ==> !d.contains(#[trigger] remove_chars(s, d)[i]),
        remove_chars(s, d).len() <= s.len(),
    decreases s.len(),
{
    if s.len() > 0 {
        lemma_remove_chars_clean(s.drop_last(), d);
    }
}

proof fn lemma_remove_chars_noop(s: Seq<char>, d: Seq<char>)
    requires
        forall|i: int| 0 <= i < s.len() ==> !d.contains(#[trigger] s[i]),
    ensures
        remove_chars(s, d) == s,
    decreases s.len(),
{
    if s.len() > 0 {
        assert forall|i: int| 0 <= i < s.drop_last().len() implies !d.contains(#[trigger] s.drop_last()[i]) by {
            assert(s.drop_last()[i] == s[i]);
        }
        lemma_remove_chars_noop(s.drop_last(), d);
        assert(s.drop_last().push(s.last()) =~= s);
    }
}

/// A sanitized message holds no CR, LF or NUL and at most 400 characters,
/// and sanitizing it again changes nothing.
pub proof fn lemma_sanitize_message(s: Seq<char>)
    ensures
        !sanitized(s).contains('\r'),
        !sanitized(s).contains('\n'),
        !sanitized(s).contains('\0'),
        sanitized(s).len() <= 400,
        sanitized(sanitized(s)) == sanitized(s),
{
    let d = sanitize_dropped();
    let r = remove_chars(s, d);
    lemma_remove_chars_clean(s, d);
    let t = sanitized(s);
    assert forall|i: int| 0 <= i < t.len() implies !d.contains(#[trigger] t[i]) by {
        assert(t[i] == r[i]);
    }
    assert(d.contains('\r') && d.contains('\n') && d.contains('\0')) by {
        assert(d[0] == '\r' && d[1] == '\n' && d[2] == '\0');
    }
    lemma_remove_chars_noop(t, d);
}

proof fn lemma_count_char_zero(x: Seq<char>, c: char)
    ensures
        count_char(x, c) == 0 <==> forall|j: int| 0 <= j < x.len() ==> x[j] != c,
    decreases x.len(),
{
    if x.len() > 0 {
        let d = x.drop_last();
        lemma_count_char_zero(d, c);
        if count_char(x, c) == 0 {
            assert forall|j: int| 0 <= j < x.len() implies x[j] != c by {
                if j < x.len() - 1 {
                    assert(x[j] == d[j]);
                }
            }
        } else if forall|j: int| 0 <= j < x.len() ==> x[j] != c {
            assert forall|j: int| 0 <= j < d.len() implies d[j] != c by {
                assert(x[j] == d[j]);
            }
            assert(x[x.len() - 1] != c);
        }
    }
}

proof fn lemma_count_char_append(a: Seq<char>, b: Seq<char>, c: char)
    ensures
        count_char(a + b, c) == count_char(a, c) + count_char(b, c),
    decreases b.len(),
{
    if b.len() > 0 {
        lemma_count_char_append(a, b.drop_last(), c);
        assert((a + b).drop_last() =~= a + b.drop_last());
        assert((a + b).last() == b.last());
    } else {
        assert(a + b =~= a);
    }
}

proof fn lemma_first_index_before(s: Seq<char>, c: char)
    ensures
        0 <= first_index_of(s, c) <= s.len(),
        forall|j: int| 0 <= j < first_index_of(s, c) ==> s[j] != c,
    decreases s.len(),
{
    if s.len() > 0 && s[0] != c {
        let d = s.drop_first();
        lemma_first_index_before(d, c);
        assert forall|j: int| 0 <= j < first_index_of(s, c) implies s[j] != c by {
            if j > 0 {
                assert(s[j] == d[j - 1]);
            }
        }
    }
}

proof fn lemma_decimal_digits(n: nat)
    ensures
        decimal(n).len() > 0,
        all_ascii_digits(decimal(n)),
        digits_value(decimal(n)) == n,
    decreases n,
{
    if n >= 10 {
        lemma_decimal_digits(n / 10);
        let d = decimal(n);
        let q = decimal(n / 10);
        assert(d.drop_last() =~= q);
        assert(d.last() == digit_char(n % 10));
        assert(((digit_char(n % 10) as int) - ('0' as int)) == n % 10);
        assert(digits_value(d) == digits_value(q) * 10 + ((d.last() as int) - ('0' as int)) as nat);
        assert((n / 10) * 10 + n % 10 == n) by (nonlinear_arith);
        assert forall|i: int| 0 <= i < d.len() implies is_ascii_digit(#[trigger] d[i]) by {
            if i < d.len() - 1 {
                assert(d[i] == q[i]);
            }
        }
    } else {
        let d = decimal(n);
        assert(d.drop_last() =~= Seq::<char>::empty());
        assert(d.last() == digit_char(n));
        assert(digits_value(Seq::<char>::empty()) == 0);
        assert(((digit_char(n) as int) - ('0' as int)) == n);
        assert(digits_value(d) == digits_value(d.drop_last()) * 10 + ((d.last() as int) - ('0' as int)) as nat);
    }
}

/// A valid server address reads back the same: formatting the host and port
/// it gives as `host:port` and validating that gives the same host and port.
pub proof fn lemma_server_address_round_trip(s: Seq<char>)
    requires
        server_address_result(s) is Ok,
    ensures
        ({
            let (h, p) = server_address_result(s)->Ok_0;
            server_address_result(h + seq![':'] + decimal(p as nat)) == Ok::<(Seq<char>, u16), Seq<char>>((h, p))
        }),
{
    let (h, p) = server_address_result(s)->Ok_0;
    // the host holds no colon and is not empty; the port is not zero
    if count_char(s, ':') == 0 {
        lemma_count_char_zero(s, ':');
    } else {
        let k = first_index_of(s, ':');
        lemma_first_index_before(s, ':');
        assert forall|j: int| 0 <= j < h.len() implies h[j] != ':' by {
            assert(h[j] == s[j]);
        }
        lemma_count_char_zero(h, ':');
    }
    assert(h.len() > 0 && p > 0);
    assert(forall|j: int| 0 <= j < h.len() ==> h[j] != ':') by {
        lemma_count_char_zero(h, ':');
        if count_char(s, ':') == 0 {
            assert(h == s);
        }
    }
    lemma_count_char_zero(h, ':');
    let d = decimal(p as nat);
    lemma_decimal_digits(p as nat);
    assert forall|j: int| 0 <= j < d.len() implies d[j] != ':' by {
        assert(is_ascii_digit(d[j]));
    }
    lemma_count_char_zero(d, ':');
    let t = h + seq![':'] + d;
    lemma_count_char_append(h + seq![':'], d, ':');
    lemma_count_char_append(h, seq![':'], ':');
    assert(seq![':'].drop_last() =~= Seq::<char>::empty());
    assert(count_char(Seq::<char>::empty(), ':') == 0);
    assert(seq![':'].last() == ':');
    assert(count_char(seq![':'], ':') == 1);
    assert(t[h.len() as int] == ':');
    assert forall|j: int| 0 <= j < h.len() implies t[j] != ':' by {
        assert(t[j] == h[j]);
    }
    lemma_first_index_prefix(t, ':', h.len() as int);
    assert(t.subrange(0, h.len() as int) =~= h);
    assert(t.subrange(h.len() as int + 1, t.len() as int) =~= d);
    assert(is_ascii_digit(d[0]));
    assert(u16_digits(d) == d);
}

/// `f` picks, for each character of `t`, a position of `s` holding it, in
/// increasing order.
pub open spec fn index_map_ok(f: Seq<int>, t: Seq<char>, s: Seq<char>) -> bool {
    &&& f.len() == t.len()
    &&& forall|i: int| 0 <= i < f.len() ==> 0 <= #[trigger] f[i] < s.len() && t[i] == s[f[i]]
    &&& forall|i: int, j: int| 0 <= i < j < f.len() ==> #[trigger] f[i] < #[trigger] f[j]
}

/// Whether `t` is `s` with some characters left out, the others in order.
pub open spec fn is_subsequence(t: Seq<char>, s: Seq<char>) -> bool {
    exists|f: Seq<int>| index_map_ok(f, t, s)
}

proof fn lemma_remove_chars_map(s: Seq<char>, d: Seq<char>) -> (f: Seq<int>)
    ensures
        index_map_ok(f, remove_chars(s, d), s),
    decreases s.len(),
{
    if s.len() == 0 {
        Seq::empty()
    } else {
        let p = s.drop_last();
        let g = lemma_remove_chars_map(p, d);
        let r = remove_chars(p, d);
        if d.contains(s.last()) {
            assert forall|i: int| 0 <= i < g.len() implies 0 <= #[trigger] g[i] < s.len()
                && remove_chars(s, d)[i] == s[g[i]] by {
                assert(s[g[i]] == p[g[i]]);
            }
            g
        } else {
            let f = g.push(s.len() - 1);
            let t = remove_chars(s, d);
            assert(t == r.push(s.last()));
            assert forall|i: int| 0 <= i < f.len() implies 0 <= #[trigger] f[i] < s.len() && t[i] == s[f[i]] by {
                if i < g.len() {
                    assert(f[i] == g[i]);
                    assert(s[g[i]] == p[g[i]]);
                }
            }
            assert forall|i: int, j: int| 0 <= i < j < f.len() implies #[trigger] f[i] < #[trigger] f[j] by {
                if j == g.len() {
                    assert(f[i] == g[i]);
                } else {
                    assert(f[i] == g[i] && f[j] == g[j]);
                }
            }
            f
        }
    }
}

proof fn lemma_ascii_utf8_len(t: Seq<char>)
    requires
        is_ascii_seq(t),
    ensures
        utf8_len(t) == t.len(),
    decreases t.len(),
{
    if t.len() > 0 {
        let d = t.drop_last();
        assert forall|i: int| 0 <= i < d.len() implies (#[trigger] d[i] as u32) <= 0x7f by {
            assert(d[i] == t[i]);
        }
        lemma_ascii_utf8_len(d);
        assert(t.last() == t[t.len() - 1]);
        assert((t[t.len() - 1] as u32) <= 0x7f);
        assert(utf8_width(t.last()) == 1);
    }
}

/// A sanitized message is the message with characters left out (the others
/// in order), and when the message is ASCII and something is left, it passes
/// message validation.
pub proof fn lemma_sanitized_is_subsequence(s: Seq<char>)
    ensures
        is_subsequence(sanitized(s), s),
        is_ascii_seq(s) && sanitized(s).len() > 0 ==> message_error(sanitized(s)) is None,
{
    let r = remove_chars(s, sanitize_dropped());
    let g = lemma_remove_chars_map(s, sanitize_dropped());
    let t = sanitized(s);
    let f = if r.len() <= 400 { g } else { g.take(400) };
    assert forall|i: int| 0 <= i < f.len() implies 0 <= #[trigger] f[i] < s.len() && t[i] == s[f[i]] by {
        assert(f[i] == g[i]);
        assert(t[i] == r[i]);
    }
    assert forall|i: int, j: int| 0 <= i < j < f.len() implies #[trigger] f[i] < #[trigger] f[j] by {
        assert(f[i] == g[i] && f[j] == g[j]);
    }
    assert(index_map_ok(f, t, s));
    lemma_sanitize_message(s);
    if is_ascii_seq(s) && t.len() > 0 {
        assert forall|i: int| 0 <= i < t.len() implies (#[trigger] t[i] as u32) <= 0x7f by {
            assert(t[i] == s[f[i]]);
        }
        lemma_ascii_utf8_len(t);
        lemma_utf8_len_is_encoding_len(t);
    }
}

} // verus!
