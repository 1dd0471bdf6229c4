//! Chat-log entries and the file names they are stored under (writing the
//! files is done by the application's logger thread).

use vstd::prelude::*;
use crate::text::{chars_of, push_char, concat2, concat3, concat4};

verus! {

/// A log entry to be written to disk
#[derive(Debug)]
pub struct LogEntry {
    pub network: String,
    pub channel: String,
    pub timestamp: String,
    pub nick: String,
    pub message: String,
}

/// Whether `c` is replaced in file names: path separators, characters that
/// file systems refuse, and `#`.
pub open spec fn filename_unsafe(c: char) -> bool {
    c == '/' || c == '\\' || c == ':' || c == '*' || c == '?' || c == '"' || c == '<'
        || c == '>' || c == '|' || c == '#'
}

/// `name` with every unsafe character replaced by `_`.
pub open spec fn sanitized_filename(name: Seq<char>) -> Seq<char> {
    name.map_values(|c: char| if filename_unsafe(c) { '_' } else { c })
}

/// Sanitize a filename to be filesystem-safe
pub fn sanitize_filename(name: &str) -> (r: String)
    ensures
        r@ == sanitized_filename(name@),
{
    let chars = chars_of(name);
    let mut out = String::new();
    let mut i: usize = 0;
    while i < chars.len()
        invariant
            i <= chars@.len(),
            chars@ == name@,
            out@ == sanitized_filename(name@).take(i as int),
        decreases chars@.len() - i,
    {
        let c = chars[i];
        let d = if c == '/' || c == '\\' || c == ':' || c == '*' || c == '?' || c == '"' || c == '<'
            || c == '>' || c == '|' || c == '#' {
            '_'
        } else {
            c
        };
        push_char(&mut out, d);
        assert(sanitized_filename(name@).take(i + 1) =~= sanitized_filename(name@).take(i as int).push(d));
        i += 1;
    }
    assert(sanitized_filename(name@).take(chars@.len() as int) =~= sanitized_filename(name@));
    out
}

/// The line written for an entry: `[<timestamp>] <<nick>> <message>`.
pub open spec fn log_entry_line(e: LogEntry) -> Seq<char> {
    "["@ + e.timestamp@ + "] <"@ + e.nick@ + "> "@ + e.message@
}

/// The line written to the log file for `entry` (without the newline).
pub fn format_log_entry(entry: &LogEntry) -> (r: String)
    ensures
        r@ == log_entry_line(*entry),
{
    let head = concat4("[", entry.timestamp.as_str(), "] <", entry.nick.as_str());
    concat3(head.as_str(), "> ", entry.message.as_str())
}

/// Where an entry is stored below the log directory: the sanitized network,
/// the sanitized channel, and `<date>.log`.
pub fn log_file_parts(entry: &LogEntry, date: &str) -> (r: (String, String, String))
    ensures
        r.0@ == sanitized_filename(entry.network@),
        r.1@ == sanitized_filename(entry.channel@),
        r.2@ == date@ + ".log"@,
{
    (sanitize_filename(entry.network.as_str()), sanitize_filename(entry.channel.as_str()), concat2(date, ".log"))
}

/// The key under which the open file for an entry is cached:
/// `<network>/<channel>/<date>`, both names sanitized.
pub fn log_cache_key(entry: &LogEntry, date: &str) -> (r: String)
    ensures
        r@ == sanitized_filename(entry.network@) + "/"@ + sanitized_filename(entry.channel@) + "/"@ + date@,
{
    let n = sanitize_filename(entry.network.as_str());
    let c = sanitize_filename(entry.channel.as_str());
    let head = concat4(n.as_str(), "/", c.as_str(), "/");
    concat2(head.as_str(), date)
}

} // verus!
