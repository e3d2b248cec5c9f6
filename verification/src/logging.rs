//! Which log categories are written, and the text of a log line.

use vstd::prelude::*;

use vstd::string::*;

use crate::text::{chars_equal, owned, padded_decimal_spec, push_char, push_padded_decimal};

verus! {

/// The categories that a release build without runtime debug still writes.
pub open spec fn is_persistent_level(level: Seq<char>) -> bool {
    level == "FLOW"@ || level == "ACTION"@ || level == "ERROR"@ || level == "PLUGIN"@
}

/// Whether a log line of category `level` is written: always in a debug
/// build or with runtime debug on, else only for the persistent categories.
pub fn should_write_log(debug_build: bool, runtime_debug: bool, level: &str) -> (write: bool)
    ensures
        write == (debug_build || runtime_debug || is_persistent_level(level@)),
{
    debug_build || runtime_debug || chars_equal(level, "FLOW") || chars_equal(level, "ACTION")
        || chars_equal(level, "ERROR") || chars_equal(level, "PLUGIN")
}


/// The local time stamp of a log line: `YYYY-MM-DD hh:mm:ss.mmm`.
pub open spec fn timestamp_spec(year: u16, month: u16, day: u16, hour: u16, minute: u16, second: u16, millis: u16) -> Seq<char> {
    padded_decimal_spec(year as nat, 4) + "-"@ + padded_decimal_spec(month as nat, 2) + "-"@
        + padded_decimal_spec(day as nat, 2) + " "@ + padded_decimal_spec(hour as nat, 2) + ":"@
        + padded_decimal_spec(minute as nat, 2) + ":"@ + padded_decimal_spec(second as nat, 2) + "."@
        + padded_decimal_spec(millis as nat, 3)
}

/// Formats the local time of a log line.
pub fn format_log_timestamp(
    year: u16,
    month: u16,
    day: u16,
    hour: u16,
    minute: u16,
    second: u16,
    millis: u16,
) -> (text: String)
    ensures
        text@ == timestamp_spec(year, month, day, hour, minute, second, millis),
{
    let mut text = String::new();
    push_padded_decimal(&mut text, year as u64, 4);
    text.append("-");
    push_padded_decimal(&mut text, month as u64, 2);
    text.append("-");
    push_padded_decimal(&mut text, day as u64, 2);
    text.append(" ");
    push_padded_decimal(&mut text, hour as u64, 2);
    text.append(":");
    push_padded_decimal(&mut text, minute as u64, 2);
    text.append(":");
    push_padded_decimal(&mut text, second as u64, 2);
    text.append(".");
    push_padded_decimal(&mut text, millis as u64, 3);
    assert(text@ =~= timestamp_spec(year, month, day, hour, minute, second, millis));
    text
}

/// The date that names the day's log file: `YYYYMMDD`.
pub fn format_log_date(year: u16, month: u16, day: u16) -> (text: String)
    ensures
        text@ == padded_decimal_spec(year as nat, 4) + padded_decimal_spec(month as nat, 2)
            + padded_decimal_spec(day as nat, 2),
{
    let mut text = String::new();
    push_padded_decimal(&mut text, year as u64, 4);
    push_padded_decimal(&mut text, month as u64, 2);
    push_padded_decimal(&mut text, day as u64, 2);
    text
}

/// `count` spaces.
pub open spec fn spaces(count: nat) -> Seq<char> {
    Seq::new(count, |i: int| ' ')
}

/// `s` padded with spaces on the right to at least `width` characters
/// (`format!("{:<width$}")`).
pub open spec fn left_aligned(s: Seq<char>, width: nat) -> Seq<char> {
    if s.len() >= width {
        s
    } else {
        s + spaces((width - s.len()) as nat)
    }
}

/// One line of the log file: `[time] LEVEL [module] message`, the level
/// padded to five characters.
pub open spec fn log_line_spec(timestamp: Seq<char>, level: Seq<char>, module: Seq<char>, message: Seq<char>) -> Seq<char> {
    "["@ + timestamp + "] "@ + left_aligned(level, 5) + " ["@ + module + "] "@ + message
}

/// Formats one log line (without the line break).
pub fn format_log_line(timestamp: &str, level: &str, module: &str, message: &str) -> (line: String)
    ensures
        line@ == log_line_spec(timestamp@, level@, module@, message@),
{
    let mut line = owned("[");
    line.append(timestamp);
    line.append("] ");
    line.append(level);
    let ghost before = line@;
    let mut k: usize = level.unicode_len();
    let n = k;
    while k < 5
        invariant
            n == level@.len(),
            n <= k <= 5 || (k == n && n > 5),
            line@ == before + spaces((k - n) as nat),
        decreases 5 - k,
    {
        push_char(&mut line, ' ');
        assert(line@ =~= before + spaces((k + 1 - n) as nat));
        k = k + 1;
    }
    assert(line@ =~= "["@ + timestamp@ + "] "@ + left_aligned(level@, 5));
    line.append(" [");
    line.append(module);
    line.append("] ");
    line.append(message);
    assert(line@ =~= log_line_spec(timestamp@, level@, module@, message@));
    line
}

/// `s` with each carriage return and line feed replaced by a space, so that
/// one log entry stays on one line.
pub open spec fn single_line(s: Seq<char>) -> Seq<char> {
    s.map_values(|c: char| if c == '\r' || c == '\n' { ' ' } else { c })
}

/// Replaces line breaks by spaces.
pub fn sanitize_log_field(s: &str) -> (r: String)
    ensures
        r@ == single_line(s@),
{
    let n = s.unicode_len();
    let mut out = String::new();
    let mut i: usize = 0;
    while i < n
        invariant
            n == s@.len(),
            i <= n,
            out@ == single_line(s@.subrange(0, i as int)),
        decreases n - i,
    {
        let c = s.get_char(i);
        let d = if c == '\r' || c == '\n' {
            ' '
        } else {
            c
        };
        push_char(&mut out, d);
        assert(single_line(s@.subrange(0, i + 1)) =~= single_line(s@.subrange(0, i as int)).push(d));
        i = i + 1;
    }
    assert(s@.subrange(0, n as int) =~= s@);
    out
}

/// The most characters of a plugin's message that are logged.
pub const MAX_PLUGIN_LOG_CHARS: usize = 8192;

/// The log message of a plugin's runtime log entry: each field on one line,
/// the message cut to its first 8192 characters.
pub open spec fn plugin_log_message_spec(plugin_id: Seq<char>, surface: Seq<char>, level: Seq<char>, message: Seq<char>) -> Seq<char> {
    let m = single_line(message);
    "plugin="@ + single_line(plugin_id) + " surface="@ + single_line(surface) + " level="@
        + single_line(level) + " "@ + (if m.len() > MAX_PLUGIN_LOG_CHARS {
        m.take(MAX_PLUGIN_LOG_CHARS as int)
    } else {
        m
    })
}

/// Formats a plugin's runtime log entry.
pub fn plugin_log_message(plugin_id: &str, surface: &str, level: &str, message: &str) -> (text: String)
    ensures
        text@ == plugin_log_message_spec(plugin_id@, surface@, level@, message@),
{
    let id = sanitize_log_field(plugin_id);
    let surface = sanitize_log_field(surface);
    let level = sanitize_log_field(level);
    let message = sanitize_log_field(message);
    let mut text = owned("plugin=");
    text.append(id.as_str());
    text.append(" surface=");
    text.append(surface.as_str());
    text.append(" level=");
    text.append(level.as_str());
    text.append(" ");
    let m = message.as_str();
    let n = m.unicode_len();
    if n > MAX_PLUGIN_LOG_CHARS {
        text.append(m.substring_char(0, MAX_PLUGIN_LOG_CHARS));
    } else {
        text.append(m);
    }
    text
}

/// The name of the day's log file: the date and `.log`.
pub fn log_file_name(date: &str) -> (name: String)
    ensures
        name@ == date@ + ".log"@,
{
    let mut name = owned(date);
    name.append(".log");
    name
}

/// The category and wording of the log entry for a change of plugin
/// storage: the usage cache is debug noise, settings and other keys are
/// user actions.
pub fn storage_change_log(key: &str) -> (r: (&'static str, &'static str))
    ensures
        r.0@ == if key@ == "usageCache"@ {
            "DEBUG"@
        } else {
            "ACTION"@
        },
        r.1@ == if key@ == "settings"@ {
            "设置修改"@
        } else if key@ == "usageCache"@ {
            "用量缓存写入"@
        } else {
            "配置修改"@
        },
{
    let usage = chars_equal(key, "usageCache");
    let level = if usage {
        "DEBUG"
    } else {
        "ACTION"
    };
    let label = if chars_equal(key, "settings") {
        "设置修改"
    } else if usage {
        "用量缓存写入"
    } else {
        "配置修改"
    };
    (level, label)
}

} // verus!
