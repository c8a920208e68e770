//! Deciding which subprocess output lines to keep, suppress, or treat as
//! interactive prompts.

use vstd::prelude::*;
use crate::ansi::{strip_ansi_chars, strip_ansi_spec};
use crate::text::{
    chars_of, contains_seq, contains_str, ends_with_seq, ends_with_str, eq_str, starts_with_seq,
    starts_with_str, trim_chars, trim_spec,
};

verus! {

/// A line survives the upgrade-output filter: after stripping escape
/// sequences and trimming whitespace it is non-empty and repeats none of
/// the size summaries and resolution banners the caller already displays.
pub open spec fn keep_upgrade_line(line: Seq<char>) -> bool {
    let t = trim_spec(strip_ansi_spec(line));
    t.len() > 0 && !contains_seq(t, "Total Download Size:"@) && !contains_seq(
        t,
        "Total Installed Size:"@,
    ) && !contains_seq(t, "Net Upgrade Size:"@) && !contains_seq(t, "resolving dependencies"@)
        && !contains_seq(t, "looking for conflicting packages"@) && !contains_seq(
        t,
        ":: Starting full system upgrade..."@,
    )
}

pub fn filter_upgrade_line_chars(line: &Vec<char>) -> (r: bool)
    ensures
        r == keep_upgrade_line(line@),
{
    let clean = strip_ansi_chars(line);
    let t = trim_chars(&clean);
    if t.len() == 0 {
        return false;
    }
    if contains_str(&t, "Total Download Size:") || contains_str(&t, "Total Installed Size:")
        || contains_str(&t, "Net Upgrade Size:") {
        return false;
    }
    if contains_str(&t, "resolving dependencies") || contains_str(
        &t,
        "looking for conflicting packages",
    ) || contains_str(&t, ":: Starting full system upgrade...") {
        return false;
    }
    true
}

/// Whether one upgrade-output line is kept.
pub fn filter_upgrade_line(line: &str) -> (r: bool)
    ensures
        r == keep_upgrade_line(line@),
{
    let v = chars_of(line);
    filter_upgrade_line_chars(&v)
}

/// With filtering enabled a line is kept only when the filter keeps it;
/// with filtering disabled every line is kept.
pub fn should_print(line: &str, filter: bool) -> (r: bool)
    ensures
        r == (filter ==> keep_upgrade_line(line@)),
{
    if filter {
        filter_upgrade_line(line)
    } else {
        true
    }
}

pub fn should_print_chars(line: &Vec<char>, filter: bool) -> (r: bool)
    ensures
        r == (filter ==> keep_upgrade_line(line@)),
{
    if filter {
        filter_upgrade_line_chars(line)
    } else {
        true
    }
}

/// A buffered partial line is an interactive prompt: it ends with a yes/no
/// confirmation suffix, or it is a labeled prompt (holds a `::` marker and
/// ends with a colon suffix).
pub open spec fn is_prompt_spec(buf: Seq<char>) -> bool {
    ends_with_seq(buf, "[Y/n] "@) || (contains_seq(buf, "::"@) && ends_with_seq(buf, "]: "@))
}

pub fn is_prompt_chars(buf: &Vec<char>) -> (r: bool)
    ensures
        r == is_prompt_spec(buf@),
{
    if ends_with_str(buf, "[Y/n] ") {
        return true;
    }
    contains_str(buf, "::") && ends_with_str(buf, "]: ")
}

/// A line of piped subprocess output survives the stream filter: an empty
/// (all-whitespace) line is kept for spacing, size summaries, resolution
/// banners and database-download notices are dropped, everything else is
/// kept.
pub open spec fn keep_stream_line(line: Seq<char>) -> bool {
    let t = trim_spec(line);
    t.len() == 0 || (!starts_with_seq(t, "Total Download Size:"@) && !starts_with_seq(
        t,
        "Total Installed Size:"@,
    ) && !starts_with_seq(t, "Net Upgrade Size:"@) && t != "resolving dependencies..."@ && t
        != "looking for conflicting packages..."@ && !starts_with_seq(t, "core downloading"@)
        && !starts_with_seq(t, "extra downloading"@) && !starts_with_seq(
        t,
        "multilib downloading"@,
    ))
}

/// The stats back end for pacman; its line filter is the pure part of its
/// piped-output streaming.
pub struct FetchPacmanStats;

impl FetchPacmanStats {
    /// Whether one line of piped pacman output is kept.
    pub fn filter_pacman_line(line: &str) -> (r: bool)
        ensures
            r == keep_stream_line(line@),
    {
        let v = chars_of(line);
        let t = trim_chars(&v);
        if t.len() == 0 {
            return true;
        }
        if starts_with_str(&t, "Total Download Size:") || starts_with_str(
            &t,
            "Total Installed Size:",
        ) || starts_with_str(&t, "Net Upgrade Size:") {
            return false;
        }
        if eq_str(&t, "resolving dependencies...") || eq_str(
            &t,
            "looking for conflicting packages...",
        ) {
            return false;
        }
        if starts_with_str(&t, "core downloading") || starts_with_str(&t, "extra downloading")
            || starts_with_str(&t, "multilib downloading") {
            return false;
        }
        true
    }
}

} // verus!
