//! Reading the monitors off the output of `xrandr --current --verbose`.
//!
//! Running the command is left to the caller. What it printed is taken apart
//! here: a line that names a connected adapter and its geometry gives a
//! monitor, and a line that names a CRTC gives the CRTC index of the monitor
//! found last. The two kinds of line are told by regular expressions, which
//! the `regex` crate compiles and matches.

use crate::arrangement::views;
use crate::decimal::{decimal_text, i32_to_text, parse_u32, parsed_u32};
use crate::geometry::{Point, Rect};
use crate::monitor::{Monitor, MonitorView};
use regex::Regex;
use vstd::prelude::*;
use vstd::slice::slice_subrange;
use vstd::string::StringExecFns;
use vstd::string::StringSliceAdditionalSpecFns;
use vstd::utf8::{decode_utf8, encode_utf8_decode_utf8, valid_utf8};

verus! {

/// `regex::Regex`, a compiled regular expression. Nothing is known of what it
/// holds but what the items below say.
#[verifier::external_type_specification]
#[verifier::external_body]
pub struct ExRegex(regex::Regex);

/// `regex::Error`, the reason why a pattern was not compiled. It is handed on
/// unread.
#[verifier::external_type_specification]
#[verifier::external_body]
pub struct ExRegexError(regex::Error);

/// The pattern from which a regular expression was compiled, as
/// `Regex::as_str` gives it back.
pub uninterp spec fn regex_source(re: Regex) -> Seq<char>;

/// What `Regex::captures` finds when `re` is matched against `haystack`:
/// nothing, or the text of every capture group of the first match, group 0
/// being the whole match and a group that took no part in the match being
/// `None`.
pub uninterp spec fn regex_captures(re: Regex, haystack: Seq<char>) -> Option<
    Seq<Option<Seq<char>>>,
>;

/// The capture groups of a match as values.
pub open spec fn groups_view(groups: Seq<Option<String>>) -> Seq<Option<Seq<char>>> {
    Seq::new(
        groups.len(),
        |i: int|
            match groups[i] {
                Some(text) => Some(text@),
                None => None,
            },
    )
}

/// The outcome of a match as a value.
pub open spec fn captures_view(captures: Option<Vec<Option<String>>>) -> Option<
    Seq<Option<Seq<char>>>,
> {
    match captures {
        Some(groups) => Some(groups_view(groups@)),
        None => None,
    }
}

/// `Regex::new`: compiles `pattern`. A regular expression that comes back
/// remembers the pattern it was compiled from. Whether one comes back is left
/// open: a pattern may be malformed or too large.
#[verifier::external_body]
fn compile(pattern: &str) -> (res: Result<Regex, regex::Error>)
    ensures
        res matches Ok(re) ==> regex_source(re) == pattern@,
{
    Regex::new(pattern)
}

/// `Regex::captures`: searches `haystack` for the first match of `re` and
/// hands out a copy of the text of each capture group. The outcome depends on
/// the regular expression and the haystack alone.
#[verifier::external_body]
fn captures(re: &Regex, haystack: &str) -> (res: Option<Vec<Option<String>>>)
    ensures
        captures_view(res) == regex_captures(*re, haystack@),
{
    re.captures(haystack).map(
        |found| found.iter().map(|group| group.map(|part| part.as_str().to_owned())).collect(),
    )
}

/// `core::str::from_utf8`: the bytes as text, where they are well-formed
/// UTF-8, and nothing where they are not.
#[verifier::external_body]
fn text_of(bytes: &[u8]) -> (res: Option<&str>)
    ensures
        res is Some <==> valid_utf8(bytes@),
        res matches Some(text) ==> text.spec_bytes() == bytes@,
{
    match core::str::from_utf8(bytes) {
        Ok(text) => Some(text),
        Err(_) => None,
    }
}

/// Tells the line that describes an adapter, such as
/// `HDMI-1 connected 1280x1024+1920+28 (normal left inverted right x axis y axis) 338mm x 270mm`
/// or `DP-1 disconnected (normal left inverted right x axis y axis)`.
pub const XRANDR_DISPLAY_INFORMATION_PATTERN: &'static str =
    r"(?x)                      # white space and comments do not count
    ^([[:alpha:]]+-[[:digit:]]+)    # 1: the name of the adapter
    \                               # a space
    (                               # 2: the state of the adapter
        disconnected
        |
        connected
        \                           # a space
        .*?                         # other words, such as primary
        ([[:digit:]]+)              # 3: width
        x
        ([[:digit:]]+)              # 4: height
        \+
        ([[:digit:]]+)              # 5: x offset
        \+
        ([[:digit:]]+)              # 6: y offset
    )
    ";

/// Tells the line that gives the CRTC of the adapter described above it, such
/// as `CRTC:       0` behind a tab.
pub const XRANDR_CRTC_PATTERN: &'static str =
    r"(?x)                      # white space and comments do not count
    ^(\ |\t)+CRTC:(\ |\t)+
    ([[:digit:]])                   # 3: the CRTC index
    ";

/// The regular expression that tells a line describing an adapter, where the
/// pattern compiles.
pub fn xrandr_display_information_regex() -> (res: Result<Regex, regex::Error>)
    ensures
        res matches Ok(re) ==> regex_source(re) == XRANDR_DISPLAY_INFORMATION_PATTERN@,
{
    compile(XRANDR_DISPLAY_INFORMATION_PATTERN)
}

/// The regular expression that tells a line giving a CRTC, where the pattern
/// compiles.
pub fn xrandr_crtc_regex() -> (res: Result<Regex, regex::Error>)
    ensures
        res matches Ok(re) ==> regex_source(re) == XRANDR_CRTC_PATTERN@,
{
    compile(XRANDR_CRTC_PATTERN)
}

/// Why `xrandr` cannot be used, told by the exit code with which it ended
/// (none, where a signal ended it): nothing where the code is 0, and otherwise
/// a message that names the code.
pub open spec fn xrandr_failure_text(code: Option<i32>) -> Option<Seq<char>> {
    match code {
        Some(code) => if code == 0 {
            None
        } else {
            Some("xrandr returned with exit code "@ + decimal_text(code as int))
        },
        None => Some("xrandr returned with no exit code"@),
    }
}

/// Tells from the exit code of `xrandr --current` whether `xrandr` is
/// installed and usable, and gives the message of the error where it is not.
pub fn xrandr_failure(code: Option<i32>) -> (message: Option<String>)
    ensures
        match message {
            Some(text) => xrandr_failure_text(code) == Some(text@),
            None => xrandr_failure_text(code) is None,
        },
{
    match code {
        Some(0) => None,
        Some(code) => {
            let start: String = "xrandr returned with exit code ".to_owned();
            let number = i32_to_text(code);
            Some(start.concat(number.as_str()))
        },
        None => Some("xrandr returned with no exit code".to_owned()),
    }
}

/// The text of capture group `i`, where the match has such a group and it took
/// part in the match.
pub open spec fn group(groups: Seq<Option<Seq<char>>>, i: int) -> Option<Seq<char>> {
    if 0 <= i < groups.len() {
        groups[i]
    } else {
        None
    }
}

/// A monitor, or none, as a value.
pub open spec fn monitor_view(monitor: Option<Monitor>) -> Option<MonitorView> {
    match monitor {
        Some(m) => Some(m@),
        None => None,
    }
}

/// A list of monitors, or none, as a value.
pub open spec fn monitors_view(monitors: Option<Vec<Monitor>>) -> Option<Seq<MonitorView>> {
    match monitors {
        Some(list) => Some(views(list@)),
        None => None,
    }
}

/// The monitor that a match of the adapter pattern describes: the adapter
/// named by group 1, with the geometry that groups 3 to 6 give as width,
/// height, x offset and y offset, CRTC 0 and order 0. There is none where
/// nothing matched, where the adapter is disconnected, where a group is
/// missing, or where a number does not fit in 32 bits.
pub open spec fn monitor_of_captures(captures: Option<Seq<Option<Seq<char>>>>) -> Option<
    MonitorView,
> {
    match captures {
        None => None,
        Some(groups) => {
            if group(groups, 1) is Some && group(groups, 2) is Some && group(groups, 2)
                != Some("disconnected"@) && group(groups, 3) is Some && group(groups, 4) is Some
                && group(groups, 5) is Some && group(groups, 6) is Some && parsed_u32(
                group(groups, 3)->0,
            ) is Some && parsed_u32(group(groups, 4)->0) is Some && parsed_u32(
                group(groups, 5)->0,
            ) is Some && parsed_u32(group(groups, 6)->0) is Some {
                Some(
                    MonitorView {
                        order: 0,
                        name: group(groups, 1)->0,
                        crtc: 0,
                        rect: Rect::new(
                            parsed_u32(group(groups, 3)->0)->0,
                            parsed_u32(group(groups, 4)->0)->0,
                            Point::new(
                                parsed_u32(group(groups, 5)->0)->0,
                                parsed_u32(group(groups, 6)->0)->0,
                            ),
                        ),
                    },
                )
            } else {
                None
            }
        },
    }
}

/// The CRTC index that a match of the CRTC pattern gives: the number in group
/// 3. There is none where nothing matched or the group is missing or holds no
/// number.
pub open spec fn crtc_of_captures(captures: Option<Seq<Option<Seq<char>>>>) -> Option<u32> {
    match captures {
        None => None,
        Some(groups) => match group(groups, 3) {
            Some(digits) => parsed_u32(digits),
            None => None,
        },
    }
}

fn group_text(groups: &Vec<Option<String>>, i: usize) -> (res: Option<&String>)
    ensures
        match res {
            Some(text) => group(groups_view(groups@), i as int) == Some(text@),
            None => group(groups_view(groups@), i as int) is None,
        },
{
    if i < groups.len() {
        match &groups[i] {
            Some(text) => Some(text),
            None => None,
        }
    } else {
        None
    }
}

fn group_number(groups: &Vec<Option<String>>, i: usize) -> (res: Option<u32>)
    ensures
        res == match group(groups_view(groups@), i as int) {
            Some(digits) => parsed_u32(digits),
            None => None,
        },
{
    match group_text(groups, i) {
        Some(text) => parse_u32(text.as_str()),
        None => None,
    }
}

/// Makes the monitor that a match of the adapter pattern describes.
pub fn monitor_from_captures(captures: Option<Vec<Option<String>>>) -> (res: Option<Monitor>)
    ensures
        monitor_view(res) == monitor_of_captures(captures_view(captures)),
{
    let groups = match &captures {
        Some(groups) => groups,
        None => {
            return None;
        },
    };
    let adapter_name = match group_text(groups, 1) {
        Some(text) => text.clone(),
        None => {
            return None;
        },
    };
    let disconnected: String = "disconnected".to_owned();
    match group_text(groups, 2) {
        Some(state) => {
            if *state == disconnected {
                return None;
            }
        },
        None => {
            return None;
        },
    }
    let width = match group_number(groups, 3) {
        Some(number) => number,
        None => {
            return None;
        },
    };
    let height = match group_number(groups, 4) {
        Some(number) => number,
        None => {
            return None;
        },
    };
    let x_offset = match group_number(groups, 5) {
        Some(number) => number,
        None => {
            return None;
        },
    };
    let y_offset = match group_number(groups, 6) {
        Some(number) => number,
        None => {
            return None;
        },
    };
    let offset = Point::new(x_offset, y_offset);
    let monitor_rectangle = Rect::new(width, height, offset);
    // The CRTC is 0 to begin with.
    Some(Monitor::new(adapter_name, 0, monitor_rectangle))
}

/// Given a line from the output of `xrandr --current`, attempts to read a
/// `Monitor` off it. `display` is the regular expression that
/// tells such a line.
pub fn try_monitor_from_xrandr_line(display: &Regex, xrandr_line: &str) -> (res: Option<Monitor>)
    ensures
        monitor_view(res) == monitor_of_captures(regex_captures(*display, xrandr_line@)),
{
    monitor_from_captures(captures(display, xrandr_line))
}

/// Reads the CRTC index off a match of the CRTC pattern.
pub fn crtc_from_captures(captures: Option<Vec<Option<String>>>) -> (res: Option<u32>)
    ensures
        res == crtc_of_captures(captures_view(captures)),
{
    match &captures {
        Some(groups) => group_number(groups, 3),
        None => None,
    }
}

/// Given a line from the output of `xrandr --current --verbose`, attempts to
/// extract a CRTC index from it. `crtc` is the regular expression that tells
/// such a line.
pub fn try_crtc_from_xrandr_line(crtc: &Regex, xrandr_line: &str) -> (res: Option<u32>)
    ensures
        res == crtc_of_captures(regex_captures(*crtc, xrandr_line@)),
{
    crtc_from_captures(captures(crtc, xrandr_line))
}

/// Where the line that begins at `from` ends: at the next line feed, or at
/// the end of the output.
pub open spec fn line_end(output: Seq<u8>, from: int) -> int
    decreases output.len() - from,
{
    if from < 0 || from >= output.len() || output[from] == 0x0a {
        from
    } else {
        line_end(output, from + 1)
    }
}

/// The monitors found after a line in which `monitor` and `crtc` were read. A
/// monitor is added to those found. Where there is none, a CRTC index becomes
/// that of the monitor found last; where none was found yet the output is out
/// of order, and there is no result. A line with neither changes nothing.
pub open spec fn after_matches(
    found: Seq<MonitorView>,
    monitor: Option<MonitorView>,
    crtc: Option<u32>,
) -> Option<Seq<MonitorView>> {
    match monitor {
        Some(monitor) => Some(found.push(monitor)),
        None => match crtc {
            Some(index) => if found.len() == 0 {
                None
            } else {
                Some(found.drop_last().push(MonitorView { crtc: index, ..found.last() }))
            },
            None => Some(found),
        },
    }
}

/// The monitors found after one more line. A line that is not well-formed
/// UTF-8 changes nothing. Any other line is matched against the two regular
/// expressions, and what they give is taken in as `after_matches` says.
pub open spec fn after_line(
    display: Regex,
    crtc: Regex,
    found: Seq<MonitorView>,
    line: Seq<u8>,
) -> Option<Seq<MonitorView>> {
    if !valid_utf8(line) {
        Some(found)
    } else {
        let text = decode_utf8(line);
        after_matches(
            found,
            monitor_of_captures(regex_captures(display, text)),
            crtc_of_captures(regex_captures(crtc, text)),
        )
    }
}

/// The monitors found in the lines of `output` from position `from` on, when
/// `found` were found before. The lines are what stands between line feeds;
/// behind the last line feed stands a last line, which may be empty.
pub open spec fn monitors_of_lines(
    display: Regex,
    crtc: Regex,
    found: Seq<MonitorView>,
    output: Seq<u8>,
    from: int,
) -> Option<Seq<MonitorView>>
    decreases output.len() - from,
{
    let end = line_end(output, from);
    if 0 <= from <= end <= output.len() {
        match after_line(display, crtc, found, output.subrange(from, end)) {
            None => None,
            Some(next) => if end == output.len() {
                Some(next)
            } else {
                monitors_of_lines(display, crtc, next, output, end + 1)
            },
        }
    } else {
        None
    }
}

/// The monitors that the output of `xrandr --current --verbose` describes, in
/// the order of their lines.
pub open spec fn monitors_of_output(display: Regex, crtc: Regex, output: Seq<u8>) -> Option<
    Seq<MonitorView>,
> {
    monitors_of_lines(display, crtc, Seq::empty(), output, 0)
}

/// Takes in what was read in one line: the monitor that the line describes,
/// if it describes one, and the CRTC index that it gives, if it gives one.
/// Returns `false`, and leaves the monitors as they are, where there is a CRTC
/// index and no monitor, neither in the line nor found before it.
pub fn apply_matches(monitors: &mut Vec<Monitor>, monitor: Option<Monitor>, crtc: Option<u32>) -> (in_order:
    bool)
    ensures
        match after_matches(views(old(monitors)@), monitor_view(monitor), crtc) {
            Some(next) => in_order && views(final(monitors)@) == next,
            None => !in_order && final(monitors)@ == old(monitors)@,
        },
{
    match monitor {
        Some(monitor) => {
            monitors.push(monitor);
            true
        },
        None => match crtc {
            Some(index) => {
                // The CRTC belongs to the monitor found last.
                match monitors.pop() {
                    Some(last) => {
                        monitors.push(last.with_crtc(index));
                        true
                    },
                    None => false,
                }
            },
            None => true,
        },
    }
}

/// Takes one line of the output into account. Returns `false`, and leaves
/// the monitors as they are, where the line gives a CRTC and no monitor was
/// found before it.
pub fn apply_xrandr_line(
    display: &Regex,
    crtc: &Regex,
    monitors: &mut Vec<Monitor>,
    line: &[u8],
) -> (in_order: bool)
    ensures
        match after_line(*display, *crtc, views(old(monitors)@), line@) {
            Some(next) => in_order && views(final(monitors)@) == next,
            None => !in_order && final(monitors)@ == old(monitors)@,
        },
{
    // Only a line of valid UTF-8 is looked at.
    let text = match text_of(line) {
        Some(text) => text,
        None => {
            return true;
        },
    };
    proof {
        encode_utf8_decode_utf8(text@);
    }
    let monitor = try_monitor_from_xrandr_line(display, text);
    // A line that describes a monitor is not asked for a CRTC.
    let index = match monitor {
        Some(_) => None,
        None => try_crtc_from_xrandr_line(crtc, text),
    };
    apply_matches(monitors, monitor, index)
}

/// Reads the monitors off the output of `xrandr --current --verbose`.
/// `display` and `crtc` are the regular expressions that tell the two kinds
/// of line. There is no result where a CRTC is given before any monitor was
/// found.
pub fn monitors_from_xrandr_output(display: &Regex, crtc: &Regex, output: &[u8]) -> (res: Option<
    Vec<Monitor>,
>)
    ensures
        monitors_view(res) == monitors_of_output(*display, *crtc, output@),
{
    let mut monitors: Vec<Monitor> = Vec::new();
    let mut from: usize = 0;
    assert(views(monitors@) =~= Seq::<MonitorView>::empty());
    loop
        invariant
            from <= output.len(),
            monitors_of_output(*display, *crtc, output@) == monitors_of_lines(
                *display,
                *crtc,
                views(monitors@),
                output@,
                from as int,
            ),
        decreases output.len() - from,
    {
        let mut end: usize = from;
        while end < output.len() && output[end] != 0x0a
            invariant
                from <= end <= output.len(),
                line_end(output@, from as int) == line_end(output@, end as int),
            decreases output.len() - end,
        {
            end = end + 1;
        }
        let line = slice_subrange(output, from, end);
        if !apply_xrandr_line(display, crtc, &mut monitors, line) {
            return None;
        }
        if end == output.len() {
            return Some(monitors);
        }
        from = end + 1;
    }
}

} // verus!
