//! What is put on the screen: the detail block of one process, the
//! messages that answer a command, and the window of rows that fits the
//! viewport.

use chrono::{DateTime, Local};
use std::time::{Duration, UNIX_EPOCH};
use vstd::prelude::*;
use vstd::string::StringExecFns;
use crate::filter::StateFilter;
use crate::record::ProcessRecord;
use crate::snapshot::{position_of, Snapshot, SnapshotView};
use crate::table::SortKey;
use crate::text::{decimal, push_decimal, push_signed_decimal, signed_decimal};
use crate::usage::ProcessUsage;

verus! {

/// The detail block of one process: its pid, command name, one-letter
/// state code, ticks and virtual memory size in units of 1024 bytes, a line
/// each.
pub open spec fn process_info_text(record: ProcessRecord) -> Seq<char> {
    "PID: "@ + signed_decimal(record.pid as int) + "\nCommand: "@ + record.name@ + "\nState: "@
        + seq![record.state_letter] + "\nCPU Usage: "@ + decimal(record.cpu_ticks as nat)
        + " ticks\nMemory Usage: "@ + decimal((record.virtual_memory_bytes / 1024) as nat)
        + " KB"@
}

/// The message for a pid that no record has.
pub open spec fn missing_process_text(pid: i32) -> Seq<char> {
    "Failed to find process with PID "@ + signed_decimal(pid as int)
}

/// What is shown for `pid`: the detail block of the first record with that
/// pid, or the message that there is none.
pub open spec fn process_info(snapshot: SnapshotView, pid: i32) -> Seq<char> {
    match position_of(snapshot.records, pid) {
        Some(i) => process_info_text(snapshot.records[i]),
        None => missing_process_text(pid),
    }
}

/// Writes the detail block of `record`.
pub fn describe(record: &ProcessRecord) -> (text: String)
    ensures
        text@ == process_info_text(*record),
{
    let mut text: String = String::new();
    text.append("PID: ");
    assert(text@ == "PID: "@);
    push_signed_decimal(&mut text, record.pid as i64);
    text.append("\nCommand: ");
    text.append(record.name.as_str());
    text.append("\nState: ");
    let ghost before = text@;
    text.push(record.state_letter);
    assert(text@ == before + seq![record.state_letter]);
    text.append("\nCPU Usage: ");
    push_decimal(&mut text, record.cpu_ticks);
    text.append(" ticks\nMemory Usage: ");
    push_decimal(&mut text, record.virtual_memory_bytes / 1024);
    text.append(" KB");
    text
}

/// Looks `pid` up in the snapshot, whatever the table shows of it, and
/// writes the detail block of the process, or the message that there is no
/// such process.
pub fn get_process_info(snapshot: &Snapshot, pid: i32) -> (text: String)
    ensures
        text@ == process_info(snapshot@, pid),
{
    match snapshot.find(pid) {
        Some(i) => describe(&snapshot.records()[i]),
        None => {
            let mut text: String = String::new();
            text.append("Failed to find process with PID ");
            assert(text@ == "Failed to find process with PID "@);
            push_signed_decimal(&mut text, pid as i64);
            text
        },
    }
}

/// The word that names a sort key.
pub open spec fn sort_key_name(key: SortKey) -> Seq<char> {
    match key {
        SortKey::Unsorted => "none"@,
        SortKey::Cpu => "cpu"@,
        SortKey::Memory => "memory"@,
        SortKey::Ppid => "ppid"@,
        SortKey::State => "state"@,
        SortKey::StartTime => "start_time"@,
        SortKey::Priority => "priority"@,
    }
}

/// The message that confirms a sort key.
pub open spec fn sort_confirmation(key: SortKey) -> Seq<char> {
    "Sorting processes by "@ + sort_key_name(key)
}

/// Writes the message that confirms a sort key.
pub fn confirm_sort(key: SortKey) -> (text: String)
    ensures
        text@ == sort_confirmation(key),
{
    let mut text: String = String::new();
    text.append("Sorting processes by ");
    assert(text@ == "Sorting processes by "@);
    text.append(
        match key {
            SortKey::Unsorted => "none",
            SortKey::Cpu => "cpu",
            SortKey::Memory => "memory",
            SortKey::Ppid => "ppid",
            SortKey::State => "state",
            SortKey::StartTime => "start_time",
            SortKey::Priority => "priority",
        },
    );
    text
}

/// `word` if `listed`, and nothing if not.
pub open spec fn word_if(listed: bool, word: Seq<char>) -> Seq<char> {
    if listed {
        word
    } else {
        Seq::empty()
    }
}

/// The message that confirms a filter: the names of the states in it.
pub open spec fn filter_confirmation(filter: StateFilter) -> Seq<char> {
    "Showing processes in state:"@ + word_if(filter.running, " Running"@) + word_if(
        filter.sleeping,
        " Sleeping"@,
    ) + word_if(filter.disk_sleep, " Disk Sleep"@) + word_if(filter.zombie, " Zombie"@) + word_if(
        filter.stopped,
        " Stopped"@,
    ) + word_if(filter.idle, " Idle"@) + word_if(filter.unknown, " Unknown"@)
}

/// Appends `word` if `listed`.
fn append_if(text: &mut String, listed: bool, word: &str)
    ensures
        final(text)@ == old(text)@ + word_if(listed, word@),
{
    if listed {
        text.append(word);
    } else {
        assert(text@ + Seq::<char>::empty() == text@);
    }
}

/// Writes the message that confirms a filter.
pub fn confirm_filter(filter: &StateFilter) -> (text: String)
    ensures
        text@ == filter_confirmation(*filter),
{
    let mut text: String = String::new();
    text.append("Showing processes in state:");
    assert(text@ == "Showing processes in state:"@);
    append_if(&mut text, filter.running, " Running");
    append_if(&mut text, filter.sleeping, " Sleeping");
    append_if(&mut text, filter.disk_sleep, " Disk Sleep");
    append_if(&mut text, filter.zombie, " Zombie");
    append_if(&mut text, filter.stopped, " Stopped");
    append_if(&mut text, filter.idle, " Idle");
    append_if(&mut text, filter.unknown, " Unknown");
    text
}

/// The message for a line that is no command.
pub open spec fn invalid_command_text() -> Seq<char> {
    "Invalid command. Please enter 'cpu', 'memory', 'ppid', 'state', 'start_time', 'priority', or a valid PID."@
}

/// Writes the message for a line that is no command.
pub fn invalid_command() -> (text: String)
    ensures
        text@ == invalid_command_text(),
{
    "Invalid command. Please enter 'cpu', 'memory', 'ppid', 'state', 'start_time', 'priority', or a valid PID.".to_owned()
}

/// The largest scroll offset that still fills the viewport: the rows that
/// do not fit, and zero when all fit.
pub open spec fn max_scroll(view_len: int, viewport_height: int) -> int {
    if view_len > viewport_height {
        view_len - viewport_height
    } else {
        0
    }
}

/// The scroll offset held within the rows: `offset`, or the largest offset
/// allowed if `offset` is beyond it.
pub open spec fn clamped(offset: int, view_len: int, viewport_height: int) -> int {
    if offset > max_scroll(view_len, viewport_height) {
        max_scroll(view_len, viewport_height)
    } else {
        offset
    }
}

/// Holds a scroll offset within `0` and the largest offset that a view of
/// `view_len` rows allows in a viewport of `viewport_height` rows.
pub fn clamp_scroll(offset: usize, view_len: usize, viewport_height: usize) -> (held: usize)
    ensures
        held == clamped(offset as int, view_len as int, viewport_height as int),
        0 <= held <= max_scroll(view_len as int, viewport_height as int),
        held <= offset,
        held <= view_len,
{
    let limit: usize = if view_len > viewport_height {
        view_len - viewport_height
    } else {
        0
    };
    if offset > limit {
        limit
    } else {
        offset
    }
}

/// Where the window that starts at row `start` ends: after
/// `viewport_height` rows, or with the last row.
pub open spec fn window_end(start: int, view_len: int, viewport_height: int) -> int {
    if start + viewport_height < view_len {
        start + viewport_height
    } else {
        view_len
    }
}

/// Where the window begins: at `offset`, or behind the last row if
/// `offset` is beyond it.
pub open spec fn window_start(offset: int, view_len: int) -> int {
    if offset < view_len {
        offset
    } else {
        view_len
    }
}

/// The rows of `rows` that a viewport shows at a scroll offset.
pub open spec fn window(rows: Seq<ProcessUsage>, offset: int, viewport_height: int) -> Seq<
    ProcessUsage,
> {
    rows.subrange(
        window_start(offset, rows.len() as int),
        window_end(window_start(offset, rows.len() as int), rows.len() as int, viewport_height),
    )
}

/// Copies the rows that a viewport of `viewport_height` rows shows when
/// the first row shown is row `scroll_offset`.
pub fn visible_rows(rows: &Vec<ProcessUsage>, scroll_offset: usize, viewport_height: usize) -> (visible:
    Vec<ProcessUsage>)
    ensures
        visible@ == window(rows@, scroll_offset as int, viewport_height as int),
        visible@.len() <= viewport_height,
{
    let len: usize = rows.len();
    let start: usize = if scroll_offset < len {
        scroll_offset
    } else {
        len
    };
    let end: usize = if viewport_height < len - start {
        start + viewport_height
    } else {
        len
    };
    let mut visible: Vec<ProcessUsage> = Vec::new();
    let mut i: usize = start;
    while i < end
        invariant
            start <= i <= end <= rows.len(),
            visible@ == rows@.subrange(start as int, i as int),
        decreases end - i,
    {
        visible.push(rows[i].clone());
        assert(rows@.subrange(start as int, i as int).push(rows@[i as int]) == rows@.subrange(
            start as int,
            i + 1,
        ));
        i = i + 1;
    }
    visible
}

/// The rows of a table that fit inside a bordered area of `area_height`
/// lines: two lines go to the border, and an area of less has no room.
pub open spec fn viewport_rows(area_height: u16) -> usize {
    if area_height >= 2 {
        (area_height - 2) as usize
    } else {
        0
    }
}

/// Computes the rows of a table that fit inside a bordered area of
/// `area_height` lines.
pub fn viewport_height(area_height: u16) -> (rows: usize)
    ensures
        rows == viewport_rows(area_height),
{
    if area_height >= 2 {
        (area_height - 2) as usize
    } else {
        0
    }
}

/// The second at which a process started, counted as the clock that gave
/// `now_seconds` counts, for a start `start_ticks` hundredths of a second
/// ago; `None` if that lies before the clock's zero.
pub open spec fn start_second(now_seconds: u64, start_ticks: u64) -> Option<u64> {
    if start_ticks / 100 <= now_seconds {
        Some((now_seconds - start_ticks / 100) as u64)
    } else {
        None
    }
}

/// Computes the second at which a process started.
pub fn start_time_seconds(now_seconds: u64, start_ticks: u64) -> (second: Option<u64>)
    ensures
        second == start_second(now_seconds, start_ticks),
{
    let elapsed: u64 = start_ticks / 100;
    if elapsed <= now_seconds {
        Some(now_seconds - elapsed)
    } else {
        None
    }
}

/// The last second of the year 9999, counted from the start of 1970: the
/// last second whose time of day is written here.
pub const LAST_SECOND: u64 = 253_402_300_799;

/// `text` has the shape of a time of day: two characters each for the
/// hour, the minute and the second, with a colon between them.
pub open spec fn is_clock_text(text: Seq<char>) -> bool {
    &&& text.len() == 8
    &&& text[2] == ':'
    &&& text[5] == ':'
}

/// The date and time library's conversion of a point in time to the time
/// zone of this machine (`DateTime<Local>` from a `SystemTime`) and its
/// `format` with `%H:%M:%S`. Which time of day comes out depends on the
/// time zone, so only the shape of the text is claimed. The conversion
/// fails beyond the years that the library counts; seconds past the year
/// 9999 are left out.
#[verifier::external_body]
fn clock_text(second: u64) -> (text: String)
    requires
        second <= LAST_SECOND,
    ensures
        is_clock_text(text@),
{
    let start_time = UNIX_EPOCH + Duration::from_secs(second);
    let datetime: DateTime<Local> = start_time.into();
    datetime.format("%H:%M:%S").to_string()
}

/// Writes the time of day at which the second `second` fell, in the time
/// zone of this machine; `None` for a second past the year 9999.
pub fn format_clock(second: u64) -> (text: Option<String>)
    ensures
        text is Some <==> second <= LAST_SECOND,
        text matches Some(t) ==> is_clock_text(t@),
{
    if second <= LAST_SECOND {
        Some(clock_text(second))
    } else {
        None
    }
}

/// Writes the time of day at which a process started, in the time zone of
/// this machine, for a clock at `now_seconds` and a start `start_ticks`
/// hundredths of a second ago. There is no text where the start lies
/// before the clock's zero or past the year 9999.
pub fn format_start_time(now_seconds: u64, start_ticks: u64) -> (text: Option<String>)
    ensures
        text is Some <==> (start_second(now_seconds, start_ticks) matches Some(second) && second
            <= LAST_SECOND),
        text matches Some(t) ==> is_clock_text(t@),
{
    match start_time_seconds(now_seconds, start_ticks) {
        Some(second) => format_clock(second),
        None => None,
    }
}

} // verus!
