//! The command interpreter: one line of typed text becomes one command.

use vstd::prelude::*;
use crate::filter::StateFilter;
use crate::record::ProcessState;
use crate::table::SortKey;
use crate::text::{
    all_digits, is_digit, lower_code, lower_code_of, matches_ignoring_case, parse_i32,
    parse_i32_spec, same_ignoring_case, to_chars, trim_bounds, trimmed,
};

verus! {

/// What a line of text asks for.
#[derive(Debug, PartialEq, Eq)]
pub enum Command {
    /// Order the table by a key.
    SetSort(SortKey),
    /// Show only the processes in these states.
    SetFilter(StateFilter),
    /// Show the details of the process with this pid.
    Inspect(i32),
    /// The line is no command; it is kept as it was typed.
    Invalid(String),
}

/// A command, with the text of an invalid line as a sequence.
pub enum CommandView {
    SetSort(SortKey),
    SetFilter(StateFilter),
    Inspect(i32),
    Invalid(Seq<char>),
}

impl View for Command {
    type V = CommandView;

    open spec fn view(&self) -> CommandView {
        match self {
            Command::SetSort(key) => CommandView::SetSort(*key),
            Command::SetFilter(filter) => CommandView::SetFilter(*filter),
            Command::Inspect(pid) => CommandView::Inspect(*pid),
            Command::Invalid(text) => CommandView::Invalid(text@),
        }
    }
}

/// The sort key that the word `t` names, in any mix of upper and lower
/// case.
pub open spec fn sort_keyword(t: Seq<char>) -> Option<SortKey> {
    if same_ignoring_case(t, "cpu"@) {
        Some(SortKey::Cpu)
    } else if same_ignoring_case(t, "memory"@) {
        Some(SortKey::Memory)
    } else if same_ignoring_case(t, "ppid"@) {
        Some(SortKey::Ppid)
    } else if same_ignoring_case(t, "state"@) {
        Some(SortKey::State)
    } else if same_ignoring_case(t, "start_time"@) {
        Some(SortKey::StartTime)
    } else if same_ignoring_case(t, "priority"@) {
        Some(SortKey::Priority)
    } else {
        None
    }
}

/// The state that a letter of a filter names: `I`, `S`, `R` or `Z`, in
/// either case.
pub open spec fn filter_letter(c: char) -> Option<ProcessState> {
    let code = lower_code(c);
    if code == 0x69 {
        Some(ProcessState::Idle)
    } else if code == 0x73 {
        Some(ProcessState::Sleeping)
    } else if code == 0x72 {
        Some(ProcessState::Running)
    } else if code == 0x7A {
        Some(ProcessState::Zombie)
    } else {
        None
    }
}

/// `list` is a list of filter letters with one comma between each two:
/// a letter at every even place and a comma at every odd one, ending in a
/// letter.
pub open spec fn is_filter_list(list: Seq<char>) -> bool {
    &&& list.len() % 2 == 1
    &&& forall|i: int|
        0 <= i < list.len() ==> if i % 2 == 0 {
            filter_letter(#[trigger] list[i]) is Some
        } else {
            list[i] == ','
        }
}

/// One of the letters of `list` names `state`.
pub open spec fn listed(list: Seq<char>, state: ProcessState) -> bool {
    exists|i: int|
        0 <= i < list.len() && i % 2 == 0 && filter_letter(#[trigger] list[i]) == Some(state)
}

/// The set of the states that the letters of `list` name.
pub open spec fn filter_of(list: Seq<char>) -> StateFilter {
    StateFilter {
        running: listed(list, ProcessState::Running),
        sleeping: listed(list, ProcessState::Sleeping),
        disk_sleep: listed(list, ProcessState::DiskSleep),
        zombie: listed(list, ProcessState::Zombie),
        stopped: listed(list, ProcessState::Stopped),
        idle: listed(list, ProcessState::Idle),
        unknown: listed(list, ProcessState::Unknown),
    }
}

/// The command that `line` stands for. The white space around the line
/// does not count. A sort keyword sets the sort key; a slash before a list
/// of filter letters sets the filter, and a slash before anything else is
/// invalid as a whole; a number that fits a pid asks for that process; the
/// rest is invalid.
pub open spec fn parse_spec(line: Seq<char>) -> CommandView {
    let t = trimmed(line);
    match sort_keyword(t) {
        Some(key) => CommandView::SetSort(key),
        None => if t.len() > 0 && t[0] == '/' {
            if is_filter_list(t.skip(1)) {
                CommandView::SetFilter(filter_of(t.skip(1)))
            } else {
                CommandView::Invalid(line)
            }
        } else {
            match parse_i32_spec(t) {
                Some(pid) => CommandView::Inspect(pid),
                None => CommandView::Invalid(line),
            }
        },
    }
}

/// A line that begins with a slash names no sort key and writes no number:
/// it is a filter or nothing.
pub proof fn lemma_slash_line(t: Seq<char>)
    requires
        t.len() > 0,
        t[0] == '/',
    ensures
        sort_keyword(t) is None,
        parse_i32_spec(t) is None,
{
    reveal_strlit("cpu");
    reveal_strlit("memory");
    reveal_strlit("ppid");
    reveal_strlit("state");
    reveal_strlit("start_time");
    reveal_strlit("priority");
    assert(lower_code(t[0]) == 0x2F);
    assert(!is_digit(t[0]));
    if t.len() > 1 {
        assert(!all_digits(t)) by {
            if all_digits(t) {
                assert(is_digit(t[0]));
            }
        }
    }
}

/// A slash before anything but a list of filter letters is invalid as a
/// whole, with the line kept as it was typed: no part of such a line is
/// applied.
pub proof fn lemma_bad_filter_is_invalid(line: Seq<char>)
    requires
        trimmed(line).len() > 0,
        trimmed(line)[0] == '/',
        !is_filter_list(trimmed(line).skip(1)),
    ensures
        parse_spec(line) == CommandView::Invalid(line),
{
    lemma_slash_line(trimmed(line));
}

/// Computes `filter_letter`.
fn letter_state(c: char) -> (state: Option<ProcessState>)
    ensures
        state == filter_letter(c),
{
    let code: u32 = lower_code_of(c);
    if code == 0x69 {
        Some(ProcessState::Idle)
    } else if code == 0x73 {
        Some(ProcessState::Sleeping)
    } else if code == 0x72 {
        Some(ProcessState::Running)
    } else if code == 0x7A {
        Some(ProcessState::Zombie)
    } else {
        None
    }
}

/// Reads the filter list that the characters of `chars` from `start` up to
/// `end` write, if they write one.
fn parse_filter(chars: &Vec<char>, start: usize, end: usize) -> (filter: Option<StateFilter>)
    requires
        start <= end <= chars.len(),
    ensures
        filter == if is_filter_list(chars@.subrange(start as int, end as int)) {
            Some(filter_of(chars@.subrange(start as int, end as int)))
        } else {
            None
        },
{
    let ghost list = chars@.subrange(start as int, end as int);
    let n: usize = end - start;
    if n % 2 == 0 {
        return None;
    }
    let mut filter: StateFilter = StateFilter::empty();
    let mut i: usize = 0;
    while i < n
        invariant
            i <= n,
            n == end - start,
            n % 2 == 1,
            start <= end <= chars.len(),
            list == chars@.subrange(start as int, end as int),
            forall|j: int|
                0 <= j < i ==> if j % 2 == 0 {
                    filter_letter(#[trigger] list[j]) is Some
                } else {
                    list[j] == ','
                },
            forall|state: ProcessState|
                filter.allows(state) <==> exists|j: int|
                    0 <= j < i && j % 2 == 0 && filter_letter(#[trigger] list[j]) == Some(state),
        decreases n - i,
    {
        let c: char = chars[start + i];
        assert(list[i as int] == c);
        if i % 2 == 0 {
            match letter_state(c) {
                Some(state) => {
                    let ghost before = filter;
                    filter.insert(state);
                    proof {
                        assert forall|s: ProcessState| filter.allows(s) <==> exists|j: int|
                            0 <= j < i + 1 && j % 2 == 0 && filter_letter(#[trigger] list[j])
                                == Some(s) by {
                            if filter.allows(s) {
                                if s == state {
                                    assert(filter_letter(list[i as int]) == Some(s));
                                } else {
                                    assert(before.allows(s));
                                    let w = choose|j: int|
                                        0 <= j < i && j % 2 == 0 && filter_letter(
                                            #[trigger] list[j],
                                        ) == Some(s);
                                    assert(filter_letter(list[w]) == Some(s));
                                }
                            }
                            if exists|j: int|
                                0 <= j < i + 1 && j % 2 == 0 && filter_letter(#[trigger] list[j])
                                    == Some(s) {
                                let w = choose|j: int|
                                    0 <= j < i + 1 && j % 2 == 0 && filter_letter(
                                        #[trigger] list[j],
                                    ) == Some(s);
                                if w < i {
                                    assert(before.allows(s));
                                }
                            }
                        }
                    }
                },
                None => {
                    return None;
                },
            }
        } else if c != ',' {
            return None;
        }
        i = i + 1;
    }
    proof {
        assert(is_filter_list(list));
        assert(filter.allows(ProcessState::Running) == listed(list, ProcessState::Running));
        assert(filter.allows(ProcessState::Sleeping) == listed(list, ProcessState::Sleeping));
        assert(filter.allows(ProcessState::DiskSleep) == listed(list, ProcessState::DiskSleep));
        assert(filter.allows(ProcessState::Zombie) == listed(list, ProcessState::Zombie));
        assert(filter.allows(ProcessState::Stopped) == listed(list, ProcessState::Stopped));
        assert(filter.allows(ProcessState::Idle) == listed(list, ProcessState::Idle));
        assert(filter.allows(ProcessState::Unknown) == listed(list, ProcessState::Unknown));
        assert(filter == filter_of(list));
    }
    Some(filter)
}

/// Interprets one line of typed text. Every line gives a command; one that
/// asks for nothing that can be done gives `Invalid` with the line in it.
pub fn parse(line: &str) -> (command: Command)
    ensures
        command@ == parse_spec(line@),
{
    let chars: Vec<char> = to_chars(line);
    let (start, end) = trim_bounds(&chars);
    let ghost t = trimmed(line@);
    assert(t == chars@.subrange(start as int, end as int));
    if matches_ignoring_case(&chars, start, end, "cpu") {
        return Command::SetSort(SortKey::Cpu);
    }
    if matches_ignoring_case(&chars, start, end, "memory") {
        return Command::SetSort(SortKey::Memory);
    }
    if matches_ignoring_case(&chars, start, end, "ppid") {
        return Command::SetSort(SortKey::Ppid);
    }
    if matches_ignoring_case(&chars, start, end, "state") {
        return Command::SetSort(SortKey::State);
    }
    if matches_ignoring_case(&chars, start, end, "start_time") {
        return Command::SetSort(SortKey::StartTime);
    }
    if matches_ignoring_case(&chars, start, end, "priority") {
        return Command::SetSort(SortKey::Priority);
    }
    if start < end && chars[start] == '/' {
        assert(t[0] == '/');
        assert(t.skip(1) == chars@.subrange(start + 1, end as int));
        return match parse_filter(&chars, start + 1, end) {
            Some(filter) => Command::SetFilter(filter),
            None => Command::Invalid(line.to_owned()),
        };
    }
    assert(t.len() > 0 ==> t[0] == chars[start as int]);
    match parse_i32(&chars, start, end) {
        Some(pid) => Command::Inspect(pid),
        None => Command::Invalid(line.to_owned()),
    }
}

} // verus!
