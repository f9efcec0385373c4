//! The interaction state machine: what persists from one turn of the loop
//! to the next, and how a key, a command or a new snapshot changes it.

use vstd::prelude::*;
use crate::command::{
    is_filter_list, lemma_bad_filter_is_invalid, parse, parse_spec, Command, CommandView,
};
use crate::display::{
    clamp_scroll, clamped, confirm_filter, confirm_sort, filter_confirmation, get_process_info,
    invalid_command, invalid_command_text, max_scroll, process_info, sort_confirmation,
    viewport_height, viewport_rows, visible_rows, window,
};
use crate::event::{action_for, handle_events, input_after, ActionView, EventAction, KeyEvent};
use crate::filter::StateFilter;
use crate::layout::{create_layout, screen_layout, Area};
use crate::snapshot::Snapshot;
use crate::table::{ProcessTable, SortKey, TableView};
use crate::text::trimmed;
use crate::usage::ProcessUsage;

verus! {

/// The state that lasts across refreshes: the scroll offset, the text typed
/// so far, the text that the last command left, and the table with its
/// sort key and filter.
pub struct UIState {
    pub scroll_offset: usize,
    pub input_buffer: String,
    pub last_output: String,
    pub table: ProcessTable,
}

/// What the state holds.
pub struct UiView {
    pub scroll_offset: usize,
    pub input_buffer: Seq<char>,
    pub last_output: Seq<char>,
    pub table: TableView,
}

/// What is handed to the renderer for one frame.
#[derive(Debug, PartialEq, Eq)]
pub struct ViewModel {
    /// The rows that fit the viewport, from the scroll position on.
    pub rows: Vec<ProcessUsage>,
    /// The number of rows in the whole view.
    pub total_rows: usize,
    /// The place in the view of the first row shown.
    pub scroll_offset: usize,
    pub input_buffer: String,
    pub last_output: String,
}

/// One frame and where it goes on the screen.
#[derive(Debug, PartialEq, Eq)]
pub struct Screen {
    /// The pane of the system information, at the top.
    pub info: Area,
    /// The pane of the process table, border included.
    pub table: Area,
    /// The pane of the command input.
    pub input: Area,
    /// The pane of the command output.
    pub output: Area,
    /// The pane of the help line, below the output, if there is room.
    pub help: Option<Area>,
    /// What the panes show.
    pub frame: ViewModel,
}

/// The scroll offset one row further down, unless it is the largest number
/// there is.
pub open spec fn scrolled_down(offset: usize) -> usize {
    if offset < usize::MAX {
        (offset + 1) as usize
    } else {
        offset
    }
}

/// The scroll offset one row further up, unless it is at the top.
pub open spec fn scrolled_up(offset: usize) -> usize {
    if offset > 0 {
        (offset - 1) as usize
    } else {
        offset
    }
}

impl UiView {
    /// The state at the start: at the top of the table, nothing typed, no
    /// output, and the table as it is at the start.
    pub open spec fn initial() -> UiView {
        UiView {
            scroll_offset: 0,
            input_buffer: Seq::empty(),
            last_output: Seq::empty(),
            table: TableView::initial(),
        }
    }

    /// The state after a command was applied. Setting the sort key or the
    /// filter changes the table and confirms it; asking for a process
    /// writes its details or that it is missing; an invalid line writes an
    /// error. Nothing else changes.
    pub open spec fn run(self, command: CommandView) -> UiView {
        match command {
            CommandView::SetSort(key) => UiView {
                table: self.table.with_sort(key),
                last_output: sort_confirmation(key),
                ..self
            },
            CommandView::SetFilter(filter) => UiView {
                table: self.table.with_filter(filter),
                last_output: filter_confirmation(filter),
                ..self
            },
            CommandView::Inspect(pid) => UiView {
                last_output: process_info(self.table.snapshot, pid),
                ..self
            },
            CommandView::Invalid(_) => UiView { last_output: invalid_command_text(), ..self },
        }
    }

    /// The state after an action was carried out: scrolling moves the
    /// offset by one row, a command line is interpreted and applied and the
    /// typed text is cleared, quitting and nothing change nothing.
    pub open spec fn after_action(self, action: ActionView) -> UiView {
        match action {
            ActionView::Quit => self,
            ActionView::ScrollDown => UiView {
                scroll_offset: scrolled_down(self.scroll_offset),
                ..self
            },
            ActionView::ScrollUp => UiView { scroll_offset: scrolled_up(self.scroll_offset), ..self },
            ActionView::ExecuteCommand(line) => UiView {
                input_buffer: Seq::empty(),
                ..self.run(parse_spec(line))
            },
            ActionView::Nothing => self,
        }
    }

    /// The state after a key, or after none came in time.
    pub open spec fn after_key(self, event: Option<KeyEvent>) -> UiView {
        UiView { input_buffer: input_after(self.input_buffer, event), ..self }.after_action(
            action_for(self.input_buffer, event),
        )
    }

    /// The loop goes on after this key: every key but the one that quits.
    pub open spec fn goes_on(self, event: Option<KeyEvent>) -> bool {
        !(action_for(self.input_buffer, event) is Quit)
    }

    /// The state with the scroll offset held within the rows of the view.
    pub open spec fn held(self, viewport_height: usize) -> UiView {
        UiView {
            scroll_offset: clamped(
                self.scroll_offset as int,
                self.table.rows().len() as int,
                viewport_height as int,
            ) as usize,
            ..self
        }
    }
}

impl UiView {
    /// A line that is no command changes the output text and nothing else:
    /// the sort key, the filter, the snapshot and the scroll offset stay.
    pub proof fn lemma_invalid_keeps_state(self, line: Seq<char>)
        requires
            parse_spec(line) is Invalid,
        ensures
            self.run(parse_spec(line)) == (UiView { last_output: invalid_command_text(), ..self }),
            self.run(parse_spec(line)).table == self.table,
    {
    }

    /// Running a filter expression that is not a list of filter letters
    /// leaves the filter as it was and writes the error text, which is not
    /// empty.
    pub proof fn lemma_bad_filter_keeps_filter(self, line: Seq<char>)
        requires
            trimmed(line).len() > 0,
            trimmed(line)[0] == '/',
            !is_filter_list(trimmed(line).skip(1)),
        ensures
            self.after_action(ActionView::ExecuteCommand(line)).table.filter_set
                == self.table.filter_set,
            self.after_action(ActionView::ExecuteCommand(line)).table == self.table,
            self.after_action(ActionView::ExecuteCommand(line)).last_output
                == invalid_command_text(),
            invalid_command_text().len() > 0,
    {
        lemma_bad_filter_is_invalid(line);
        reveal_strlit(
            "Invalid command. Please enter 'cpu', 'memory', 'ppid', 'state', 'start_time', 'priority', or a valid PID.",
        );
    }

    /// A key quits the loop only if it is `q` and nothing has been typed;
    /// a `q` behind other text is appended to it and the loop goes on.
    pub proof fn lemma_q_is_text_while_editing(self, event: Option<KeyEvent>)
        ensures
            !self.goes_on(event) <==> (self.input_buffer.len() == 0 && event == Some(
                KeyEvent::Char('q'),
            )),
            self.input_buffer.len() > 0 && event == Some(KeyEvent::Char('q')) ==> self.after_key(
                event,
            ) == (UiView { input_buffer: self.input_buffer.push('q'), ..self }),
    {
    }

    /// After the scroll offset was held, it lies within zero and the
    /// largest offset that the view allows, for every viewport and every
    /// view.
    pub proof fn lemma_held_in_range(self, viewport_height: usize)
        ensures
            0 <= self.held(viewport_height).scroll_offset <= max_scroll(
                self.table.rows().len() as int,
                viewport_height as int,
            ),
            self.held(viewport_height).scroll_offset <= self.scroll_offset,
    {
    }
}

impl UIState {
    /// What the state holds.
    pub open spec fn model(self) -> UiView {
        UiView {
            scroll_offset: self.scroll_offset,
            input_buffer: self.input_buffer@,
            last_output: self.last_output@,
            table: self.table.model(),
        }
    }

    /// The state at the start: at the top, nothing typed, nothing shown, an
    /// empty table without sort key or filter, and both totals of its
    /// snapshot zero.
    pub fn new() -> (state: UIState)
        ensures
            state.model() == UiView::initial(),
            state.scroll_offset == 0,
            state.input_buffer@.len() == 0,
            state.last_output@.len() == 0,
            state.table.model().len() == 0,
            state.table.sort_key == SortKey::Unsorted,
            state.table.filter_set.is_empty_spec(),
    {
        UIState {
            scroll_offset: 0,
            input_buffer: String::new(),
            last_output: String::new(),
            table: ProcessTable::new(),
        }
    }

    /// Takes in a new snapshot. Nothing else changes.
    pub fn refresh(&mut self, snapshot: Snapshot)
        ensures
            final(self).table.snapshot == snapshot,
            final(self).model() == (UiView {
                table: old(self).model().table.with_snapshot(snapshot@),
                ..old(self).model()
            }),
    {
        self.table.apply(snapshot);
    }

    /// The active sort key.
    pub fn sort_key(&self) -> (key: SortKey)
        ensures
            key == self.table.sort_key,
    {
        self.table.sort_key
    }

    /// The active filter.
    pub fn filter_set(&self) -> (filter: StateFilter)
        ensures
            filter == self.table.filter_set,
    {
        self.table.filter_set
    }

    /// Applies a command to the table and to the output text.
    pub fn apply_command(&mut self, command: &Command)
        ensures
            final(self).model() == old(self).model().run(command@),
            final(self).table.snapshot == old(self).table.snapshot,
    {
        match command {
            Command::SetSort(key) => {
                self.table.set_sort(*key);
                self.last_output = confirm_sort(*key);
            },
            Command::SetFilter(filter) => {
                self.table.set_filter(*filter);
                self.last_output = confirm_filter(filter);
            },
            Command::Inspect(pid) => {
                self.last_output = get_process_info(&self.table.snapshot, *pid);
            },
            Command::Invalid(_) => {
                self.last_output = invalid_command();
            },
        }
    }

    /// Carries out an action and says whether the loop goes on.
    pub fn update(&mut self, action: &EventAction) -> (running: bool)
        ensures
            final(self).model() == old(self).model().after_action(action@),
            final(self).table.snapshot == old(self).table.snapshot,
            running == !(action@ is Quit),
    {
        match action {
            EventAction::Quit => false,
            EventAction::ScrollDown => {
                if self.scroll_offset < usize::MAX {
                    self.scroll_offset = self.scroll_offset + 1;
                }
                true
            },
            EventAction::ScrollUp => {
                if self.scroll_offset > 0 {
                    self.scroll_offset = self.scroll_offset - 1;
                }
                true
            },
            EventAction::ExecuteCommand(line) => {
                let command: Command = parse(line.as_str());
                self.apply_command(&command);
                self.input_buffer.clear();
                true
            },
            EventAction::Nothing => true,
        }
    }

    /// One turn of the state machine: takes a key, or none if the time
    /// allowed ran out, changes the state and says whether the loop goes
    /// on.
    pub fn step(&mut self, event: Option<KeyEvent>) -> (running: bool)
        ensures
            final(self).model() == old(self).model().after_key(event),
            final(self).table.snapshot == old(self).table.snapshot,
            running == old(self).model().goes_on(event),
    {
        let action: EventAction = handle_events(&mut self.input_buffer, event);
        self.update(&action)
    }

    /// Prepares one frame for a viewport of `viewport_height` rows: holds
    /// the scroll offset within the rows of the view and hands out the rows
    /// that the viewport shows, with the typed text and the output text.
    pub fn frame(&mut self, viewport_height: usize) -> (frame: ViewModel)
        ensures
            final(self).model() == old(self).model().held(viewport_height),
            final(self).table.snapshot == old(self).table.snapshot,
            0 <= final(self).scroll_offset <= max_scroll(
                old(self).table.model().rows().len() as int,
                viewport_height as int,
            ),
            frame.total_rows == old(self).table.model().rows().len(),
            frame.scroll_offset == final(self).scroll_offset,
            frame.rows@ == window(
                old(self).table.model().rows(),
                final(self).scroll_offset as int,
                viewport_height as int,
            ),
            frame.input_buffer@ == old(self).input_buffer@,
            frame.last_output@ == old(self).last_output@,
    {
        let rows: Vec<ProcessUsage> = self.table.view();
        self.scroll_offset = clamp_scroll(self.scroll_offset, rows.len(), viewport_height);
        ViewModel {
            rows: visible_rows(&rows, self.scroll_offset, viewport_height),
            total_rows: rows.len(),
            scroll_offset: self.scroll_offset,
            input_buffer: self.input_buffer.clone(),
            last_output: self.last_output.clone(),
        }
    }

    /// Puts one frame into the panes of the screen. `panes` are the four
    /// panes from the top: the system information, the process table, the
    /// command input and the lower pane. `lower` are the two parts of the
    /// lower pane, the command output above the help line, where it was cut;
    /// where it was not, the lower pane is the command output and there is
    /// no help line. The rows that fit inside the border of the table pane
    /// are the viewport, and the frame is prepared for it as `frame` does.
    pub fn arrange(&mut self, panes: &Vec<Area>, lower: Option<&Vec<Area>>) -> (out: Screen)
        requires
            panes.len() == 4,
            lower matches Some(parts) ==> parts.len() == 2,
        ensures
            out.info == panes[0],
            out.table == panes[1],
            out.input == panes[2],
            out.output == (match lower {
                Some(parts) => parts[0],
                None => panes[3],
            }),
            out.help == (match lower {
                Some(parts) => Some(parts[1]),
                None => None,
            }),
            final(self).model() == old(self).model().held(viewport_rows(panes[1].height)),
            final(self).table.snapshot == old(self).table.snapshot,
            0 <= final(self).scroll_offset <= max_scroll(
                old(self).table.model().rows().len() as int,
                viewport_rows(panes[1].height) as int,
            ),
            out.frame.total_rows == old(self).table.model().rows().len(),
            out.frame.scroll_offset == final(self).scroll_offset,
            out.frame.rows@ == window(
                old(self).table.model().rows(),
                final(self).scroll_offset as int,
                viewport_rows(panes[1].height) as int,
            ),
            out.frame.input_buffer@ == old(self).input_buffer@,
            out.frame.last_output@ == old(self).last_output@,
    {
        let table: Area = panes[1];
        let (output, help) = match lower {
            Some(parts) => (parts[0], Some(parts[1])),
            None => (panes[3], None),
        };
        let frame: ViewModel = self.frame(viewport_height(table.height));
        Screen { info: panes[0], table, input: panes[2], output, help, frame }
    }

    /// Lays one frame out on the screen: cuts the screen into the four
    /// panes, cuts the lower pane into the command output and the help line
    /// where that pane can be cut, and puts the frame into the panes as
    /// `arrange` does.
    pub fn compose(&mut self, screen: Area) -> (out: Screen)
        requires
            screen.admits(50),
        ensures
            final(self).model() == old(self).model().held(viewport_rows(out.table.height)),
            final(self).table.snapshot == old(self).table.snapshot,
            0 <= final(self).scroll_offset <= max_scroll(
                old(self).table.model().rows().len() as int,
                viewport_rows(out.table.height) as int,
            ),
            out.frame.total_rows == old(self).table.model().rows().len(),
            out.frame.scroll_offset == final(self).scroll_offset,
            out.frame.rows@ == window(
                old(self).table.model().rows(),
                final(self).scroll_offset as int,
                viewport_rows(out.table.height) as int,
            ),
            out.frame.input_buffer@ == old(self).input_buffer@,
            out.frame.last_output@ == old(self).last_output@,
            out.help is None ==> !out.output.admits(80),
    {
        let panes: Vec<Area> = screen_layout(screen);
        let lower: Area = panes[3];
        if lower.can_split(80) {
            let parts: Vec<Area> = create_layout(lower);
            self.arrange(&panes, Some(&parts))
        } else {
            self.arrange(&panes, None)
        }
    }
}

} // verus!
