//! Keys and what they mean: quit, scroll, type, or run the typed command.

use vstd::prelude::*;

verus! {

/// One key press, as the input source classifies it.
#[derive(Clone, Copy, Debug, PartialEq, Eq, Structural)]
pub enum KeyEvent {
    Char(char),
    Backspace,
    Enter,
    ArrowUp,
    ArrowDown,
    Other,
}

/// What the loop has to do after a key.
#[derive(Debug, PartialEq, Eq)]
pub enum EventAction {
    Quit,
    ScrollUp,
    ScrollDown,
    /// Run this line as a command.
    ExecuteCommand(String),
    Nothing,
}

/// An action, with the text of a command as a sequence.
pub enum ActionView {
    Quit,
    ScrollUp,
    ScrollDown,
    ExecuteCommand(Seq<char>),
    Nothing,
}

impl View for EventAction {
    type V = ActionView;

    open spec fn view(&self) -> ActionView {
        match self {
            EventAction::Quit => ActionView::Quit,
            EventAction::ScrollUp => ActionView::ScrollUp,
            EventAction::ScrollDown => ActionView::ScrollDown,
            EventAction::ExecuteCommand(line) => ActionView::ExecuteCommand(line@),
            EventAction::Nothing => ActionView::Nothing,
        }
    }
}

/// The key is one of the three letters that act at once while nothing has
/// been typed: `q`, `j` and `k`.
pub open spec fn is_shortcut(c: char) -> bool {
    c == 'q' || c == 'j' || c == 'k'
}

/// The action that a key calls for when `input` has been typed so far.
/// While nothing has been typed, `q` quits and `j` and `k` scroll; once
/// something has, every character is text, `q` too. The arrows scroll and
/// the enter key runs the line, whatever has been typed. No key within
/// the time allowed is nothing.
pub open spec fn action_for(input: Seq<char>, event: Option<KeyEvent>) -> ActionView {
    match event {
        Some(KeyEvent::Char(c)) => if input.len() == 0 && c == 'q' {
            ActionView::Quit
        } else if input.len() == 0 && c == 'j' {
            ActionView::ScrollDown
        } else if input.len() == 0 && c == 'k' {
            ActionView::ScrollUp
        } else {
            ActionView::Nothing
        },
        Some(KeyEvent::ArrowDown) => ActionView::ScrollDown,
        Some(KeyEvent::ArrowUp) => ActionView::ScrollUp,
        Some(KeyEvent::Enter) => ActionView::ExecuteCommand(input),
        Some(KeyEvent::Backspace) => ActionView::Nothing,
        Some(KeyEvent::Other) => ActionView::Nothing,
        None => ActionView::Nothing,
    }
}

/// What has been typed after a key: a character is appended unless it
/// acted as a shortcut, the backspace key removes the last character if
/// there is one, and every other key leaves the text.
pub open spec fn input_after(input: Seq<char>, event: Option<KeyEvent>) -> Seq<char> {
    match event {
        Some(KeyEvent::Char(c)) => if input.len() == 0 && is_shortcut(c) {
            input
        } else {
            input.push(c)
        },
        Some(KeyEvent::Backspace) => if input.len() > 0 {
            input.drop_last()
        } else {
            input
        },
        _ => input,
    }
}

/// Takes one key, or none if the time allowed ran out: edits `input` and
/// says what the loop has to do.
pub fn handle_events(input: &mut String, event: Option<KeyEvent>) -> (action: EventAction)
    ensures
        action@ == action_for(old(input)@, event),
        final(input)@ == input_after(old(input)@, event),
{
    match event {
        Some(KeyEvent::Char(c)) => {
            let idle: bool = input.as_str().is_empty();
            if idle && c == 'q' {
                EventAction::Quit
            } else if idle && c == 'j' {
                EventAction::ScrollDown
            } else if idle && c == 'k' {
                EventAction::ScrollUp
            } else {
                input.push(c);
                EventAction::Nothing
            }
        },
        Some(KeyEvent::ArrowDown) => EventAction::ScrollDown,
        Some(KeyEvent::ArrowUp) => EventAction::ScrollUp,
        Some(KeyEvent::Enter) => EventAction::ExecuteCommand(input.clone()),
        Some(KeyEvent::Backspace) => {
            let _ = input.pop();
            EventAction::Nothing
        },
        Some(KeyEvent::Other) => EventAction::Nothing,
        None => EventAction::Nothing,
    }
}

/// Only `q` on an empty line quits: a `q` typed behind other text is text.
pub proof fn lemma_quit_only_when_idle(input: Seq<char>, event: Option<KeyEvent>)
    ensures
        action_for(input, event) is Quit <==> (input.len() == 0 && event == Some(
            KeyEvent::Char('q'),
        )),
        input.len() > 0 && event == Some(KeyEvent::Char('q')) ==> input_after(input, event)
            == input.push('q') && action_for(input, event) is Nothing,
{
}

} // verus!
