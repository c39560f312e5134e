use vstd::prelude::*;

use crate::cursor::{next_index, prev_index};
use crate::entry::Pid;
use crate::model::{arrange, next_sort_mode, selected_id, App, InputMode};

verus! {

/// A key press, as far as the key bindings tell keys apart.
#[derive(Clone, Copy, Debug, PartialEq, Eq, Structural)]
pub enum Key {
    Up,
    Down,
    Enter,
    Esc,
    Backspace,
    Char(char),
    /// Any key without a binding.
    Other,
}

/// What a key asks for in the current input mode.
#[derive(Clone, Copy, Debug, PartialEq, Eq, Structural)]
pub enum Command {
    Next,
    Prev,
    Kill,
    Quit,
    ToggleSort,
    StartEditing,
    Refresh,
    StopEditing,
    DeleteChar,
    Search,
    InsertChar(char),
    Ignore,
}

/// What the loop around the state has to do after a key: draw again, stop,
/// or fetch from the process table (after sending a termination request).
#[derive(Clone, Copy, Debug, PartialEq, Eq, Structural)]
pub enum Action {
    Render,
    Quit,
    Kill(Pid),
    Refresh,
    Search,
}

/// The key bindings of each input mode.
pub open spec fn route(mode: InputMode, key: Key) -> Command {
    match mode {
        InputMode::Normal => match key {
            Key::Down => Command::Next,
            Key::Up => Command::Prev,
            Key::Enter => Command::Kill,
            Key::Char(c) => if c == 'q' {
                Command::Quit
            } else if c == 'n' {
                Command::ToggleSort
            } else if c == 'j' {
                Command::Next
            } else if c == 'k' {
                Command::Prev
            } else if c == 'i' {
                Command::StartEditing
            } else if c == 'r' {
                Command::Refresh
            } else {
                Command::Ignore
            },
            _ => Command::Ignore,
        },
        InputMode::Editing => match key {
            Key::Esc => Command::StopEditing,
            Key::Backspace => Command::DeleteChar,
            Key::Enter => Command::Search,
            Key::Char(c) => Command::InsertChar(c),
            _ => Command::Ignore,
        },
    }
}

/// The action that the loop performs for command `c`, where `target` is the
/// id of the selected process.
pub open spec fn action_of(c: Command, target: Option<Pid>) -> Action {
    match c {
        Command::Quit => Action::Quit,
        Command::Kill => match target {
            Some(id) => Action::Kill(id),
            None => Action::Render,
        },
        Command::Refresh => Action::Refresh,
        Command::Search => Action::Search,
        _ => Action::Render,
    }
}

/// The search text after command `c`.
pub open spec fn search_input_after(c: Command, s: Seq<char>) -> Seq<char> {
    match c {
        Command::InsertChar(ch) => s.push(ch),
        Command::DeleteChar => if s.len() == 0 {
            s
        } else {
            s.drop_last()
        },
        _ => s,
    }
}

/// The input mode after command `c`.
pub open spec fn input_mode_after(c: Command, m: InputMode) -> InputMode {
    match c {
        Command::StartEditing => InputMode::Editing,
        Command::StopEditing => InputMode::Normal,
        _ => m,
    }
}

/// The selection after command `c` over a list of `len` rows.
pub open spec fn selected_after(c: Command, sel: Option<usize>, len: nat) -> Option<usize> {
    match c {
        Command::Next => next_index(sel, len),
        Command::Prev => prev_index(sel, len),
        _ => sel,
    }
}

/// Looks up the key bindings of `mode` for `key`.
pub fn command_for(mode: InputMode, key: Key) -> (r: Command)
    ensures
        r == route(mode, key),
{
    match mode {
        InputMode::Normal => match key {
            Key::Down => Command::Next,
            Key::Up => Command::Prev,
            Key::Enter => Command::Kill,
            Key::Char('q') => Command::Quit,
            Key::Char('n') => Command::ToggleSort,
            Key::Char('j') => Command::Next,
            Key::Char('k') => Command::Prev,
            Key::Char('i') => Command::StartEditing,
            Key::Char('r') => Command::Refresh,
            _ => Command::Ignore,
        },
        InputMode::Editing => match key {
            Key::Esc => Command::StopEditing,
            Key::Backspace => Command::DeleteChar,
            Key::Enter => Command::Search,
            Key::Char(c) => Command::InsertChar(c),
            _ => Command::Ignore,
        },
    }
}

impl App {
    /// Applies one key press: changes what needs no outside work and
    /// returns what the loop has to do next. The search text changes only
    /// while editing.
    pub fn handle_key(&mut self, key: Key) -> (action: Action)
        ensures
            action == action_of(route(old(self).input_mode, key), selected_id(old(self).processes@, old(self).selected)),
            final(self).selected == selected_after(route(old(self).input_mode, key), old(self).selected, old(self).processes@.len()),
            final(self).sort_mode == (if route(old(self).input_mode, key) == Command::ToggleSort {
                next_sort_mode(old(self).sort_mode)
            } else {
                old(self).sort_mode
            }),
            final(self).processes@ == (if route(old(self).input_mode, key) == Command::ToggleSort {
                arrange(old(self).processes@, next_sort_mode(old(self).sort_mode))
            } else {
                old(self).processes@
            }),
            final(self).search_input@ == search_input_after(route(old(self).input_mode, key), old(self).search_input@),
            final(self).input_mode == input_mode_after(route(old(self).input_mode, key), old(self).input_mode),
            old(self).input_mode == InputMode::Normal ==> final(self).search_input@ == old(self).search_input@,
            old(self).wf() ==> final(self).wf(),
    {
        let c = command_for(self.input_mode, key);
        match c {
            Command::Next => {
                self.next();
                Action::Render
            },
            Command::Prev => {
                self.prev();
                Action::Render
            },
            Command::Kill => match self.kill_target() {
                Some(id) => Action::Kill(id),
                None => Action::Render,
            },
            Command::Quit => Action::Quit,
            Command::ToggleSort => {
                self.switch_sort();
                Action::Render
            },
            Command::StartEditing => {
                self.enter_input_mode();
                Action::Render
            },
            Command::Refresh => Action::Refresh,
            Command::StopEditing => {
                self.exit_input_mode();
                Action::Render
            },
            Command::DeleteChar => {
                self.pop_search_char();
                Action::Render
            },
            Command::Search => Action::Search,
            Command::InsertChar(ch) => {
                self.push_search_char(ch);
                Action::Render
            },
            Command::Ignore => Action::Render,
        }
    }
}

} // verus!
