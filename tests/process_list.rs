use process_killer::cursor::{next_selection, prev_selection};
use process_killer::entry::ProcessEntry;
use process_killer::model::{App, InputMode, KillError, KillOutcome, SortMode};
use process_killer::order::{name_le_exec, sorted_ascending, sorted_descending};
use process_killer::router::{command_for, Action, Command, Key};
use process_killer::search::{contains_str, filtered_by_term, name_matches};

fn entry(id: u32, name: &str) -> ProcessEntry {
    ProcessEntry::new(id, name.to_string())
}

fn three() -> Vec<ProcessEntry> {
    vec![entry(1, "bash"), entry(2, "zsh"), entry(3, "ash")]
}

fn names(v: &[ProcessEntry]) -> Vec<String> {
    v.iter().map(|e| e.name.clone()).collect()
}

fn ids(v: &[ProcessEntry]) -> Vec<u32> {
    v.iter().map(|e| e.id).collect()
}

fn unsorted_app(snapshot: Vec<ProcessEntry>) -> App {
    let mut app = App::new(Vec::new());
    app.refetch_process(snapshot);
    app
}

#[test]
fn new_shows_ascending_names_with_unsorted_mode() {
    let app = App::new(three());
    assert_eq!(names(&app.processes), vec!["ash", "bash", "zsh"]);
    assert_eq!(app.sort_mode, SortMode::Unsorted);
    assert_eq!(app.selected, None);
    assert_eq!(app.input_mode, InputMode::Normal);
    assert_eq!(app.search_input, "");
}

#[test]
fn toggle_sort_once_then_twice() {
    let mut app = unsorted_app(three());
    assert_eq!(names(&app.processes), vec!["bash", "zsh", "ash"]);
    app.switch_sort();
    assert_eq!(app.sort_mode, SortMode::Ascending);
    assert_eq!(names(&app.processes), vec!["ash", "bash", "zsh"]);
    app.switch_sort();
    assert_eq!(app.sort_mode, SortMode::Descending);
    assert_eq!(names(&app.processes), vec!["zsh", "bash", "ash"]);
    app.switch_sort();
    assert_eq!(app.sort_mode, SortMode::Ascending);
    assert_eq!(names(&app.processes), vec!["ash", "bash", "zsh"]);
}

#[test]
fn descending_is_reverse_of_ascending_with_ties() {
    let v = vec![entry(1, "b"), entry(2, "a"), entry(3, "b"), entry(4, "a"), entry(5, "B")];
    let asc = sorted_ascending(&v);
    assert_eq!(ids(&asc), vec![5, 2, 4, 1, 3]);
    let desc = sorted_descending(&v);
    assert_eq!(ids(&desc), vec![3, 1, 4, 2, 5]);
}

#[test]
fn sort_is_case_sensitive_and_prefix_first() {
    assert!(name_le_exec("Zsh", "ash"));
    assert!(!name_le_exec("ash", "Zsh"));
    assert!(name_le_exec("sh", "shell"));
    assert!(!name_le_exec("shell", "sh"));
    assert!(name_le_exec("", ""));
    let v = vec![entry(1, "shell"), entry(2, "sh"), entry(3, "Sh")];
    assert_eq!(names(&sorted_ascending(&v)), vec!["Sh", "sh", "shell"]);
}

#[test]
fn sort_empty_list() {
    let v: Vec<ProcessEntry> = Vec::new();
    assert!(sorted_ascending(&v).is_empty());
    assert!(sorted_descending(&v).is_empty());
}

#[test]
fn search_sh_keeps_all_three() {
    let mut app = unsorted_app(Vec::new());
    app.search_input = "sh".to_string();
    app.search(three());
    assert_eq!(names(&app.processes), vec!["bash", "zsh", "ash"]);
}

#[test]
fn search_keeps_names_inside_the_term() {
    let mut app = unsorted_app(Vec::new());
    app.search_input = "bashx".to_string();
    app.search(three());
    assert_eq!(names(&app.processes), vec!["bash", "ash"]);
}

#[test]
fn search_is_case_sensitive() {
    let mut app = unsorted_app(Vec::new());
    app.search_input = "SH".to_string();
    app.search(three());
    assert!(app.processes.is_empty());
}

#[test]
fn search_with_empty_term_restores_full_list() {
    let mut app = unsorted_app(Vec::new());
    app.search_input = "zs".to_string();
    app.search(three());
    assert_eq!(names(&app.processes), vec!["zsh"]);
    app.search_input = String::new();
    app.search(three());
    assert_eq!(names(&app.processes), vec!["bash", "zsh", "ash"]);
}

#[test]
fn search_applies_sort_mode() {
    let mut app = App::new(three());
    app.switch_sort();
    app.switch_sort();
    app.search_input = "sh".to_string();
    app.search(three());
    assert_eq!(names(&app.processes), vec!["zsh", "bash", "ash"]);
}

#[test]
fn substring_checks() {
    assert!(contains_str("bash", "sh"));
    assert!(contains_str("bash", ""));
    assert!(!contains_str("sh", "bash"));
    assert!(contains_str("bash", "bash"));
    assert!(!contains_str("bash", "bsh"));
    assert!(name_matches("bash", "ash"));
    assert!(name_matches("as", "bash"));
    assert!(!name_matches("zsh", "bash"));
}

#[test]
fn filter_keeps_order() {
    let v = vec![entry(1, "a"), entry(2, "ab"), entry(3, "c"), entry(4, "b")];
    assert_eq!(ids(&filtered_by_term(v, "ab")), vec![1, 2, 4]);
}

#[test]
fn next_from_none_selects_first() {
    let mut app = App::new(three());
    app.next();
    assert_eq!(app.selected, Some(0));
}

#[test]
fn prev_from_first_wraps_to_last() {
    let mut app = App::new(three());
    app.selected = Some(0);
    app.prev();
    assert_eq!(app.selected, Some(2));
}

#[test]
fn prev_from_none_selects_first() {
    let mut app = App::new(three());
    app.prev();
    assert_eq!(app.selected, Some(0));
}

#[test]
fn next_from_last_wraps_to_first() {
    let mut app = App::new(three());
    app.selected = Some(2);
    app.next();
    assert_eq!(app.selected, Some(0));
}

#[test]
fn next_n_times_returns_to_start() {
    let mut app = App::new(three());
    app.selected = Some(0);
    app.next();
    assert_eq!(app.selected, Some(1));
    app.next();
    assert_eq!(app.selected, Some(2));
    app.next();
    assert_eq!(app.selected, Some(0));
}

#[test]
fn navigation_on_empty_list() {
    let mut app = App::new(Vec::new());
    app.next();
    assert_eq!(app.selected, Some(0));
    app.prev();
    assert_eq!(app.selected, None);
    app.prev();
    assert_eq!(app.selected, None);
    assert_eq!(next_selection(None, 0), Some(0));
    assert_eq!(next_selection(Some(4), 0), Some(0));
    assert_eq!(prev_selection(Some(4), 0), None);
}

#[test]
fn navigation_from_past_the_end() {
    assert_eq!(next_selection(Some(7), 3), Some(0));
    assert_eq!(next_selection(Some(3), 3), Some(0));
    assert_eq!(prev_selection(Some(7), 3), Some(6));
    assert_eq!(prev_selection(Some(3), 3), Some(2));
    assert_eq!(prev_selection(Some(2), 3), Some(1));
    assert_eq!(next_selection(Some(usize::MAX), usize::MAX), Some(0));
}

#[test]
fn kill_target_needs_a_valid_selection() {
    let mut app = App::new(three());
    assert_eq!(app.kill_target(), None);
    app.selected = Some(1);
    assert_eq!(app.kill_target(), Some(1));
    app.selected = Some(3);
    assert_eq!(app.kill_target(), None);
}

#[test]
fn kill_reconciles_with_snapshot() {
    let mut app = App::new(three());
    app.selected = Some(0);
    let target = app.kill_target().unwrap();
    assert_eq!(target, 3);
    let after = vec![entry(1, "bash"), entry(2, "zsh")];
    assert_eq!(app.kill(KillOutcome::Sent, after), Ok(()));
    assert!(app.processes.iter().all(|e| e.id != target));
    assert_eq!(ids(&app.processes), vec![1, 2]);
}

#[test]
fn kill_errors_still_refresh() {
    let mut app = App::new(three());
    app.switch_sort();
    app.switch_sort();
    assert_eq!(app.kill(KillOutcome::NotFound, three()), Err(KillError::NotFound));
    assert_eq!(names(&app.processes), vec!["zsh", "bash", "ash"]);
    assert_eq!(app.kill(KillOutcome::Refused, Vec::new()), Err(KillError::KillFailed));
    assert!(app.processes.is_empty());
}

#[test]
fn refresh_applies_current_sort_mode() {
    let mut app = App::new(Vec::new());
    app.switch_sort();
    app.refetch_process(three());
    assert_eq!(names(&app.processes), vec!["ash", "bash", "zsh"]);
}

#[test]
fn key_bindings_normal_mode() {
    let n = InputMode::Normal;
    assert_eq!(command_for(n, Key::Down), Command::Next);
    assert_eq!(command_for(n, Key::Char('j')), Command::Next);
    assert_eq!(command_for(n, Key::Up), Command::Prev);
    assert_eq!(command_for(n, Key::Char('k')), Command::Prev);
    assert_eq!(command_for(n, Key::Enter), Command::Kill);
    assert_eq!(command_for(n, Key::Char('q')), Command::Quit);
    assert_eq!(command_for(n, Key::Char('n')), Command::ToggleSort);
    assert_eq!(command_for(n, Key::Char('i')), Command::StartEditing);
    assert_eq!(command_for(n, Key::Char('r')), Command::Refresh);
    assert_eq!(command_for(n, Key::Char('x')), Command::Ignore);
    assert_eq!(command_for(n, Key::Esc), Command::Ignore);
}

#[test]
fn key_bindings_editing_mode() {
    let e = InputMode::Editing;
    assert_eq!(command_for(e, Key::Esc), Command::StopEditing);
    assert_eq!(command_for(e, Key::Backspace), Command::DeleteChar);
    assert_eq!(command_for(e, Key::Enter), Command::Search);
    assert_eq!(command_for(e, Key::Char('q')), Command::InsertChar('q'));
    assert_eq!(command_for(e, Key::Down), Command::Ignore);
}

#[test]
fn handle_key_edits_search_only_while_editing() {
    let mut app = App::new(three());
    assert_eq!(app.handle_key(Key::Backspace), Action::Render);
    assert_eq!(app.handle_key(Key::Char('x')), Action::Render);
    assert_eq!(app.search_input, "");
    assert_eq!(app.handle_key(Key::Char('i')), Action::Render);
    assert_eq!(app.input_mode, InputMode::Editing);
    app.handle_key(Key::Char('s'));
    app.handle_key(Key::Char('h'));
    app.handle_key(Key::Char('q'));
    assert_eq!(app.search_input, "shq");
    app.handle_key(Key::Backspace);
    assert_eq!(app.search_input, "sh");
    assert_eq!(app.handle_key(Key::Enter), Action::Search);
    assert_eq!(app.handle_key(Key::Esc), Action::Render);
    assert_eq!(app.input_mode, InputMode::Normal);
    assert_eq!(app.handle_key(Key::Char('q')), Action::Quit);
}

#[test]
fn handle_key_backspace_on_empty_search() {
    let mut app = App::new(three());
    app.handle_key(Key::Char('i'));
    app.handle_key(Key::Backspace);
    assert_eq!(app.search_input, "");
}

#[test]
fn handle_key_navigation_sort_and_kill() {
    let mut app = App::new(three());
    assert_eq!(app.handle_key(Key::Enter), Action::Render);
    app.handle_key(Key::Down);
    app.handle_key(Key::Char('j'));
    assert_eq!(app.selected, Some(1));
    app.handle_key(Key::Char('k'));
    app.handle_key(Key::Up);
    assert_eq!(app.selected, Some(2));
    assert_eq!(app.handle_key(Key::Enter), Action::Kill(2));
    app.handle_key(Key::Char('n'));
    assert_eq!(app.sort_mode, SortMode::Ascending);
    app.handle_key(Key::Char('n'));
    assert_eq!(names(&app.processes), vec!["zsh", "bash", "ash"]);
    assert_eq!(app.handle_key(Key::Char('r')), Action::Refresh);
    assert_eq!(app.handle_key(Key::Other), Action::Render);
}

#[test]
fn push_and_pop_search_chars() {
    let mut app = App::new(Vec::new());
    app.push_search_char('a');
    app.push_search_char('\u{e9}');
    assert_eq!(app.search_input, "a\u{e9}");
    app.pop_search_char();
    assert_eq!(app.search_input, "a");
    app.pop_search_char();
    app.pop_search_char();
    assert_eq!(app.search_input, "");
}
