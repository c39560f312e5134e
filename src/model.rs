use vstd::prelude::*;
use vstd::string::*;

use crate::cursor::{next_index, next_selection, prev_index, prev_selection};
use crate::entry::{ids_unique, lemma_reverse_keeps_ids_unique, Pid, ProcessEntry};
use crate::order::{
    lemma_sort_by_name_ids_unique, lemma_sort_by_name_idempotent, lemma_sort_by_name_permutes, lemma_sort_by_name_sorted, sort_by_name,
    sort_by_name_desc, sorted_ascending, sorted_by_name, sorted_descending,
};
use crate::search::{filter_by_term, filtered_by_term, lemma_filter_by_term_ids_unique};

verus! {

/// How the process list is ordered by name.
#[derive(Clone, Copy, Debug, PartialEq, Eq, Structural)]
pub enum SortMode {
    /// The initial state: no sort has been requested yet.
    Unsorted,
    Ascending,
    Descending,
}

/// Whether keys are read as commands or as search text.
#[derive(Clone, Copy, Debug, PartialEq, Eq, Structural)]
pub enum InputMode {
    Normal,
    Editing,
}

/// The sort mode that a toggle moves to: `Unsorted` and `Descending` go to
/// `Ascending`, `Ascending` goes to `Descending`.
pub open spec fn next_sort_mode(m: SortMode) -> SortMode {
    match m {
        SortMode::Ascending => SortMode::Descending,
        _ => SortMode::Ascending,
    }
}

/// The order in which a fetched snapshot is shown under sort mode `m`.
pub open spec fn arrange(s: Seq<ProcessEntry>, m: SortMode) -> Seq<ProcessEntry> {
    match m {
        SortMode::Unsorted => s,
        SortMode::Ascending => sort_by_name(s),
        SortMode::Descending => sort_by_name_desc(s),
    }
}

/// The id of the selected entry, if the selection points at an entry.
pub open spec fn selected_id(s: Seq<ProcessEntry>, sel: Option<usize>) -> Option<Pid> {
    match sel {
        Some(i) => if i < s.len() {
            Some(s[i as int].id)
        } else {
            None
        },
        None => None,
    }
}

/// What the operating system answered to a termination request.
#[derive(Clone, Copy, Debug, PartialEq, Eq, Structural)]
pub enum KillOutcome {
    /// The signal was delivered.
    Sent,
    /// No process with that id existed when the request was made.
    NotFound,
    /// The process existed but the signal was refused.
    Refused,
}

/// Why a kill did not go through.
#[derive(Clone, Copy, Debug, PartialEq, Eq, Structural)]
pub enum KillError {
    NotFound,
    KillFailed,
}

/// Relies on `String::push`: appends one character at the end.
#[verifier::external_body]
fn push_char(s: &mut String, c: char)
    ensures
        final(s)@ == old(s)@.push(c),
{
    s.push(c)
}

/// Relies on `String::pop`: removes and returns the last character, or
/// returns `None` and leaves an empty string as it is.
#[verifier::external_body]
fn pop_char(s: &mut String) -> (r: Option<char>)
    ensures
        old(s)@.len() == 0 ==> r.is_none() && final(s)@ == old(s)@,
        old(s)@.len() > 0 ==> r == Some(old(s)@.last()) && final(s)@ == old(s)@.drop_last(),
{
    s.pop()
}

/// Orders a fetched snapshot by sort mode `m`.
pub fn arranged(snapshot: Vec<ProcessEntry>, m: SortMode) -> (r: Vec<ProcessEntry>)
    ensures
        r@ == arrange(snapshot@, m),
        ids_unique(snapshot@) ==> ids_unique(r@),
{
    proof {
        if ids_unique(snapshot@) {
            lemma_arrange_ids_unique(snapshot@, m);
        }
    }
    match m {
        SortMode::Unsorted => snapshot,
        SortMode::Ascending => sorted_ascending(&snapshot),
        SortMode::Descending => sorted_descending(&snapshot),
    }
}

/// The state of the process killer: the shown processes, the selected row,
/// the sort mode, the search text and the input mode.
pub struct App {
    pub processes: Vec<ProcessEntry>,
    pub selected: Option<usize>,
    pub sort_mode: SortMode,
    pub search_input: String,
    pub input_mode: InputMode,
}

impl App {
    /// The shown entries have distinct process ids.
    pub open spec fn wf(&self) -> bool {
        ids_unique(self.processes@)
    }

    /// A new state over a fetched snapshot: the entries are shown in
    /// ascending name order although the sort mode is still `Unsorted`.
    pub fn new(snapshot: Vec<ProcessEntry>) -> (r: App)
        ensures
            r.processes@ == sort_by_name(snapshot@),
            r.selected.is_none(),
            r.sort_mode == SortMode::Unsorted,
            r.search_input@ == Seq::<char>::empty(),
            r.input_mode == InputMode::Normal,
            ids_unique(snapshot@) ==> r.wf(),
    {
        let processes = sorted_ascending(&snapshot);
        proof {
            if ids_unique(snapshot@) {
                lemma_sort_by_name_ids_unique(snapshot@);
            }
        }
        App {
            processes,
            selected: None,
            sort_mode: SortMode::Unsorted,
            search_input: String::new(),
            input_mode: InputMode::Normal,
        }
    }

    /// Toggles the sort mode and re-sorts the shown entries by name.
    pub fn switch_sort(&mut self)
        ensures
            final(self).sort_mode == next_sort_mode(old(self).sort_mode),
            final(self).processes@ == arrange(old(self).processes@, final(self).sort_mode),
            final(self).selected == old(self).selected,
            final(self).search_input == old(self).search_input,
            final(self).input_mode == old(self).input_mode,
            old(self).wf() ==> final(self).wf(),
    {
        let mode = match self.sort_mode {
            SortMode::Ascending => SortMode::Descending,
            _ => SortMode::Ascending,
        };
        let sorted = match mode {
            SortMode::Descending => sorted_descending(&self.processes),
            _ => sorted_ascending(&self.processes),
        };
        proof {
            if ids_unique(self.processes@) {
                lemma_arrange_ids_unique(self.processes@, mode);
            }
        }
        self.sort_mode = mode;
        self.processes = sorted;
    }

    /// Moves the selection one row down, wrapping from the last row to the
    /// first.
    pub fn next(&mut self)
        ensures
            final(self).selected == next_index(old(self).selected, old(self).processes@.len()),
            final(self).processes == old(self).processes,
            final(self).sort_mode == old(self).sort_mode,
            final(self).search_input == old(self).search_input,
            final(self).input_mode == old(self).input_mode,
    {
        self.selected = next_selection(self.selected, self.processes.len());
    }

    /// Moves the selection one row up, wrapping from the first row to the
    /// last.
    pub fn prev(&mut self)
        ensures
            final(self).selected == prev_index(old(self).selected, old(self).processes@.len()),
            final(self).processes == old(self).processes,
            final(self).sort_mode == old(self).sort_mode,
            final(self).search_input == old(self).search_input,
            final(self).input_mode == old(self).input_mode,
    {
        self.selected = prev_selection(self.selected, self.processes.len());
    }

    /// The id of the process to terminate: that of the selected row, or
    /// `None` when no row is selected or the selection is past the end.
    pub fn kill_target(&self) -> (r: Option<Pid>)
        ensures
            r == selected_id(self.processes@, self.selected),
    {
        match self.selected {
            Some(i) => if i < self.processes.len() {
                Some(self.processes[i].id)
            } else {
                None
            },
            None => None,
        }
    }

    /// Replaces the shown entries with a fresh snapshot, ordered by the
    /// current sort mode.
    pub fn refetch_process(&mut self, snapshot: Vec<ProcessEntry>)
        ensures
            final(self).processes@ == arrange(snapshot@, old(self).sort_mode),
            final(self).selected == old(self).selected,
            final(self).sort_mode == old(self).sort_mode,
            final(self).search_input == old(self).search_input,
            final(self).input_mode == old(self).input_mode,
            ids_unique(snapshot@) ==> final(self).wf(),
    {
        self.processes = arranged(snapshot, self.sort_mode);
    }

    /// Records the answer to a termination request and reconciles the list
    /// with the snapshot fetched after it.
    pub fn kill(&mut self, outcome: KillOutcome, snapshot: Vec<ProcessEntry>) -> (r: Result<(), KillError>)
        ensures
            final(self).processes@ == arrange(snapshot@, old(self).sort_mode),
            final(self).selected == old(self).selected,
            final(self).sort_mode == old(self).sort_mode,
            final(self).search_input == old(self).search_input,
            final(self).input_mode == old(self).input_mode,
            r == match outcome {
                KillOutcome::Sent => Ok(()),
                KillOutcome::NotFound => Err(KillError::NotFound),
                KillOutcome::Refused => Err(KillError::KillFailed),
            },
            ids_unique(snapshot@) ==> final(self).wf(),
    {
        self.refetch_process(snapshot);
        match outcome {
            KillOutcome::Sent => Ok(()),
            KillOutcome::NotFound => Err(KillError::NotFound),
            KillOutcome::Refused => Err(KillError::KillFailed),
        }
    }

    /// Starts reading keys as search text.
    pub fn enter_input_mode(&mut self)
        ensures
            final(self).input_mode == InputMode::Editing,
            final(self).processes == old(self).processes,
            final(self).selected == old(self).selected,
            final(self).sort_mode == old(self).sort_mode,
            final(self).search_input == old(self).search_input,
    {
        self.input_mode = InputMode::Editing;
    }

    /// Goes back to reading keys as commands.
    pub fn exit_input_mode(&mut self)
        ensures
            final(self).input_mode == InputMode::Normal,
            final(self).processes == old(self).processes,
            final(self).selected == old(self).selected,
            final(self).sort_mode == old(self).sort_mode,
            final(self).search_input == old(self).search_input,
    {
        self.input_mode = InputMode::Normal;
    }

    /// Shows the entries of a fresh snapshot, ordered by the current sort
    /// mode, that match the search text; an empty search text shows them all.
    pub fn search(&mut self, snapshot: Vec<ProcessEntry>)
        ensures
            final(self).processes@ == filter_by_term(arrange(snapshot@, old(self).sort_mode), old(self).search_input@),
            final(self).selected == old(self).selected,
            final(self).sort_mode == old(self).sort_mode,
            final(self).search_input == old(self).search_input,
            final(self).input_mode == old(self).input_mode,
            ids_unique(snapshot@) ==> final(self).wf(),
    {
        let all = arranged(snapshot, self.sort_mode);
        proof {
            if ids_unique(snapshot@) {
                lemma_filter_by_term_ids_unique(all@, self.search_input@);
            }
        }
        self.processes = filtered_by_term(all, self.search_input.as_str());
    }

    /// Appends a character to the search text.
    pub fn push_search_char(&mut self, c: char)
        ensures
            final(self).search_input@ == old(self).search_input@.push(c),
            final(self).processes == old(self).processes,
            final(self).selected == old(self).selected,
            final(self).sort_mode == old(self).sort_mode,
            final(self).input_mode == old(self).input_mode,
    {
        push_char(&mut self.search_input, c);
    }

    /// Removes the last character of the search text, if there is one.
    pub fn pop_search_char(&mut self)
        ensures
            final(self).search_input@ == (if old(self).search_input@.len() == 0 {
                old(self).search_input@
            } else {
                old(self).search_input@.drop_last()
            }),
            final(self).processes == old(self).processes,
            final(self).selected == old(self).selected,
            final(self).sort_mode == old(self).sort_mode,
            final(self).input_mode == old(self).input_mode,
    {
        let _ = pop_char(&mut self.search_input);
    }
}

} // verus!

verus! {

/// Toggling the sort twice from the initial state first shows the entries
/// in ascending name order, then exactly the reverse of that list.
pub proof fn lemma_toggle_sort_twice(s: Seq<ProcessEntry>)
    ensures
        next_sort_mode(SortMode::Unsorted) == SortMode::Ascending,
        next_sort_mode(SortMode::Ascending) == SortMode::Descending,
        arrange(s, SortMode::Ascending) == sort_by_name(s),
        sorted_by_name(arrange(s, SortMode::Ascending)),
        arrange(arrange(s, SortMode::Ascending), SortMode::Descending) == arrange(s, SortMode::Ascending).reverse(),
{
    lemma_sort_by_name_sorted(s);
    lemma_sort_by_name_idempotent(s);
}

/// For every list, the descending order is the reverse of the ascending
/// order, and both hold exactly the entries of the list.
pub proof fn lemma_descending_reverses_ascending(s: Seq<ProcessEntry>)
    ensures
        arrange(s, SortMode::Descending) == arrange(s, SortMode::Ascending).reverse(),
        arrange(s, SortMode::Ascending).to_multiset() == s.to_multiset(),
        arrange(s, SortMode::Descending).to_multiset() == s.to_multiset(),
{
    lemma_sort_by_name_permutes(s);
    sort_by_name(s).lemma_reverse_to_multiset();
}

/// A list arranged under any sort mode holds the same entries as the
/// snapshot it came from.
pub proof fn lemma_arrange_contains(s: Seq<ProcessEntry>, m: SortMode, e: ProcessEntry)
    ensures
        arrange(s, m).contains(e) <==> s.contains(e),
{
    lemma_descending_reverses_ascending(s);
    assert(arrange(s, m).to_multiset() == s.to_multiset());
    arrange(s, m).to_multiset_ensures();
    s.to_multiset_ensures();
    assert(arrange(s, m).to_multiset().count(e) == s.to_multiset().count(e));
}

/// When the snapshot taken after a kill no longer has the killed id, no
/// shown entry has it either, whatever the sort mode.
pub proof fn lemma_kill_reconciles(snapshot: Seq<ProcessEntry>, m: SortMode, id: Pid)
    requires
        forall|k: int| 0 <= k < snapshot.len() ==> #[trigger] snapshot[k].id != id,
    ensures
        forall|k: int| 0 <= k < arrange(snapshot, m).len() ==> #[trigger] arrange(snapshot, m)[k].id != id,
{
    assert forall|k: int| 0 <= k < arrange(snapshot, m).len() implies #[trigger] arrange(snapshot, m)[k].id != id by {
        let e = arrange(snapshot, m)[k];
        assert(arrange(snapshot, m).contains(e));
        lemma_arrange_contains(snapshot, m, e);
    }
}

} // verus!

verus! {

/// Arranging a snapshot under any sort mode keeps its ids unique.
pub proof fn lemma_arrange_ids_unique(s: Seq<ProcessEntry>, m: SortMode)
    requires
        ids_unique(s),
    ensures
        ids_unique(arrange(s, m)),
{
    lemma_sort_by_name_ids_unique(s);
    lemma_reverse_keeps_ids_unique(sort_by_name(s));
}

} // verus!
