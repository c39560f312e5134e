use vstd::prelude::*;

verus! {

/// The selection after moving down one row in a list of `len` rows: the
/// first row when nothing is selected, the next row otherwise. Moving down
/// from the last row (or from an index at or past the end, as left behind
/// when the list shrinks) wraps to the first row.
pub open spec fn next_index(sel: Option<usize>, len: nat) -> Option<usize> {
    match sel {
        None => Some(0),
        Some(i) => if i + 1 >= len {
            Some(0)
        } else {
            Some((i + 1) as usize)
        },
    }
}

/// The selection after moving up one row in a list of `len` rows: the first
/// row when nothing is selected, the last row from the first row, and the
/// row above otherwise. The selection is not clamped to the list, so an index
/// past the end moves up by one. An empty list has no selection.
pub open spec fn prev_index(sel: Option<usize>, len: nat) -> Option<usize> {
    if len == 0 {
        None
    } else {
        match sel {
            None => Some(0),
            Some(i) => if i == 0 {
                Some((len - 1) as usize)
            } else {
                Some((i - 1) as usize)
            },
        }
    }
}

/// The selection after `n` moves down.
pub open spec fn next_n(sel: Option<usize>, len: nat, n: nat) -> Option<usize>
    decreases n,
{
    if n == 0 {
        sel
    } else {
        next_index(next_n(sel, len, (n - 1) as nat), len)
    }
}

/// Computes `next_index(sel, len)`.
pub fn next_selection(sel: Option<usize>, len: usize) -> (r: Option<usize>)
    ensures
        r == next_index(sel, len as nat),
        r.is_some(),
        len > 0 ==> r.unwrap() < len,
{
    match sel {
        None => Some(0),
        Some(i) => if len == 0 || i >= len - 1 {
            Some(0)
        } else {
            Some(i + 1)
        },
    }
}

/// Computes `prev_index(sel, len)`.
pub fn prev_selection(sel: Option<usize>, len: usize) -> (r: Option<usize>)
    ensures
        r == prev_index(sel, len as nat),
        len > 0 && (sel.is_none() || sel.unwrap() < len) ==> r.is_some() && r.unwrap() < len,
{
    if len == 0 {
        return None;
    }
    match sel {
        None => Some(0),
        Some(i) => if i == 0 {
            Some(len - 1)
        } else {
            Some(i - 1)
        },
    }
}

/// Moving down `k` times from the first row of a list longer than `k` lands
/// on row `k`.
pub proof fn lemma_next_n_from_first(len: nat, k: nat)
    requires
        k < len <= usize::MAX,
    ensures
        next_n(Some(0), len, k) == Some(k as usize),
    decreases k,
{
    if k > 0 {
        lemma_next_n_from_first(len, (k - 1) as nat);
    }
}

/// In a list of `len` rows, moving down `len` times from the first row comes
/// back to the first row.
pub proof fn lemma_next_wraps_around(len: nat)
    requires
        0 < len <= usize::MAX,
    ensures
        next_n(Some(0), len, len) == Some(0usize),
{
    lemma_next_n_from_first(len, (len - 1) as nat);
}

} // verus!
