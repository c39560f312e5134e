use vstd::prelude::*;

verus! {

/// Identifier of an operating-system process.
pub type Pid = u32;

/// One row of the process table: a process id and its display name.
pub struct ProcessEntry {
    pub id: Pid,
    pub name: String,
}

impl ProcessEntry {
    pub fn new(id: Pid, name: String) -> (r: ProcessEntry)
        ensures
            r.id == id,
            r.name@ == name@,
    {
        ProcessEntry { id, name }
    }

    /// A copy of this entry, equal to it.
    pub fn duplicate(&self) -> (r: ProcessEntry)
        ensures
            r == *self,
    {
        ProcessEntry { id: self.id, name: self.name.clone() }
    }
}

} // verus!

verus! {

/// No two entries of `s` share a process id.
pub open spec fn ids_unique(s: Seq<ProcessEntry>) -> bool {
    forall|i: int, j: int| 0 <= i < s.len() && 0 <= j < s.len() && i != j ==> #[trigger] s[i].id != #[trigger] s[j].id
}

/// The id `id` belongs to an entry of `s`.
pub open spec fn has_id(s: Seq<ProcessEntry>, id: Pid) -> bool {
    exists|k: int| 0 <= k < s.len() && #[trigger] s[k].id == id
}

/// Inserting an entry whose id is new keeps the ids unique.
pub proof fn lemma_insert_keeps_ids_unique(s: Seq<ProcessEntry>, p: int, e: ProcessEntry)
    requires
        ids_unique(s),
        !has_id(s, e.id),
        0 <= p <= s.len(),
    ensures
        ids_unique(s.insert(p, e)),
{
    let t = s.insert(p, e);
    assert forall|i: int, j: int| 0 <= i < t.len() && 0 <= j < t.len() && i != j implies #[trigger] t[i].id != #[trigger] t[j].id by {
        let si = if i < p { i } else { i - 1 };
        let sj = if j < p { j } else { j - 1 };
        if i == p {
            assert(t[j] == s[sj]);
        } else if j == p {
            assert(t[i] == s[si]);
        } else {
            assert(t[i] == s[si] && t[j] == s[sj]);
        }
    }
}

/// Reversing keeps the ids unique.
pub proof fn lemma_reverse_keeps_ids_unique(s: Seq<ProcessEntry>)
    requires
        ids_unique(s),
    ensures
        ids_unique(s.reverse()),
{
    let t = s.reverse();
    assert forall|i: int, j: int| 0 <= i < t.len() && 0 <= j < t.len() && i != j implies #[trigger] t[i].id != #[trigger] t[j].id by {
        assert(t[i] == s[s.len() - 1 - i] && t[j] == s[s.len() - 1 - j]);
    }
}

} // verus!
