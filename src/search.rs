use vstd::prelude::*;
use vstd::string::*;

use crate::entry::{has_id, ids_unique, lemma_insert_keeps_ids_unique, ProcessEntry};

verus! {

/// `p` occurs as a contiguous run of characters inside `s`.
pub open spec fn is_substring(p: Seq<char>, s: Seq<char>) -> bool {
    exists|i: int| 0 <= i && i + p.len() <= s.len() && #[trigger] s.subrange(i, i + p.len()) == p
}

/// An entry named `name` matches the search term `term` when either occurs
/// inside the other.
pub open spec fn matches_term(term: Seq<char>, name: Seq<char>) -> bool {
    is_substring(term, name) || is_substring(name, term)
}

/// The entries of `s` that survive a search for `term`, in their order; an
/// empty term keeps them all.
pub open spec fn filter_by_term(s: Seq<ProcessEntry>, term: Seq<char>) -> Seq<ProcessEntry> {
    if term.len() == 0 {
        s
    } else {
        s.filter(|e: ProcessEntry| matches_term(term, e.name@))
    }
}

fn occurs_at(p: &str, s: &str, i: usize, lp: usize, ls: usize) -> (r: bool)
    requires
        lp == p@.len(),
        ls == s@.len(),
        i + lp <= ls,
    ensures
        r == (s@.subrange(i as int, i + lp) == p@),
{
    let mut k: usize = 0;
    while k < lp
        invariant
            k <= lp,
            lp == p@.len(),
            ls == s@.len(),
            i + lp <= ls,
            forall|m: int| 0 <= m < k ==> s@[i + m] == p@[m],
        decreases lp - k,
    {
        if s.get_char(i + k) != p.get_char(k) {
            assert(s@.subrange(i as int, i + lp)[k as int] != p@[k as int]);
            return false;
        }
        k = k + 1;
    }
    assert(s@.subrange(i as int, i + lp) =~= p@);
    true
}

/// Whether `p` occurs inside `s`.
pub fn contains_str(s: &str, p: &str) -> (r: bool)
    ensures
        r == is_substring(p@, s@),
{
    let ls = s.unicode_len();
    let lp = p.unicode_len();
    if lp > ls {
        return false;
    }
    if lp == 0 {
        assert(s@.subrange(0, 0 + p@.len() as int) =~= p@);
        return true;
    }
    let mut i: usize = 0;
    while i <= ls - lp
        invariant
            ls == s@.len(),
            lp == p@.len(),
            0 < lp <= ls,
            i <= ls - lp + 1,
            forall|k: int| 0 <= k < i ==> #[trigger] s@.subrange(k, k + lp) != p@,
        decreases ls - lp + 1 - i,
    {
        if occurs_at(p, s, i, lp, ls) {
            assert(s@.subrange(i as int, i + p@.len()) == p@);
            return true;
        }
        i = i + 1;
    }
    false
}

/// Whether an entry named `name` survives a search for `term`.
pub fn name_matches(term: &str, name: &str) -> (r: bool)
    ensures
        r == matches_term(term@, name@),
{
    contains_str(name, term) || contains_str(term, name)
}

/// Keeps the entries of `v` that match `term`, in order; an empty term keeps
/// every entry.
pub fn filtered_by_term(v: Vec<ProcessEntry>, term: &str) -> (r: Vec<ProcessEntry>)
    ensures
        r@ == filter_by_term(v@, term@),
{
    if term.unicode_len() == 0 {
        return v;
    }
    let ghost pred = |e: ProcessEntry| matches_term(term@, e.name@);
    let mut r: Vec<ProcessEntry> = Vec::new();
    let mut i: usize = 0;
    while i < v.len()
        invariant
            i <= v.len(),
            term@.len() > 0,
            pred == (|e: ProcessEntry| matches_term(term@, e.name@)),
            r@ == v@.subrange(0, i as int).filter(pred),
        decreases v.len() - i,
    {
        proof {
            assert(v@.subrange(0, i + 1) =~= v@.subrange(0, i as int).push(v@[i as int]));
            v@.subrange(0, i as int).lemma_filter_push(v@[i as int], pred);
        }
        if name_matches(term, v[i].name.as_str()) {
            r.push(v[i].duplicate());
        }
        i = i + 1;
    }
    assert(v@.subrange(0, v.len() as int) =~= v@);
    r
}

} // verus!

verus! {

/// The empty term occurs inside every name.
pub proof fn lemma_empty_is_substring(s: Seq<char>)
    ensures
        is_substring(Seq::<char>::empty(), s),
{
    assert(s.subrange(0, 0 + Seq::<char>::empty().len() as int) =~= Seq::<char>::empty());
}

/// An entry survives a search for `term` exactly when it was present and
/// either the term occurs in its name or its name occurs in the term.
pub proof fn lemma_filter_by_term_membership(s: Seq<ProcessEntry>, term: Seq<char>, e: ProcessEntry)
    ensures
        filter_by_term(s, term).contains(e) <==> (s.contains(e) && (is_substring(term, e.name@)
            || is_substring(e.name@, term))),
{
    broadcast use vstd::seq_lib::group_filter_ensures;

    let pred = |x: ProcessEntry| matches_term(term, x.name@);
    if term.len() == 0 {
        assert(term =~= Seq::<char>::empty());
        lemma_empty_is_substring(e.name@);
    } else {
        if s.filter(pred).contains(e) {
            s.lemma_filter_contains_rev(pred, e);
            let k = choose|k: int| 0 <= k < s.filter(pred).len() && s.filter(pred)[k] == e;
            s.lemma_filter_pred(pred, k);
        }
        if s.contains(e) && pred(e) {
            let k = choose|k: int| 0 <= k < s.len() && s[k] == e;
            s.lemma_filter_contains(pred, k);
        }
    }
}

/// A search for the empty term keeps the whole list, in order.
pub proof fn lemma_filter_by_empty_term(s: Seq<ProcessEntry>)
    ensures
        filter_by_term(s, Seq::<char>::empty()) == s,
{
}

} // verus!

verus! {

/// Keeping only some entries keeps the ids unique.
pub proof fn lemma_filter_ids_unique(s: Seq<ProcessEntry>, pred: spec_fn(ProcessEntry) -> bool)
    requires
        ids_unique(s),
    ensures
        ids_unique(s.filter(pred)),
    decreases s.len(),
{
    if s.len() > 0 {
        let d = s.drop_last();
        let e = s.last();
        let f = d.filter(pred);
        assert(ids_unique(d)) by {
            assert forall|i: int, j: int| 0 <= i < d.len() && 0 <= j < d.len() && i != j implies #[trigger] d[i].id != #[trigger] d[j].id by {
                assert(d[i] == s[i] && d[j] == s[j]);
            }
        }
        lemma_filter_ids_unique(d, pred);
        assert(d.push(e) =~= s);
        d.lemma_filter_push(e, pred);
        if pred(e) {
            assert(!has_id(f, e.id)) by {
                if has_id(f, e.id) {
                    let k = choose|k: int| 0 <= k < f.len() && #[trigger] f[k].id == e.id;
                    assert(f.contains(f[k]));
                    d.lemma_filter_contains_rev(pred, f[k]);
                    let q = choose|q: int| 0 <= q < d.len() && d[q] == f[k];
                    assert(s[q] == d[q] && s[s.len() - 1] == e);
                }
            }
            lemma_insert_keeps_ids_unique(f, f.len() as int, e);
            assert(f.insert(f.len() as int, e) =~= f.push(e));
        }
    }
}

/// A search keeps the ids unique.
pub proof fn lemma_filter_by_term_ids_unique(s: Seq<ProcessEntry>, term: Seq<char>)
    requires
        ids_unique(s),
    ensures
        ids_unique(filter_by_term(s, term)),
{
    if term.len() > 0 {
        lemma_filter_ids_unique(s, |e: ProcessEntry| matches_term(term, e.name@));
    }
}

} // verus!
