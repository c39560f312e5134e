use vstd::prelude::*;
use vstd::string::*;

use crate::entry::{has_id, ids_unique, lemma_insert_keeps_ids_unique, ProcessEntry};

verus! {

/// Case-sensitive lexicographic "less than or equal" on names, comparing
/// characters by their code point.
pub open spec fn name_le(a: Seq<char>, b: Seq<char>) -> bool
    decreases a.len(),
{
    if a.len() == 0 {
        true
    } else if b.len() == 0 {
        false
    } else if a[0] != b[0] {
        a[0] < b[0]
    } else {
        name_le(a.drop_first(), b.drop_first())
    }
}

/// Every name is ordered before or equal to itself.
pub proof fn lemma_name_le_reflexive(a: Seq<char>)
    ensures
        name_le(a, a),
    decreases a.len(),
{
    if a.len() > 0 {
        lemma_name_le_reflexive(a.drop_first());
    }
}

/// Any two names are comparable.
pub proof fn lemma_name_le_total(a: Seq<char>, b: Seq<char>)
    ensures
        name_le(a, b) || name_le(b, a),
    decreases a.len(),
{
    if a.len() > 0 && b.len() > 0 && a[0] == b[0] {
        lemma_name_le_total(a.drop_first(), b.drop_first());
    }
}

/// The name order is transitive.
pub proof fn lemma_name_le_transitive(a: Seq<char>, b: Seq<char>, c: Seq<char>)
    requires
        name_le(a, b),
        name_le(b, c),
    ensures
        name_le(a, c),
    decreases a.len(),
{
    if a.len() > 0 && b.len() > 0 && c.len() > 0 && a[0] == b[0] && b[0] == c[0] {
        lemma_name_le_transitive(a.drop_first(), b.drop_first(), c.drop_first());
    }
}

/// Compares two names in the order of `name_le`.
pub fn name_le_exec(a: &str, b: &str) -> (r: bool)
    ensures
        r == name_le(a@, b@),
{
    let la = a.unicode_len();
    let lb = b.unicode_len();
    let mut i: usize = 0;
    assert(a@.subrange(0, la as int) =~= a@);
    assert(b@.subrange(0, lb as int) =~= b@);
    while i < la && i < lb
        invariant
            i <= la,
            i <= lb,
            la == a@.len(),
            lb == b@.len(),
            name_le(a@, b@) == name_le(a@.subrange(i as int, la as int), b@.subrange(i as int, lb as int)),
        decreases la - i,
    {
        let ca = a.get_char(i);
        let cb = b.get_char(i);
        proof {
            let sa = a@.subrange(i as int, la as int);
            let sb = b@.subrange(i as int, lb as int);
            assert(sa.drop_first() =~= a@.subrange(i + 1, la as int));
            assert(sb.drop_first() =~= b@.subrange(i + 1, lb as int));
        }
        if ca != cb {
            return ca < cb;
        }
        i = i + 1;
    }
    i == la
}

} // verus!

verus! {

/// Where a stable insertion puts an entry named `name` into `s`: after the
/// last entry (counting from the end) whose name is not greater than `name`.
pub open spec fn insert_pos(s: Seq<ProcessEntry>, name: Seq<char>) -> nat
    decreases s.len(),
{
    if s.len() == 0 {
        0
    } else if name_le(s.last().name@, name) {
        s.len()
    } else {
        insert_pos(s.drop_last(), name)
    }
}

/// The entries of `s` sorted by name, ascending; entries with equal names
/// keep their relative order.
pub open spec fn sort_by_name(s: Seq<ProcessEntry>) -> Seq<ProcessEntry>
    decreases s.len(),
{
    if s.len() == 0 {
        s
    } else {
        let r = sort_by_name(s.drop_last());
        r.insert(insert_pos(r, s.last().name@) as int, s.last())
    }
}

/// The entries of `s` sorted by name, descending: the exact reverse of the
/// ascending order.
pub open spec fn sort_by_name_desc(s: Seq<ProcessEntry>) -> Seq<ProcessEntry> {
    sort_by_name(s).reverse()
}

/// Every name in `s` is not greater than the names after it.
pub open spec fn sorted_by_name(s: Seq<ProcessEntry>) -> bool {
    forall|i: int, j: int| 0 <= i < j < s.len() ==> name_le(#[trigger] s[i].name@, #[trigger] s[j].name@)
}

pub proof fn lemma_insert_pos(s: Seq<ProcessEntry>, name: Seq<char>)
    ensures
        insert_pos(s, name) <= s.len(),
        insert_pos(s, name) > 0 ==> name_le(s[insert_pos(s, name) - 1].name@, name),
        forall|k: int| insert_pos(s, name) <= k < s.len() ==> !name_le(#[trigger] s[k].name@, name),
    decreases s.len(),
{
    if s.len() > 0 && !name_le(s.last().name@, name) {
        lemma_insert_pos(s.drop_last(), name);
        assert forall|k: int| insert_pos(s, name) <= k < s.len() implies !name_le(#[trigger] s[k].name@, name) by {
            if k < s.len() - 1 {
                assert(s[k] == s.drop_last()[k]);
            }
        }
    }
}

pub proof fn lemma_sort_by_name_len(s: Seq<ProcessEntry>)
    ensures
        sort_by_name(s).len() == s.len(),
    decreases s.len(),
{
    if s.len() > 0 {
        lemma_sort_by_name_len(s.drop_last());
        lemma_insert_pos(sort_by_name(s.drop_last()), s.last().name@);
    }
}

fn find_insert_pos(r: &Vec<ProcessEntry>, name: &String) -> (p: usize)
    ensures
        p == insert_pos(r@, name@),
{
    let mut j: usize = r.len();
    assert(r@.subrange(0, j as int) =~= r@);
    while j > 0
        invariant
            j <= r.len(),
            insert_pos(r@, name@) == insert_pos(r@.subrange(0, j as int), name@),
        decreases j,
    {
        assert(r@.subrange(0, j as int).drop_last() =~= r@.subrange(0, j - 1));
        if name_le_exec(r[j - 1].name.as_str(), name.as_str()) {
            return j;
        }
        j = j - 1;
    }
    0
}

/// Returns the entries of `v` sorted by name, ascending and stable.
pub fn sorted_ascending(v: &Vec<ProcessEntry>) -> (r: Vec<ProcessEntry>)
    ensures
        r@ == sort_by_name(v@),
{
    let mut r: Vec<ProcessEntry> = Vec::new();
    let mut i: usize = 0;
    while i < v.len()
        invariant
            i <= v.len(),
            r@ == sort_by_name(v@.subrange(0, i as int)),
        decreases v.len() - i,
    {
        let e = v[i].duplicate();
        let p = find_insert_pos(&r, &e.name);
        proof {
            let t = v@.subrange(0, i + 1);
            assert(t.drop_last() =~= v@.subrange(0, i as int));
            lemma_sort_by_name_len(v@.subrange(0, i as int));
            lemma_insert_pos(r@, e.name@);
        }
        r.insert(p, e);
        i = i + 1;
    }
    assert(v@.subrange(0, v.len() as int) =~= v@);
    r
}

/// Returns the entries of `v` sorted by name, descending: the reverse of the
/// ascending order.
pub fn sorted_descending(v: &Vec<ProcessEntry>) -> (r: Vec<ProcessEntry>)
    ensures
        r@ == sort_by_name_desc(v@),
{
    let mut asc = sorted_ascending(v);
    let ghost full = asc@;
    let mut r: Vec<ProcessEntry> = Vec::new();
    while asc.len() > 0
        invariant
            asc.len() + r.len() == full.len(),
            asc@ == full.subrange(0, asc.len() as int),
            forall|k: int| 0 <= k < r.len() ==> #[trigger] r@[k] == full[full.len() - 1 - k],
        decreases asc.len(),
    {
        let e = asc.pop().unwrap();
        r.push(e);
    }
    assert(r@ =~= full.reverse());
    r
}

} // verus!

verus! {

/// Sorting by name yields entries in ascending name order.
pub proof fn lemma_sort_by_name_sorted(s: Seq<ProcessEntry>)
    ensures
        sorted_by_name(sort_by_name(s)),
    decreases s.len(),
{
    if s.len() > 0 {
        let r = sort_by_name(s.drop_last());
        let e = s.last();
        let n = e.name@;
        let p = insert_pos(r, n) as int;
        let t = r.insert(p, e);
        lemma_sort_by_name_sorted(s.drop_last());
        lemma_insert_pos(r, n);
        assert forall|i: int, j: int| 0 <= i < j < t.len() implies name_le(#[trigger] t[i].name@, #[trigger] t[j].name@) by {
            if j < p {
                assert(t[i] == r[i] && t[j] == r[j]);
            } else if j == p {
                assert(t[i] == r[i]);
                if i < p - 1 {
                    lemma_name_le_transitive(r[i].name@, r[p - 1].name@, n);
                }
            } else if i < p {
                assert(t[i] == r[i] && t[j] == r[j - 1]);
                lemma_name_le_total(r[j - 1].name@, n);
                if i < p - 1 {
                    lemma_name_le_transitive(r[i].name@, r[p - 1].name@, n);
                }
                lemma_name_le_transitive(r[i].name@, n, r[j - 1].name@);
            } else if i == p {
                assert(t[j] == r[j - 1]);
                lemma_name_le_total(r[j - 1].name@, n);
            } else {
                assert(t[i] == r[i - 1] && t[j] == r[j - 1]);
            }
        }
    }
}

/// Sorting by name keeps exactly the same entries, each as often.
pub proof fn lemma_sort_by_name_permutes(s: Seq<ProcessEntry>)
    ensures
        sort_by_name(s).to_multiset() == s.to_multiset(),
    decreases s.len(),
{
    broadcast use vstd::seq_lib::group_to_multiset_ensures;

    if s.len() > 0 {
        let r = sort_by_name(s.drop_last());
        lemma_sort_by_name_permutes(s.drop_last());
        lemma_sort_by_name_len(s.drop_last());
        lemma_insert_pos(r, s.last().name@);
        vstd::seq_lib::to_multiset_insert(r, insert_pos(r, s.last().name@) as int, s.last());
        assert(s.drop_last().push(s.last()) =~= s);
    }
}

/// Sorting entries that are already in name order leaves them unchanged.
pub proof fn lemma_sort_by_name_of_sorted(s: Seq<ProcessEntry>)
    requires
        sorted_by_name(s),
    ensures
        sort_by_name(s) == s,
    decreases s.len(),
{
    if s.len() > 0 {
        let d = s.drop_last();
        assert(sorted_by_name(d)) by {
            assert forall|i: int, j: int| 0 <= i < j < d.len() implies name_le(#[trigger] d[i].name@, #[trigger] d[j].name@) by {
                assert(d[i] == s[i] && d[j] == s[j]);
            }
        }
        lemma_sort_by_name_of_sorted(d);
        if d.len() > 0 {
            assert(d.last() == s[s.len() - 2]);
        }
        assert(d.insert(d.len() as int, s.last()) =~= s);
    }
}

/// Sorting by name twice gives the same entries as sorting once.
pub proof fn lemma_sort_by_name_idempotent(s: Seq<ProcessEntry>)
    ensures
        sort_by_name(sort_by_name(s)) == sort_by_name(s),
{
    lemma_sort_by_name_sorted(s);
    lemma_sort_by_name_of_sorted(sort_by_name(s));
}

} // verus!

verus! {

/// An entry is in the sorted list exactly when it is in the input.
pub proof fn lemma_sort_by_name_contains(s: Seq<ProcessEntry>, e: ProcessEntry)
    ensures
        sort_by_name(s).contains(e) <==> s.contains(e),
{
    lemma_sort_by_name_permutes(s);
    sort_by_name(s).to_multiset_ensures();
    s.to_multiset_ensures();
    assert(sort_by_name(s).to_multiset().count(e) == s.to_multiset().count(e));
}

/// Sorting keeps the ids unique.
pub proof fn lemma_sort_by_name_ids_unique(s: Seq<ProcessEntry>)
    requires
        ids_unique(s),
    ensures
        ids_unique(sort_by_name(s)),
    decreases s.len(),
{
    if s.len() > 0 {
        let d = s.drop_last();
        let r = sort_by_name(d);
        let e = s.last();
        assert(ids_unique(d)) by {
            assert forall|i: int, j: int| 0 <= i < d.len() && 0 <= j < d.len() && i != j implies #[trigger] d[i].id != #[trigger] d[j].id by {
                assert(d[i] == s[i] && d[j] == s[j]);
            }
        }
        lemma_sort_by_name_ids_unique(d);
        lemma_sort_by_name_len(d);
        lemma_insert_pos(r, e.name@);
        assert(!has_id(r, e.id)) by {
            if has_id(r, e.id) {
                let k = choose|k: int| 0 <= k < r.len() && #[trigger] r[k].id == e.id;
                assert(r.contains(r[k]));
                lemma_sort_by_name_contains(d, r[k]);
                let q = choose|q: int| 0 <= q < d.len() && d[q] == r[k];
                assert(s[q] == d[q] && s[s.len() - 1] == e);
            }
        }
        lemma_insert_keeps_ids_unique(r, insert_pos(r, e.name@) as int, e);
    }
}

} // verus!

verus! {

/// Whether an entry is named `name`.
pub open spec fn has_name(name: Seq<char>) -> spec_fn(ProcessEntry) -> bool {
    |e: ProcessEntry| e.name@ == name
}

/// The entries of `s` named `name`, in their order.
pub open spec fn entries_named(s: Seq<ProcessEntry>, name: Seq<char>) -> Seq<ProcessEntry> {
    s.filter(has_name(name))
}

proof fn lemma_filter_none(s: Seq<ProcessEntry>, pred: spec_fn(ProcessEntry) -> bool)
    requires
        forall|k: int| 0 <= k < s.len() ==> !pred(#[trigger] s[k]),
    ensures
        s.filter(pred) == Seq::<ProcessEntry>::empty(),
{
    broadcast use vstd::seq_lib::group_filter_ensures;

    if s.filter(pred).len() > 0 {
        let x = s.filter(pred)[0];
        s.lemma_filter_pred(pred, 0);
        assert(s.filter(pred).contains(x));
        s.lemma_filter_contains_rev(pred, x);
    }
    assert(s.filter(pred) =~= Seq::<ProcessEntry>::empty());
}

/// The sort is stable: for every name, the entries with that name come out
/// in the order in which they went in.
pub proof fn lemma_sort_by_name_stable(s: Seq<ProcessEntry>, name: Seq<char>)
    ensures
        entries_named(sort_by_name(s), name) == entries_named(s, name),
    decreases s.len(),
{
    let pred = has_name(name);
    if s.len() > 0 {
        let d = s.drop_last();
        let e = s.last();
        let r = sort_by_name(d);
        let p = insert_pos(r, e.name@) as int;
        lemma_sort_by_name_stable(d, name);
        lemma_sort_by_name_len(d);
        lemma_insert_pos(r, e.name@);
        let a = r.subrange(0, p);
        let b = r.subrange(p, r.len() as int);
        assert(r =~= a + b);
        assert(r.insert(p, e) =~= a + seq![e] + b);
        Seq::filter_distributes_over_add(a, b, pred);
        Seq::filter_distributes_over_add(a + seq![e], b, pred);
        Seq::filter_distributes_over_add(a, seq![e], pred);
        assert(seq![e] =~= Seq::<ProcessEntry>::empty().push(e));
        Seq::<ProcessEntry>::empty().lemma_filter_push(e, pred);
        assert(Seq::<ProcessEntry>::empty().filter(pred) =~= Seq::<ProcessEntry>::empty()) by {
            reveal(Seq::filter);
        }
        assert(d.push(e) =~= s);
        d.lemma_filter_push(e, pred);
        if e.name@ == name {
            assert forall|k: int| 0 <= k < b.len() implies !pred(#[trigger] b[k]) by {
                assert(b[k] == r[p + k]);
                lemma_name_le_reflexive(e.name@);
            }
            lemma_filter_none(b, pred);
            assert(b.filter(pred) =~= Seq::<ProcessEntry>::empty());
        }
    }
}

} // verus!
