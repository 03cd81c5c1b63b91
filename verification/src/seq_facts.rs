//! Facts about filtered sequences that the registry's proofs rest on.

use vstd::prelude::*;
use crate::frame::{ascending, ids_labelled, surviving, Entry};
use crate::objects_index::spared;

verus! {

/// Taking out an element that fails the test does not change what passes.
pub proof fn lemma_filter_remove<A>(s: Seq<A>, i: int, pred: spec_fn(A) -> bool)
    requires
        0 <= i < s.len(),
        !pred(s[i]),
    ensures
        s.remove(i).filter(pred) == s.filter(pred),
{
    let head = s.take(i);
    let mid = seq![s[i]];
    let tail = s.skip(i + 1);
    assert(s =~= head + mid + tail);
    assert(s.remove(i) =~= head + tail);
    assert(mid.filter(pred) =~= Seq::<A>::empty()) by {
        reveal_with_fuel(Seq::filter, 2);
    }
    Seq::filter_distributes_over_add(head, mid, pred);
    Seq::filter_distributes_over_add(head + mid, tail, pred);
    Seq::filter_distributes_over_add(head, tail, pred);
    assert(head.filter(pred) + mid.filter(pred) =~= head.filter(pred));
}

/// A sequence whose elements all pass the test is its own filtrate.
pub proof fn lemma_filter_all<A>(s: Seq<A>, pred: spec_fn(A) -> bool)
    requires
        forall|i: int| 0 <= i < s.len() ==> pred(#[trigger] s[i]),
    ensures
        s.filter(pred) == s,
    decreases s.len(),
{
    reveal(Seq::filter);
    if s.len() > 0 {
        lemma_filter_all(s.drop_last(), pred);
        assert(s.drop_last().push(s.last()) =~= s);
    }
}

/// Every element of a filtrate passes the test and comes from the sequence,
/// and a filtrate of an ascending sequence is ascending.
pub proof fn lemma_filter_ascending<T>(s: Seq<Entry<T>>, doomed: Seq<usize>)
    requires
        ascending(s),
    ensures
        ascending(s.filter(surviving(doomed))),
        forall|k: int|
            0 <= k < s.filter(surviving(doomed)).len() ==> {
                let e = #[trigger] s.filter(surviving(doomed))[k];
                s.contains(e) && !doomed.contains(e.id)
            },
    decreases s.len(),
{
    reveal(Seq::filter);
    let kept = s.filter(surviving(doomed));
    if s.len() > 0 {
        let init = s.drop_last();
        let rest = init.filter(surviving(doomed));
        lemma_filter_ascending(init, doomed);
        assert forall|k: int| 0 <= k < kept.len() implies {
            let e = #[trigger] kept[k];
            s.contains(e) && !doomed.contains(e.id)
        } by {
            if k < rest.len() {
                assert(kept[k] == rest[k]);
                assert(init.contains(rest[k]));
                let i = choose|i: int| 0 <= i < init.len() && init[i] == rest[k];
                assert(s[i] == kept[k]);
            } else {
                assert(kept[k] == s[s.len() - 1]);
            }
        }
        assert forall|i: int, j: int| 0 <= i < j < kept.len() implies kept[i].id < kept[j].id by {
            if j < rest.len() {
                assert(kept[i] == rest[i] && kept[j] == rest[j]);
            } else {
                assert(kept[i] == rest[i]);
                assert(init.contains(rest[i]));
                let a = choose|a: int| 0 <= a < init.len() && init[a] == rest[i];
                assert(s[a].id < s[s.len() - 1].id);
            }
        }
    }
}

/// Removing doomed entries and then reading off the identifiers under a
/// label gives what removing the doomed identifiers from that label's
/// identifiers gives.
pub proof fn lemma_drain_commutes<T>(s: Seq<Entry<T>>, doomed: Seq<usize>, label: Seq<char>)
    ensures
        ids_labelled(s.filter(surviving(doomed)), label) == ids_labelled(s, label).filter(
            spared(doomed),
        ),
    decreases s.len(),
{
    reveal(Seq::filter);
    if s.len() > 0 {
        let init = s.drop_last();
        let e = s.last();
        let rest = init.filter(surviving(doomed));
        lemma_drain_commutes(init, doomed, label);
        assert(rest.push(e).drop_last() =~= rest);
        let ids = ids_labelled(init, label);
        assert(ids.push(e.id).drop_last() =~= ids);
    }
}

/// Appending an entry appends its identifier under its own label and leaves
/// every other label as it was.
pub proof fn lemma_labelled_push<T>(s: Seq<Entry<T>>, e: Entry<T>, label: Seq<char>)
    ensures
        ids_labelled(s.push(e), label) == if e.label@ == label {
            ids_labelled(s, label).push(e.id)
        } else {
            ids_labelled(s, label)
        },
{
    assert(s.push(e).drop_last() =~= s);
}

/// The identifiers under a label in two sequences laid end to end are those
/// of the first followed by those of the second.
pub proof fn lemma_labelled_add<T>(a: Seq<Entry<T>>, b: Seq<Entry<T>>, label: Seq<char>)
    ensures
        ids_labelled(a + b, label) == ids_labelled(a, label) + ids_labelled(b, label),
    decreases b.len(),
{
    if b.len() == 0 {
        assert(a + b =~= a);
        assert(ids_labelled(a, label) + ids_labelled(b, label) =~= ids_labelled(a, label));
    } else {
        lemma_labelled_add(a, b.drop_last(), label);
        assert((a + b).drop_last() =~= a + b.drop_last());
        assert((a + b).last() == b.last());
        let front = ids_labelled(a, label);
        let back = ids_labelled(b.drop_last(), label);
        assert((front + back).push(b.last().id) =~= front + back.push(b.last().id));
    }
}

/// Every identifier listed under a label belongs to an entry that carries
/// that label.
pub proof fn lemma_labelled_members<T>(s: Seq<Entry<T>>, label: Seq<char>, k: int)
    requires
        0 <= k < ids_labelled(s, label).len(),
    ensures
        exists|i: int|
            0 <= i < s.len() && (#[trigger] s[i]).id == ids_labelled(s, label)[k] && s[i].label@
                == label,
    decreases s.len(),
{
    if s.len() > 0 {
        let init = s.drop_last();
        if k < ids_labelled(init, label).len() {
            lemma_labelled_members(init, label, k);
            let i = choose|i: int|
                0 <= i < init.len() && (#[trigger] init[i]).id == ids_labelled(init, label)[k]
                    && init[i].label@ == label;
            assert(s[i] == init[i]);
        } else {
            assert(s[s.len() - 1].id == ids_labelled(s, label)[k]);
        }
    }
}

} // verus!
