//! The type index: for each type label, the identifiers registered under it,
//! in registration order.

use vstd::prelude::*;

verus! {

/// The identifiers registered under one label.
struct Bucket {
    label: String,
    ids: Vec<usize>,
}

/// A secondary index from type label to identifiers. It holds identifiers
/// only, never the objects they stand for.
pub struct ObjectsIndex {
    types: Vec<Bucket>,
}

/// The test that an identifier passes when it is not among `doomed`.
pub open spec fn spared(doomed: Seq<usize>) -> spec_fn(usize) -> bool {
    |id: usize| !doomed.contains(id)
}

/// Whether `id` occurs in `ids`.
pub fn holds(ids: &Vec<usize>, id: usize) -> (found: bool)
    ensures
        found == ids@.contains(id),
{
    let mut i: usize = 0;
    while i < ids.len()
        invariant
            i <= ids.len(),
            forall|j: int| 0 <= j < i ==> ids@[j] != id,
        decreases ids.len() - i,
    {
        if ids[i] == id {
            return true;
        }
        i += 1;
    }
    false
}

/// The members of `ids` that are not among `doomed`, in their old order.
fn sift(ids: &Vec<usize>, doomed: &Vec<usize>) -> (left: Vec<usize>)
    ensures
        left@ == ids@.filter(spared(doomed@)),
{
    let mut left: Vec<usize> = Vec::new();
    let mut i: usize = 0;
    while i < ids.len()
        invariant
            i <= ids.len(),
            left@ == ids@.take(i as int).filter(spared(doomed@)),
        decreases ids.len() - i,
    {
        let id: usize = ids[i];
        if !holds(doomed, id) {
            left.push(id);
        }
        proof {
            let next = ids@.take(i + 1);
            assert(next.drop_last() =~= ids@.take(i as int));
            assert(next.last() == id);
            reveal(Seq::filter);
        }
        i += 1;
    }
    proof {
        assert(ids@.take(ids@.len() as int) =~= ids@);
    }
    left
}

impl Default for ObjectsIndex {
    /// An index with nothing registered.
    fn default() -> (index: Self)
        ensures
            index.wf(),
            forall|label: Seq<char>| #[trigger] index.by_type(label) == Seq::<usize>::empty(),
    {
        ObjectsIndex::new()
    }
}

impl ObjectsIndex {
    /// No two buckets carry the same label.
    pub closed spec fn wf(&self) -> bool {
        forall|i: int, j: int|
            0 <= i < j < self.types@.len() ==> (#[trigger] self.types@[i]).label@ != (
            #[trigger] self.types@[j]).label@
    }

    /// The identifiers registered under `label`, oldest first; empty for a
    /// label that was never registered.
    pub closed spec fn by_type(&self, label: Seq<char>) -> Seq<usize> {
        if exists|i: int| 0 <= i < self.types@.len() && (#[trigger] self.types@[i]).label@ == label {
            let i = choose|i: int|
                0 <= i < self.types@.len() && (#[trigger] self.types@[i]).label@ == label;
            self.types@[i].ids@
        } else {
            Seq::empty()
        }
    }

    proof fn lemma_bucket(&self, i: int, label: Seq<char>)
        requires
            self.wf(),
            0 <= i < self.types@.len(),
            self.types@[i].label@ == label,
        ensures
            self.by_type(label) == self.types@[i].ids@,
    {
    }

    proof fn lemma_no_bucket(&self, label: Seq<char>)
        requires
            forall|i: int| 0 <= i < self.types@.len() ==> (#[trigger] self.types@[i]).label@ != label,
        ensures
            self.by_type(label) == Seq::<usize>::empty(),
    {
    }

    /// An index with nothing registered.
    pub fn new() -> (index: Self)
        ensures
            index.wf(),
            forall|label: Seq<char>| #[trigger] index.by_type(label) == Seq::<usize>::empty(),
    {
        ObjectsIndex { types: Vec::new() }
    }

    /// Appends `id` to the identifiers under `label` and leaves every other
    /// label as it was.
    pub fn register(&mut self, label: String, id: usize)
        requires
            old(self).wf(),
        ensures
            final(self).wf(),
            final(self).by_type(label@) == old(self).by_type(label@).push(id),
            forall|other: Seq<char>|
                other != label@ ==> #[trigger] final(self).by_type(other) == old(self).by_type(other),
    {
        let mut i: usize = 0;
        while i < self.types.len()
            invariant
                i <= self.types.len(),
                *self == *old(self),
                self.wf(),
                forall|j: int| 0 <= j < i ==> (#[trigger] self.types@[j]).label@ != label@,
            decreases self.types.len() - i,
        {
            if self.types[i].label == label {
                self.types[i].ids.push(id);
                proof {
                    let before = *old(self);
                    let after = *self;
                    assert(after.types@.len() == before.types@.len());
                    assert forall|j: int| 0 <= j < after.types@.len() implies (
                    #[trigger] after.types@[j]).label@ == before.types@[j].label@ by {}
                    after.lemma_bucket(i as int, label@);
                    before.lemma_bucket(i as int, label@);
                    assert forall|other: Seq<char>| other != label@ implies #[trigger] after.by_type(
                        other,
                    ) == before.by_type(other) by {
                        if exists|j: int|
                            0 <= j < before.types@.len() && (#[trigger] before.types@[j]).label@
                                == other {
                            let j = choose|j: int|
                                0 <= j < before.types@.len() && (#[trigger] before.types@[j]).label@
                                    == other;
                            assert(after.types@[j] == before.types@[j]);
                            after.lemma_bucket(j, other);
                            before.lemma_bucket(j, other);
                        } else {
                            after.lemma_no_bucket(other);
                            before.lemma_no_bucket(other);
                        }
                    }
                }
                return ;
            }
            i += 1;
        }
        let ghost key = label@;
        let mut ids: Vec<usize> = Vec::new();
        ids.push(id);
        self.types.push(Bucket { label, ids });
        proof {
            let before = *old(self);
            let after = *self;
            let last = before.types@.len() as int;
            assert(after.types@[last].ids@ == Seq::<usize>::empty().push(id));
            after.lemma_bucket(last, key);
            before.lemma_no_bucket(key);
            assert forall|other: Seq<char>| other != key implies #[trigger] after.by_type(other)
                == before.by_type(other) by {
                if exists|j: int|
                    0 <= j < before.types@.len() && (#[trigger] before.types@[j]).label@ == other {
                    let j = choose|j: int|
                        0 <= j < before.types@.len() && (#[trigger] before.types@[j]).label@
                            == other;
                    assert(after.types@[j] == before.types@[j]);
                    after.lemma_bucket(j, other);
                    before.lemma_bucket(j, other);
                } else {
                    after.lemma_no_bucket(other);
                    before.lemma_no_bucket(other);
                }
            }
        }
    }

    /// A copy of the identifiers registered under `label`, oldest first.
    pub fn lookup(&self, label: &String) -> (ids: Vec<usize>)
        requires
            self.wf(),
        ensures
            ids@ == self.by_type(label@),
    {
        let mut i: usize = 0;
        while i < self.types.len()
            invariant
                i <= self.types.len(),
                self.wf(),
                forall|j: int| 0 <= j < i ==> (#[trigger] self.types@[j]).label@ != label@,
            decreases self.types.len() - i,
        {
            if self.types[i].label == *label {
                proof {
                    self.lemma_bucket(i as int, label@);
                }
                return self.types[i].ids.clone();
            }
            i += 1;
        }
        proof {
            self.lemma_no_bucket(label@);
        }
        Vec::new()
    }

    /// Erases `id` from whichever bucket holds it.
    pub fn remove(&mut self, id: usize)
        requires
            old(self).wf(),
        ensures
            final(self).wf(),
            forall|label: Seq<char>| #[trigger]
                final(self).by_type(label) == old(self).by_type(label).filter(spared(seq![id])),
    {
        let mut doomed: Vec<usize> = Vec::new();
        doomed.push(id);
        assert(doomed@ =~= seq![id]);
        self.remove_all(&doomed);
    }

    /// Erases every identifier that is among `doomed` from whichever bucket
    /// holds it; the others keep their order.
    pub fn remove_all(&mut self, doomed: &Vec<usize>)
        requires
            old(self).wf(),
        ensures
            final(self).wf(),
            forall|label: Seq<char>| #[trigger]
                final(self).by_type(label) == old(self).by_type(label).filter(spared(doomed@)),
    {
        let mut b: usize = 0;
        while b < self.types.len()
            invariant
                b <= self.types.len(),
                old(self).wf(),
                self.types@.len() == old(self).types@.len(),
                forall|j: int|
                    0 <= j < self.types@.len() ==> (#[trigger] self.types@[j]).label@ == old(
                        self,
                    ).types@[j].label@,
                forall|j: int|
                    0 <= j < b ==> (#[trigger] self.types@[j]).ids@ == old(
                        self,
                    ).types@[j].ids@.filter(spared(doomed@)),
                forall|j: int|
                    b <= j < self.types@.len() ==> (#[trigger] self.types@[j]).ids@ == old(
                        self,
                    ).types@[j].ids@,
            decreases self.types.len() - b,
        {
            let left = sift(&self.types[b].ids, doomed);
            self.types[b].ids = left;
            b += 1;
        }
        proof {
            let before = *old(self);
            let after = *self;
            assert forall|label: Seq<char>| #[trigger]
                after.by_type(label) == before.by_type(label).filter(spared(doomed@)) by {
                if exists|j: int|
                    0 <= j < before.types@.len() && (#[trigger] before.types@[j]).label@ == label {
                    let j = choose|j: int|
                        0 <= j < before.types@.len() && (#[trigger] before.types@[j]).label@
                            == label;
                    assert(after.types@[j].label@ == label);
                    after.lemma_bucket(j, label);
                    before.lemma_bucket(j, label);
                } else {
                    after.lemma_no_bucket(label);
                    before.lemma_no_bucket(label);
                }
            }
        }
    }
}

} // verus!
