//! The object registry and frame scheduler.
//!
//! Objects are opaque to the registry. Additions and removals are staged and
//! take effect only when the next frame starts, so the set of live objects
//! never changes while hooks run. The scheduler does not call hooks itself:
//! [`Gloam::update`] says which hook is due, the driver calls it and asks
//! again.

use vstd::prelude::*;
use crate::frame::{ascending, has, ids_labelled, surviving, Action, Entry, Frame, Phase};
use crate::frame_laws::{law_doom_and_abandon_keep_wf, law_staged_id_is_new, law_step_keeps_wf};
use crate::objects_index::{holds, ObjectsIndex};
use crate::texture::{image_bytes, Bitmap, DrawCall, TextureError, Textures};
use crate::seq_facts::{
    lemma_drain_commutes,
    lemma_filter_all,
    lemma_filter_remove,
    lemma_labelled_members,
    lemma_labelled_push,
};

verus! {

/// Takes the entries whose identifier is among `doomed` out of `entries`; the
/// others keep their order.
fn discard<T>(entries: &mut Vec<Entry<T>>, doomed: &Vec<usize>)
    ensures
        final(entries)@ == old(entries)@.filter(surviving(doomed@)),
{
    let mut i: usize = 0;
    while i < entries.len()
        invariant
            i <= entries.len(),
            entries@.filter(surviving(doomed@)) == old(entries)@.filter(surviving(doomed@)),
            forall|j: int| 0 <= j < i ==> !doomed@.contains((#[trigger] entries@[j]).id),
        decreases entries.len() - i,
    {
        if holds(doomed, entries[i].id) {
            proof {
                lemma_filter_remove(entries@, i as int, surviving(doomed@));
            }
            let _ = entries.remove(i);
        } else {
            i += 1;
        }
    }
    proof {
        lemma_filter_all(entries@, surviving(doomed@));
    }
}

/// The registry: identifier allocator, staging area, object store, type
/// index and frame scheduler in one value, together with the textures that a
/// frame draws.
pub struct Gloam<T> {
    textures: Textures,
    id_count: usize,
    next_objects: Vec<Entry<T>>,
    del_objects: Vec<usize>,
    promoting: Vec<Entry<T>>,
    objects: Vec<Entry<T>>,
    objects_index: ObjectsIndex,
    cursor: usize,
    phase: Phase,
}

impl<T> View for Gloam<T> {
    type V = Frame<T>;

    closed spec fn view(&self) -> Frame<T> {
        Frame {
            next_id: self.id_count,
            staged: self.next_objects@,
            doomed: self.del_objects@,
            batch: self.promoting@,
            live: self.objects@,
            cursor: self.cursor as nat,
            phase: self.phase,
        }
    }
}

impl<T> Gloam<T> {
    /// The model is well formed and the type index agrees with the object
    /// store.
    pub open spec fn wf(&self) -> bool {
        &&& self@.wf()
        &&& self.index_agrees()
    }

    /// Under each label the type index lists the live objects that carry the
    /// label, in promotion order.
    pub closed spec fn index_agrees(&self) -> bool {
        &&& self.objects_index.wf()
        &&& forall|label: Seq<char>| #[trigger]
            self.objects_index.by_type(label) == ids_labelled(self.objects@, label)
    }

    /// The textures loaded so far, in loading order.
    pub closed spec fn resources(&self) -> Seq<Bitmap> {
        self.textures.bitmaps@
    }

    /// An empty registry between frames. The first identifier it will hand
    /// out is 1; 0 never names an object.
    pub fn new() -> (game: Self)
        ensures
            game.wf(),
            game@ == Frame::<T>::fresh(),
            game.resources().len() == 0,
    {
        let game = Gloam {
            textures: Textures::new(),
            id_count: 1,
            next_objects: Vec::new(),
            del_objects: Vec::new(),
            promoting: Vec::new(),
            objects: Vec::new(),
            objects_index: ObjectsIndex::new(),
            cursor: 0,
            phase: Phase::Idle,
        };
        assert(game@.everything() =~= Seq::empty());
        game
    }

    /// Whether every identifier has been handed out, so that nothing more can
    /// be added.
    pub fn is_exhausted(&self) -> (full: bool)
        ensures
            full == (self@.next_id == usize::MAX),
    {
        self.id_count == usize::MAX
    }

    /// The phase in which the scheduler rests.
    pub fn phase(&self) -> (phase: Phase)
        ensures
            phase == self@.phase,
    {
        self.phase
    }

    /// Stages `object` under `label` and returns the identifier reserved for
    /// it. The object becomes live when the next frame promotes it; until
    /// then no lookup finds it and no hook is due for it.
    pub fn add_object(&mut self, label: String, object: T) -> (id: usize)
        requires
            old(self).wf(),
            old(self)@.next_id < usize::MAX,
        ensures
            final(self).wf(),
            final(self)@ == old(self)@.stage(label, object).0,
            id == old(self)@.stage(label, object).1,
            final(self).resources() == old(self).resources(),
    {
        proof {
            law_staged_id_is_new(self@, label, object, 0);
        }
        let id: usize = self.id_count;
        self.id_count += 1;
        self.next_objects.push(Entry { id, label, object });
        id
    }

    /// Stages the removal of `id`. It takes effect when the next frame
    /// starts, and has none if `id` then names nothing.
    pub fn destroy_object(&mut self, id: usize)
        requires
            old(self).wf(),
        ensures
            final(self).wf(),
            final(self)@ == old(self)@.doom(id),
            final(self).resources() == old(self).resources(),
    {
        proof {
            law_doom_and_abandon_keep_wf(self@, id);
        }
        self.del_objects.push(id);
    }

    /// The live object with identifier `id`, if there is one. Exactly one
    /// live object can carry a given identifier. The search halves the store
    /// at each step, which it can because identifiers grow along it.
    pub fn with_object(&self, id: usize) -> (found: Option<&T>)
        requires
            self.wf(),
        ensures
            match found {
                Some(object) => exists|i: int|
                    0 <= i < self@.live.len() && (#[trigger] self@.live[i]).id == id
                        && self@.live[i].object == *object,
                None => forall|i: int| 0 <= i < self@.live.len() ==> (#[trigger] self@.live[i]).id != id,
            },
    {
        proof {
            self.lemma_live_ascends();
        }
        let mut lo: usize = 0;
        let mut hi: usize = self.objects.len();
        while lo < hi
            invariant
                lo <= hi <= self.objects.len(),
                ascending(self.objects@),
                forall|j: int| 0 <= j < lo ==> (#[trigger] self.objects@[j]).id < id,
                forall|j: int| hi <= j < self.objects.len() ==> (#[trigger] self.objects@[j]).id > id,
            decreases hi - lo,
        {
            let mid: usize = lo + (hi - lo) / 2;
            let here: usize = self.objects[mid].id;
            if here == id {
                assert(self@.live[mid as int].id == id);
                return Some(&self.objects[mid].object);
            } else if here < id {
                lo = mid + 1;
            } else {
                hi = mid;
            }
        }
        None
    }

    /// Identifiers grow along the object store.
    proof fn lemma_live_ascends(&self)
        requires
            self.wf(),
        ensures
            ascending(self.objects@),
    {
        let all = self@.everything();
        assert forall|i: int, j: int| 0 <= i < j < self.objects@.len() implies self.objects@[i].id
            < self.objects@[j].id by {
            assert(all[i] == self.objects@[i]);
            assert(all[j] == self.objects@[j]);
        }
    }

    /// The identifiers of the live objects staged under `label`, in promotion
    /// order; empty for an unknown label.
    pub fn find_objs_with_type(&self, label: &str) -> (ids: Vec<usize>)
        requires
            self.wf(),
        ensures
            ids@ == ids_labelled(self@.live, label@),
    {
        let key = label.to_owned();
        self.objects_index.lookup(&key)
    }

    /// The identifier of the first live object staged under `label`, or 0,
    /// which names no object, if there is none.
    pub fn find_obj_with_type(&self, label: &str) -> (id: usize)
        requires
            self.wf(),
        ensures
            id == if ids_labelled(self@.live, label@).len() > 0 {
                ids_labelled(self@.live, label@).first()
            } else {
                0
            },
    {
        let ids = self.find_objs_with_type(label);
        if ids.len() > 0 {
            ids[0]
        } else {
            0
        }
    }

    /// The live objects staged under `label`, in promotion order: one for
    /// each identifier that the type index lists under the label.
    pub fn with_type(&self, label: &str) -> (found: Vec<&T>)
        requires
            self.wf(),
        ensures
            found@.len() == ids_labelled(self@.live, label@).len(),
            forall|k: int|
                0 <= k < found@.len() ==> has(
                    self@.live,
                    ids_labelled(self@.live, label@)[k],
                    label@,
                    *(#[trigger] found@[k]),
                ),
    {
        let ids = self.find_objs_with_type(label);
        let mut found: Vec<&T> = Vec::new();
        let mut k: usize = 0;
        while k < ids.len()
            invariant
                self.wf(),
                k <= ids.len(),
                ids@ == ids_labelled(self@.live, label@),
                found@.len() == k,
                forall|n: int|
                    0 <= n < k ==> has(self@.live, ids@[n], label@, *(#[trigger] found@[n])),
            decreases ids.len() - k,
        {
            proof {
                lemma_labelled_members(self@.live, label@, k as int);
            }
            match self.with_object(ids[k]) {
                Some(object) => {
                    proof {
                        let a = choose|a: int|
                            0 <= a < self@.live.len() && (#[trigger] self@.live[a]).id == ids@[k as int]
                                && self@.live[a].label@ == label@;
                        let b = choose|b: int|
                            0 <= b < self@.live.len() && (#[trigger] self@.live[b]).id == ids@[k as int]
                                && self@.live[b].object == *object;
                        self.lemma_one_per_id(a, b);
                        assert(has(self@.live, ids@[k as int], label@, *object));
                    }
                    found.push(object);
                },
                None => {
                    // the type index lists live objects only
                    assert(false);
                },
            }
            k += 1;
        }
        found
    }

    /// The live object named by `ids`, where `ids` holds exactly one
    /// identifier and that identifier is live; nothing for any other list.
    pub fn with_objects(&self, ids: &Vec<usize>) -> (found: Option<&T>)
        requires
            self.wf(),
        ensures
            match found {
                Some(object) => ids@.len() == 1 && exists|i: int|
                    0 <= i < self@.live.len() && (#[trigger] self@.live[i]).id == ids@[0]
                        && self@.live[i].object == *object,
                None => ids@.len() != 1 || forall|i: int|
                    0 <= i < self@.live.len() ==> (#[trigger] self@.live[i]).id != ids@[0],
            },
    {
        if ids.len() == 1 {
            self.with_object(ids[0])
        } else {
            None
        }
    }

    /// Two live entries with the same identifier are the same entry.
    proof fn lemma_one_per_id(&self, a: int, b: int)
        requires
            self.wf(),
            0 <= a < self@.live.len(),
            0 <= b < self@.live.len(),
            self@.live[a].id == self@.live[b].id,
        ensures
            a == b,
    {
        let all = self@.everything();
        assert(all[a] == self@.live[a]);
        assert(all[b] == self@.live[b]);
    }

    /// The object whose setup hook is due, while the scheduler is promoting.
    pub fn promoted(&self) -> (found: Option<&T>)
        requires
            self.wf(),
        ensures
            match found {
                Some(object) => self@.phase == Phase::Promoting && *object
                    == self@.batch.first().object,
                None => self@.phase != Phase::Promoting,
            },
    {
        if self.promoting.len() > 0 {
            Some(&self.promoting[0].object)
        } else {
            None
        }
    }

    /// Picks the action that is due and the phase that goes with it.
    fn settle(&mut self) -> (action: Action)
        requires
            old(self)@.batch.len() > 0 || old(self)@.cursor <= old(self)@.live.len(),
        ensures
            final(self)@ == old(self)@.settle().0,
            action == old(self)@.settle().1,
            final(self).objects_index == old(self).objects_index,
            final(self).textures == old(self).textures,
    {
        if self.promoting.len() > 0 {
            self.phase = Phase::Promoting;
            Action::Init(self.promoting[0].id)
        } else if self.cursor < self.objects.len() {
            self.phase = Phase::Updating;
            Action::Update(self.objects[self.cursor].id)
        } else {
            self.phase = Phase::Rendering;
            self.cursor = 0;
            Action::Render
        }
    }

    /// Advances the frame by one step and returns what the driver has to do
    /// before the next call. The first call of a frame applies the staged
    /// removals, to live objects and to staged additions alike, and moves
    /// what is left of the staged additions into the batch. Each object of
    /// the batch becomes live, and enters the type index, in the call after
    /// the one that asked for its setup hook. The update pass then walks the
    /// live objects in promotion order, and the frame ends with the drawing.
    pub fn update(&mut self) -> (action: Action)
        requires
            old(self).wf(),
        ensures
            final(self).wf(),
            final(self)@ == old(self)@.step().0,
            action == old(self)@.step().1,
            final(self).resources() == old(self).resources(),
    {
        proof {
            law_step_keeps_wf(self@);
        }
        match self.phase {
            Phase::Idle | Phase::Draining => {
                discard(&mut self.objects, &self.del_objects);
                discard(&mut self.next_objects, &self.del_objects);
                self.objects_index.remove_all(&self.del_objects);
                proof {
                    assert forall|label: Seq<char>| #[trigger]
                        self.objects_index.by_type(label) == ids_labelled(
                            self.objects@,
                            label,
                        ) by {
                        lemma_drain_commutes(old(self).objects@, old(self).del_objects@, label);
                    }
                }
                self.del_objects.clear();
                self.promoting.append(&mut self.next_objects);
                self.phase = Phase::Promoting;
                assert(self@ =~= old(self)@.drain().lift());
            },
            Phase::Promoting => {
                let entry = self.promoting.remove(0);
                proof {
                    assert forall|label: Seq<char>|
                        ids_labelled(self.objects@.push(entry), label) == if entry.label@ == label {
                            ids_labelled(self.objects@, label).push(entry.id)
                        } else {
                            ids_labelled(self.objects@, label)
                        } by {
                        lemma_labelled_push(self.objects@, entry, label);
                    }
                }
                self.objects_index.register(entry.label.clone(), entry.id);
                self.objects.push(entry);
                assert(self@ =~= old(self)@.install());
            },
            Phase::Updating => {
                assert(self.cursor < self.objects.len());
                self.cursor += 1;
            },
            Phase::Rendering => {
                self.phase = Phase::Idle;
                return Action::Done;
            },
        }
        self.settle()
    }

    /// Decodes the image embedded in the `data:` URL `img_data`, appends it
    /// to the textures and returns its index. A text that is no `data:` URL,
    /// and a body that is not sound base64, are refused with their own
    /// errors; for any other text the image decoder decides. Whenever an
    /// error comes back the textures stay as they were. The objects and the
    /// frame in flight are not touched.
    pub fn load_texture(&mut self, img_data: &str) -> (index: Result<usize, TextureError>)
        requires
            old(self).wf(),
        ensures
            final(self).wf(),
            final(self)@ == old(self)@,
            match image_bytes(img_data@) {
                Err(error) => index == Err::<usize, _>(error),
                Ok(_) => index is Ok || index == Err::<usize, _>(TextureError::BadImage),
            },
            match index {
                Ok(i) => i == old(self).resources().len() && final(self).resources().len() == i + 1
                    && final(self).resources().drop_last() == old(self).resources() && final(self).resources().last().covers(),
                Err(_) => final(self).resources() == old(self).resources(),
            },
    {
        self.textures.load_texture(img_data)
    }

    /// The texture stored under `index`, if there is one.
    pub fn texture(&self, index: usize) -> (found: Option<&Bitmap>)
        ensures
            match found {
                Some(bitmap) => index < self.resources().len() && *bitmap
                    == self.resources()[index as int],
                None => index >= self.resources().len(),
            },
    {
        if index < self.textures.bitmaps.len() {
            Some(&self.textures.bitmaps[index])
        } else {
            None
        }
    }

    /// What the drawing of a frame consists of: every texture, in loading
    /// order, at the origin.
    pub fn draw_calls(&self) -> (calls: Vec<DrawCall>)
        ensures
            calls@.len() == self.resources().len(),
            forall|k: int|
                0 <= k < calls@.len() ==> #[trigger] calls@[k] == (DrawCall {
                    texture: k as usize,
                    x: 0,
                    y: 0,
                }),
    {
        self.textures.draw_calls()
    }

    /// Gives up the frame in flight, for a driver whose hook failed: what was
    /// left of the batch is dropped without becoming live, and the scheduler
    /// is idle again. What is live, staged or doomed stays as it was.
    pub fn abandon(&mut self)
        requires
            old(self).wf(),
        ensures
            final(self).wf(),
            final(self)@ == old(self)@.abandon(),
            final(self).resources() == old(self).resources(),
    {
        proof {
            law_doom_and_abandon_keep_wf(self@, 0);
        }
        self.promoting.clear();
        self.cursor = 0;
        self.phase = Phase::Idle;
    }
}

} // verus!
