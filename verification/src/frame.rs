//! The mathematical model of the registry: what is staged, what is doomed,
//! what is live, and the state machine that one frame walks through.

use vstd::prelude::*;

verus! {

/// A game object together with the identifier it was issued and the type
/// label it was staged under. Both stay with the object for its lifetime.
pub struct Entry<T> {
    pub id: usize,
    pub label: String,
    pub object: T,
}

/// Where the scheduler stands within a frame.
#[derive(Clone, Copy, Debug, PartialEq, Eq, Structural)]
pub enum Phase {
    /// Between frames.
    Idle,
    /// Staged removals have been applied; staged additions are still staged.
    /// The scheduler passes through this phase and never rests in it.
    Draining,
    /// The object at the front of the batch is waiting for its setup hook.
    Promoting,
    /// The live object under the cursor is waiting for its update hook.
    Updating,
    /// Every live object was updated; the frame is waiting to be drawn.
    Rendering,
}

/// What the driver has to do before it asks the scheduler again.
#[derive(Clone, Copy, Debug, PartialEq, Eq, Structural)]
pub enum Action {
    /// Call the setup hook of the object being promoted under this identifier.
    Init(usize),
    /// Call the per-frame hook of the live object with this identifier.
    Update(usize),
    /// Draw the frame.
    Render,
    /// The frame is complete.
    Done,
}

/// The test that an entry passes when its identifier is not among `doomed`.
pub open spec fn surviving<T>(doomed: Seq<usize>) -> spec_fn(Entry<T>) -> bool {
    |e: Entry<T>| !doomed.contains(e.id)
}

/// The identifiers of the entries that carry `label`, in the entries' order.
pub open spec fn ids_labelled<T>(entries: Seq<Entry<T>>, label: Seq<char>) -> Seq<usize>
    decreases entries.len(),
{
    if entries.len() == 0 {
        Seq::empty()
    } else if entries.last().label@ == label {
        ids_labelled(entries.drop_last(), label).push(entries.last().id)
    } else {
        ids_labelled(entries.drop_last(), label)
    }
}

/// Identifiers grow strictly along the sequence.
pub open spec fn ascending<T>(entries: Seq<Entry<T>>) -> bool {
    forall|i: int, j: int| 0 <= i < j < entries.len() ==> entries[i].id < entries[j].id
}

/// Whether some entry carries the identifier `id`.
pub open spec fn mentions<T>(entries: Seq<Entry<T>>, id: usize) -> bool {
    exists|i: int| 0 <= i < entries.len() && (#[trigger] entries[i]).id == id
}

/// Whether some entry carries `id`, `label` and `object` together.
pub open spec fn has<T>(entries: Seq<Entry<T>>, id: usize, label: Seq<char>, object: T) -> bool {
    exists|i: int|
        0 <= i < entries.len() && (#[trigger] entries[i]).id == id && entries[i].label@ == label
            && entries[i].object == object
}

/// One setup call for each entry, in order.
pub open spec fn inits<T>(entries: Seq<Entry<T>>) -> Seq<Action> {
    Seq::new(entries.len(), |i: int| Action::Init(entries[i].id))
}

/// One update call for each entry, in order.
pub open spec fn updates<T>(entries: Seq<Entry<T>>) -> Seq<Action> {
    Seq::new(entries.len(), |i: int| Action::Update(entries[i].id))
}

/// One operation on the registry.
pub enum Op<T> {
    /// Staging an addition under a label.
    Stage(String, T),
    /// Staging the removal of an identifier.
    Doom(usize),
    /// One step of the scheduler.
    Step,
    /// Giving the frame in flight up.
    Abandon,
}

/// The state of the registry and of the frame in flight.
pub struct Frame<T> {
    /// The identifier that the next staged object will get.
    pub next_id: usize,
    /// Additions staged since the last promotion, oldest first.
    pub staged: Seq<Entry<T>>,
    /// Identifiers staged for removal, oldest first.
    pub doomed: Seq<usize>,
    /// Additions moved out of staging by the frame in flight and not yet live.
    pub batch: Seq<Entry<T>>,
    /// The live objects, in promotion order.
    pub live: Seq<Entry<T>>,
    /// During the update pass, the position of the object being updated.
    pub cursor: nat,
    pub phase: Phase,
}

impl<T> Frame<T> {
    /// Everything that holds an identifier: live first, then the batch, then
    /// what is staged.
    pub open spec fn everything(self) -> Seq<Entry<T>> {
        self.live + self.batch + self.staged
    }

    /// The invariant of the registry. Identifiers start at 1, were all issued
    /// (they lie below `next_id`) and grow strictly from the live objects
    /// through the batch to the staged ones, so none occurs twice. The batch
    /// is non-empty exactly while promoting, and the cursor points at a live
    /// object exactly while updating.
    pub open spec fn wf(self) -> bool {
        &&& 1 <= self.next_id
        &&& ascending(self.everything())
        &&& forall|i: int|
            0 <= i < self.everything().len() ==> 1 <= (#[trigger] self.everything()[i]).id
                < self.next_id
        &&& self.phase != Phase::Draining
        &&& (self.phase == Phase::Promoting <==> self.batch.len() > 0)
        &&& (self.phase == Phase::Updating ==> self.cursor < self.live.len())
        &&& (self.phase != Phase::Updating ==> self.cursor == 0)
    }

    /// The registry before anything was added.
    pub open spec fn fresh() -> Self {
        Frame {
            next_id: 1,
            staged: Seq::empty(),
            doomed: Seq::empty(),
            batch: Seq::empty(),
            live: Seq::empty(),
            cursor: 0,
            phase: Phase::Idle,
        }
    }

    /// Staging an addition: the object gets the next identifier at once and
    /// joins the end of the staged sequence. Nothing else changes.
    pub open spec fn stage(self, label: String, object: T) -> (Self, usize) {
        (
            Frame {
                next_id: (self.next_id + 1) as usize,
                staged: self.staged.push(Entry { id: self.next_id, label, object }),
                ..self
            },
            self.next_id,
        )
    }

    /// Staging a removal: the identifier joins the end of the doomed sequence.
    pub open spec fn doom(self, id: usize) -> Self {
        Frame { doomed: self.doomed.push(id), ..self }
    }

    /// Applying the staged removals: doomed identifiers leave the live objects
    /// and cancel staged additions.
    pub open spec fn drain(self) -> Self {
        Frame {
            live: self.live.filter(surviving(self.doomed)),
            staged: self.staged.filter(surviving(self.doomed)),
            doomed: Seq::empty(),
            phase: Phase::Draining,
            ..self
        }
    }

    /// Moving what is staged into the batch, all at once.
    pub open spec fn lift(self) -> Self {
        Frame { batch: self.staged, staged: Seq::empty(), phase: Phase::Promoting, ..self }
    }

    /// Making the front of the batch live, after its setup hook has run.
    pub open spec fn install(self) -> Self {
        Frame { live: self.live.push(self.batch.first()), batch: self.batch.drop_first(), ..self }
    }

    /// Moving the cursor past the object that was just updated.
    pub open spec fn advance(self) -> Self {
        Frame { cursor: self.cursor + 1, ..self }
    }

    /// Choosing what the driver does next: set up the front of the batch while
    /// there is one, then update the object under the cursor while there is
    /// one, then draw.
    pub open spec fn settle(self) -> (Self, Action) {
        if self.batch.len() > 0 {
            (Frame { phase: Phase::Promoting, ..self }, Action::Init(self.batch.first().id))
        } else if self.cursor < self.live.len() {
            (
                Frame { phase: Phase::Updating, ..self },
                Action::Update(self.live[self.cursor as int].id),
            )
        } else {
            (Frame { phase: Phase::Rendering, cursor: 0, ..self }, Action::Render)
        }
    }

    /// One step of the scheduler: the work that the current phase still owes,
    /// then the choice of the next action.
    pub open spec fn step(self) -> (Self, Action) {
        match self.phase {
            Phase::Idle => self.drain().lift().settle(),
            Phase::Draining => self.lift().settle(),
            Phase::Promoting => self.install().settle(),
            Phase::Updating => self.advance().settle(),
            Phase::Rendering => (Frame { phase: Phase::Idle, ..self }, Action::Done),
        }
    }

    /// The actions that the frame in flight still owes after the one that was
    /// issued last. Between frames it is the whole next frame: one setup call
    /// for each staged addition that is not doomed, in staging order; one
    /// update call for each object that is then live, in promotion order; the
    /// drawing; the end of the frame.
    pub open spec fn script(self) -> Seq<Action> {
        match self.phase {
            Phase::Idle => inits(self.drain().staged) + updates(
                self.drain().live + self.drain().staged,
            ) + seq![Action::Render, Action::Done],
            Phase::Draining => inits(self.staged) + updates(self.live + self.staged)
                + seq![Action::Render, Action::Done],
            Phase::Promoting => inits(self.batch.drop_first()) + updates(self.live + self.batch)
                + seq![Action::Render, Action::Done],
            Phase::Updating => updates(self.live.skip(self.cursor + 1 as int)) + seq![
                Action::Render,
                Action::Done,
            ],
            Phase::Rendering => seq![Action::Done],
        }
    }

    /// The state after `n` steps of the scheduler with nothing staged in
    /// between.
    pub open spec fn steps(self, n: nat) -> Self
        decreases n,
    {
        if n == 0 {
            self
        } else {
            self.step().0.steps((n - 1) as nat)
        }
    }

    /// Where the frame in flight ends if nothing is staged on the way.
    /// Between frames it is where the next frame ends: what is doomed has
    /// left, and what was staged and not doomed is live, behind the objects
    /// that were live before. What is staged while a frame is in flight is
    /// still staged at its end.
    pub open spec fn end_of_frame(self) -> Self {
        match self.phase {
            Phase::Idle => Frame {
                live: self.drain().live + self.drain().staged,
                staged: Seq::empty(),
                doomed: Seq::empty(),
                batch: Seq::empty(),
                cursor: 0,
                phase: Phase::Idle,
                ..self
            },
            Phase::Draining => Frame {
                live: self.live + self.staged,
                staged: Seq::empty(),
                batch: Seq::empty(),
                cursor: 0,
                phase: Phase::Idle,
                ..self
            },
            _ => Frame {
                live: self.live + self.batch,
                batch: Seq::empty(),
                cursor: 0,
                phase: Phase::Idle,
                ..self
            },
        }
    }

    /// The state after one operation.
    pub open spec fn apply(self, op: Op<T>) -> Self {
        match op {
            Op::Stage(label, object) => self.stage(label, object).0,
            Op::Doom(id) => self.doom(id),
            Op::Step => self.step().0,
            Op::Abandon => self.abandon(),
        }
    }

    /// The state after a sequence of operations, the first one first.
    pub open spec fn run(self, ops: Seq<Op<T>>) -> Self
        decreases ops.len(),
    {
        if ops.len() == 0 {
            self
        } else {
            self.run(ops.drop_last()).apply(ops.last())
        }
    }

    /// Whether every operation of the sequence can be made when its turn
    /// comes: an addition needs an identifier that is still free.
    pub open spec fn admits(self, ops: Seq<Op<T>>) -> bool
        decreases ops.len(),
    {
        ops.len() == 0 || (self.admits(ops.drop_last()) && (ops.last() is Stage ==> self.run(
            ops.drop_last(),
        ).next_id < usize::MAX))
    }

    /// The identifier was handed out and names nothing any more: no object
    /// that is live, in the batch or staged carries it.
    pub open spec fn retired(self, id: usize) -> bool {
        id < self.next_id && !mentions(self.everything(), id)
    }

    /// Giving the frame in flight up: what was left of the batch is dropped
    /// and the scheduler is idle again.
    pub open spec fn abandon(self) -> Self {
        Frame { batch: Seq::empty(), cursor: 0, phase: Phase::Idle, ..self }
    }
}

} // verus!
