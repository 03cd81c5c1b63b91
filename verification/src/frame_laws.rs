//! What holds of the frame state machine, whatever the objects do.

use vstd::prelude::*;
use crate::frame::{
    ascending, ids_labelled, inits, mentions, surviving, updates, Action, Frame, Op, Phase,
};
use crate::objects_index::spared;
use crate::seq_facts::{
    lemma_drain_commutes, lemma_filter_all, lemma_filter_ascending, lemma_labelled_add,
    lemma_labelled_members,
};

verus! {

/// A step of the scheduler keeps the registry well formed.
pub proof fn law_step_keeps_wf<T>(f: Frame<T>)
    requires
        f.wf(),
    ensures
        f.step().0.wf(),
{
    let g = f.step().0;
    match f.phase {
        Phase::Idle => {
            let before = f.everything();
            assert(before =~= f.live + f.staged);
            lemma_filter_ascending(before, f.doomed);
            Seq::filter_distributes_over_add(f.live, f.staged, surviving(f.doomed));
            assert(g.everything() =~= before.filter(surviving(f.doomed)));
            assert forall|i: int| 0 <= i < g.everything().len() implies 1 <= (
            #[trigger] g.everything()[i]).id < g.next_id by {
                let e = before.filter(surviving(f.doomed))[i];
                assert(before.contains(e));
            }
        },
        _ => {
            assert(g.everything() =~= f.everything());
        },
    }
}

/// Staging an addition keeps the registry well formed and hands out an
/// identifier that is larger than every identifier handed out before: none
/// that is live, in the batch or staged equals it, and neither does any
/// identifier that was issued and has since been removed.
pub proof fn law_staged_id_is_new<T>(f: Frame<T>, label: String, object: T, issued: usize)
    requires
        f.wf(),
        f.next_id < usize::MAX,
        issued < f.next_id,
    ensures
        f.stage(label, object).0.wf(),
        f.stage(label, object).1 == f.next_id,
        f.stage(label, object).1 < f.stage(label, object).0.next_id,
        !mentions(f.everything(), f.stage(label, object).1),
        issued < f.stage(label, object).1,
{
    let g = f.stage(label, object).0;
    assert(g.everything() =~= f.everything().push(g.staged.last()));
}

/// Two additions staged one after the other get different identifiers, the
/// later one the larger.
pub proof fn law_successive_ids_ascend<T>(
    f: Frame<T>,
    first_label: String,
    first: T,
    second_label: String,
    second: T,
)
    requires
        f.wf(),
        f.next_id + 1 < usize::MAX,
    ensures
        f.stage(first_label, first).1 < f.stage(first_label, first).0.stage(second_label, second).1,
{
}

/// An identifier names at most one live object.
pub proof fn law_live_ids_are_unique<T>(f: Frame<T>, i: int, j: int)
    requires
        f.wf(),
        0 <= i < f.live.len(),
        0 <= j < f.live.len(),
        f.live[i].id == f.live[j].id,
    ensures
        i == j,
{
    let all = f.everything();
    assert(all[i] == f.live[i]);
    assert(all[j] == f.live[j]);
}

/// No action occurs twice in a script: within a frame an object is set up at
/// most once and updated at most once.
pub proof fn law_script_names_each_once<T>(f: Frame<T>)
    requires
        f.wf(),
    ensures
        f.script().no_duplicates(),
{
    let s = f.script();
    let all = f.everything();
    match f.phase {
        Phase::Idle => {
            let d = f.drain();
            assert(all =~= f.live + f.staged);
            lemma_filter_ascending(all, f.doomed);
            Seq::filter_distributes_over_add(f.live, f.staged, surviving(f.doomed));
            let lived = d.live + d.staged;
            assert(lived =~= all.filter(surviving(f.doomed)));
            assert forall|i: int, j: int| 0 <= i < j < s.len() implies s[i] != s[j] by {
                let n = d.staged.len();
                if j < n {
                    assert(s[i] == Action::Init(d.staged[i].id));
                    assert(s[j] == Action::Init(d.staged[j].id));
                    assert(lived[d.live.len() + i] == d.staged[i]);
                    assert(lived[d.live.len() + j] == d.staged[j]);
                } else if i < n {
                    assert(s[i] == Action::Init(d.staged[i].id));
                } else if j < n + lived.len() {
                    assert(s[i] == Action::Update(lived[i - n].id));
                    assert(s[j] == Action::Update(lived[j - n].id));
                } else if i < n + lived.len() {
                    assert(s[i] == Action::Update(lived[i - n].id));
                }
            }
        },
        Phase::Promoting => {
            let rest = f.batch.drop_first();
            let lived = f.live + f.batch;
            assert forall|i: int, j: int| 0 <= i < j < s.len() implies s[i] != s[j] by {
                let n = rest.len();
                if j < n {
                    assert(s[i] == Action::Init(rest[i].id));
                    assert(s[j] == Action::Init(rest[j].id));
                    assert(all[f.live.len() + 1 + i] == rest[i]);
                    assert(all[f.live.len() + 1 + j] == rest[j]);
                } else if i < n {
                    assert(s[i] == Action::Init(rest[i].id));
                } else if j < n + lived.len() {
                    assert(s[i] == Action::Update(lived[i - n].id));
                    assert(s[j] == Action::Update(lived[j - n].id));
                    assert(all[i - n] == lived[i - n]);
                    assert(all[j - n] == lived[j - n]);
                } else if i < n + lived.len() {
                    assert(s[i] == Action::Update(lived[i - n].id));
                }
            }
        },
        Phase::Updating => {
            let rest = f.live.skip(f.cursor + 1 as int);
            assert forall|i: int, j: int| 0 <= i < j < s.len() implies s[i] != s[j] by {
                if j < rest.len() {
                    assert(s[i] == Action::Update(rest[i].id));
                    assert(s[j] == Action::Update(rest[j].id));
                    assert(all[f.cursor + 1 + i] == rest[i]);
                    assert(all[f.cursor + 1 + j] == rest[j]);
                } else if i < rest.len() {
                    assert(s[i] == Action::Update(rest[i].id));
                }
            }
        },
        _ => {},
    }
}

/// No operation ever lowers the next identifier, so identifiers are handed
/// out in strictly increasing order and a removed one never comes back.
pub proof fn law_next_id_never_falls<T>(f: Frame<T>, id: usize)
    ensures
        f.step().0.next_id == f.next_id,
        f.doom(id).next_id == f.next_id,
        f.abandon().next_id == f.next_id,
{
}

/// Staging a removal and giving a frame up keep the registry well formed.
pub proof fn law_doom_and_abandon_keep_wf<T>(f: Frame<T>, id: usize)
    requires
        f.wf(),
    ensures
        f.doom(id).wf(),
        f.abandon().wf(),
{
    let g = f.abandon();
    let before = f.everything();
    assert(g.everything() =~= f.live + f.staged);
    assert forall|i: int| 0 <= i < g.everything().len() implies 1 <= (#[trigger] g.everything()[i]).id
        < g.next_id by {
        if i < f.live.len() {
            assert(g.everything()[i] == before[i]);
        } else {
            assert(g.everything()[i] == before[i + f.batch.len()]);
        }
    }
    assert forall|i: int, j: int| 0 <= i < j < g.everything().len() implies g.everything()[i].id
        < g.everything()[j].id by {
        let a = if i < f.live.len() { i } else { i + f.batch.len() };
        let b = if j < f.live.len() { j } else { j + f.batch.len() };
        assert(g.everything()[i] == before[a]);
        assert(g.everything()[j] == before[b]);
    }
    assert(f.doom(id).everything() =~= before);
}

/// Each step issues the first action of the script. Unless that action ends
/// the frame, the rest of the script is the script of the state reached. So a
/// frame that starts between frames issues exactly one setup call for each
/// staged addition that is not doomed, then exactly one update call for each
/// object that is then live, then the drawing.
pub proof fn law_step_follows_script<T>(f: Frame<T>)
    requires
        f.wf(),
    ensures
        f.script().len() > 0,
        f.step().1 == f.script().first(),
        f.step().1 == Action::Done ==> f.step().0.phase == Phase::Idle && f.script().len() == 1,
        f.step().1 != Action::Done ==> f.step().0.script() == f.script().drop_first(),
{
    let g = f.step().0;
    match f.phase {
        Phase::Idle => {
            let d = f.drain();
            assert(d.live + d.staged =~= d.live.push(d.staged.first()) + d.staged.drop_first()
                || d.staged.len() == 0);
            if d.staged.len() > 0 {
                assert(g.live + g.batch =~= d.live + d.staged);
                assert(g.script() =~= f.script().drop_first());
            } else if d.live.len() > 0 {
                assert(d.live + d.staged =~= d.live);
                assert(g.script() =~= f.script().drop_first());
            } else {
                assert(g.script() =~= f.script().drop_first());
            }
        },
        Phase::Promoting => {
            let h = f.install();
            assert(h.live + h.batch =~= f.live + f.batch);
            if h.batch.len() > 0 {
                assert(g.script() =~= f.script().drop_first());
            } else {
                assert(f.live + f.batch =~= h.live);
                assert(g.script() =~= f.script().drop_first());
            }
        },
        Phase::Updating => {
            assert(g.script() =~= f.script().drop_first());
        },
        _ => {},
    }
}

/// While a frame is in flight, staging an addition or a removal changes
/// neither the live objects nor what the rest of the frame does: the staged
/// object is not looked up, set up or updated before the next frame.
pub proof fn law_staging_waits_for_next_frame<T>(f: Frame<T>, label: String, object: T, id: usize)
    requires
        f.wf(),
        f.phase != Phase::Idle,
    ensures
        f.stage(label, object).0.live == f.live,
        f.stage(label, object).0.script() == f.script(),
        f.stage(label, object).0.step().1 == f.step().1,
        f.stage(label, object).0.step().0.live == f.step().0.live,
        f.doom(id).live == f.live,
        f.doom(id).script() == f.script(),
        f.doom(id).step().1 == f.step().1,
        f.doom(id).step().0.live == f.step().0.live,
{
}

/// Between frames, a staged addition that is not doomed is in the batch of
/// the next frame, and a staged addition stays out of the live objects until
/// then.
pub proof fn law_staged_becomes_live_next_frame<T>(f: Frame<T>, k: int)
    requires
        f.wf(),
        f.phase == Phase::Idle,
        0 <= k < f.staged.len(),
        !f.doomed.contains(f.staged[k].id),
    ensures
        !mentions(f.live, f.staged[k].id),
        f.step().0.batch.contains(f.staged[k]),
        f.script().contains(Action::Init(f.staged[k].id)),
        f.script().contains(Action::Update(f.staged[k].id)),
{
    let e = f.staged[k];
    let all = f.everything();
    assert(all[f.live.len() + f.batch.len() + k] == e);
    assert forall|i: int| 0 <= i < f.live.len() implies (#[trigger] f.live[i]).id != e.id by {
        assert(all[i] == f.live[i]);
    }
    let kept = f.staged.filter(surviving(f.doomed));
    assert(surviving::<T>(f.doomed)(e));
    f.staged.lemma_filter_contains(surviving(f.doomed), k);
    let j = choose|j: int| 0 <= j < kept.len() && kept[j] == e;
    assert(inits(kept)[j] == Action::Init(e.id));
    assert(f.script()[j] == Action::Init(e.id));
    let lived = f.drain().live + kept;
    assert(lived[f.drain().live.len() + j] == e);
    assert(updates(lived)[f.drain().live.len() + j] == Action::Update(e.id));
    assert(f.script()[kept.len() + f.drain().live.len() + j] == Action::Update(e.id));
}

/// Removal wins: an identifier that is doomed when a frame starts is gone
/// after the frame's first step, whether it was live or only staged. It is
/// under no label, and the frame neither sets it up nor updates it.
pub proof fn law_doomed_id_is_gone<T>(f: Frame<T>, id: usize, label: Seq<char>)
    requires
        f.wf(),
        f.phase == Phase::Idle,
        f.doomed.contains(id),
    ensures
        !mentions(f.step().0.everything(), id),
        !ids_labelled(f.step().0.live, label).contains(id),
        !f.script().contains(Action::Init(id)),
        !f.script().contains(Action::Update(id)),
{
    let g = f.step().0;
    let d = f.drain();
    assert(ascending(f.live) && ascending(f.staged)) by {
        let all = f.everything();
        assert forall|i: int, j: int| 0 <= i < j < f.live.len() implies f.live[i].id < f.live[j].id by {
            assert(all[i] == f.live[i] && all[j] == f.live[j]);
        }
        assert forall|i: int, j: int| 0 <= i < j < f.staged.len() implies f.staged[i].id
            < f.staged[j].id by {
            let o = f.live.len() + f.batch.len();
            assert(all[o + i] == f.staged[i] && all[o + j] == f.staged[j]);
        }
    }
    lemma_filter_ascending(f.live, f.doomed);
    lemma_filter_ascending(f.staged, f.doomed);
    assert(g.everything() =~= d.live + d.staged);
    assert forall|i: int| 0 <= i < g.everything().len() implies (#[trigger] g.everything()[i]).id
        != id by {
        if i < d.live.len() {
            assert(g.everything()[i] == d.live[i]);
        } else {
            assert(g.everything()[i] == d.staged[i - d.live.len()]);
        }
    }
    if ids_labelled(g.live, label).contains(id) {
        let k = choose|k: int|
            0 <= k < ids_labelled(g.live, label).len() && ids_labelled(g.live, label)[k] == id;
        lemma_labelled_members(g.live, label, k);
        assert(g.live =~= d.live);
    }
    let s = f.script();
    let lived = d.live + d.staged;
    assert forall|i: int| 0 <= i < s.len() implies s[i] != Action::Init(id) && s[i]
        != Action::Update(id) by {
        if i < d.staged.len() {
            assert(s[i] == Action::Init(d.staged[i].id));
        } else if i < d.staged.len() + lived.len() {
            let e = lived[i - d.staged.len()];
            assert(s[i] == Action::Update(e.id));
            assert(g.everything()[i - d.staged.len()] == e);
        }
    }
}

/// An identifier that was handed out and names nothing any more stays so
/// under every operation.
pub proof fn law_retired_stays_retired<T>(f: Frame<T>, op: Op<T>, id: usize)
    requires
        f.wf(),
        f.retired(id),
        op is Stage ==> f.next_id < usize::MAX,
    ensures
        f.apply(op).wf(),
        f.apply(op).retired(id),
{
    let g = f.apply(op);
    let before = f.everything();
    match op {
        Op::Stage(label, object) => {
            law_staged_id_is_new(f, label, object, id);
            assert(g.everything() =~= before.push(g.staged.last()));
        },
        Op::Doom(doomed) => {
            law_doom_and_abandon_keep_wf(f, doomed);
            assert(g.everything() =~= before);
        },
        Op::Abandon => {
            law_doom_and_abandon_keep_wf(f, id);
            assert(g.everything() =~= f.live + f.staged);
            assert forall|i: int| 0 <= i < g.everything().len() implies (
            #[trigger] g.everything()[i]).id != id by {
                if i < f.live.len() {
                    assert(g.everything()[i] == before[i]);
                } else {
                    assert(g.everything()[i] == before[i + f.batch.len()]);
                }
            }
        },
        Op::Step => {
            law_step_keeps_wf(f);
            if f.phase == Phase::Idle {
                assert(before =~= f.live + f.staged);
                lemma_filter_ascending(before, f.doomed);
                Seq::filter_distributes_over_add(f.live, f.staged, surviving(f.doomed));
                let kept = before.filter(surviving(f.doomed));
                assert(g.everything() =~= kept);
                assert forall|i: int| 0 <= i < g.everything().len() implies (
                #[trigger] g.everything()[i]).id != id by {
                    assert(before.contains(kept[i]));
                }
            } else {
                assert(g.everything() =~= before);
            }
        },
    }
}

/// Removed identifiers never come back. Once an identifier that was handed
/// out names nothing, no sequence of additions, removals, steps and
/// abandoned frames makes it name an object again: it is not live after any
/// of them, so no lookup finds it for the rest of the registry's life.
pub proof fn law_retired_forever<T>(f: Frame<T>, ops: Seq<Op<T>>, id: usize)
    requires
        f.wf(),
        f.retired(id),
        f.admits(ops),
    ensures
        f.run(ops).wf(),
        f.run(ops).retired(id),
        forall|i: int| 0 <= i < f.run(ops).live.len() ==> (#[trigger] f.run(ops).live[i]).id != id,
    decreases ops.len(),
{
    if ops.len() > 0 {
        law_retired_forever(f, ops.drop_last(), id);
        law_retired_stays_retired(f.run(ops.drop_last()), ops.last(), id);
    }
    let g = f.run(ops);
    assert forall|i: int| 0 <= i < g.live.len() implies (#[trigger] g.live[i]).id != id by {
        assert(g.everything()[i] == g.live[i]);
    }
}

/// An identifier that was handed out and is doomed when a frame starts is
/// retired by the frame's first step, and so for good.
pub proof fn law_removed_id_never_returns<T>(f: Frame<T>, id: usize, ops: Seq<Op<T>>)
    requires
        f.wf(),
        f.phase == Phase::Idle,
        f.doomed.contains(id),
        id < f.next_id,
        f.step().0.admits(ops),
    ensures
        f.step().0.retired(id),
        forall|i: int|
            0 <= i < f.step().0.run(ops).live.len() ==> (#[trigger] f.step().0.run(ops).live[i]).id
                != id,
{
    law_doomed_id_is_gone(f, id, Seq::empty());
    law_step_keeps_wf(f);
    law_retired_forever(f.step().0, ops, id);
}

/// Left alone, the frame in flight ends after as many steps as its script
/// is long, in the state that `end_of_frame` describes: between frames
/// again, with every object of the batch live behind the objects that were
/// live before, in staging order.
pub proof fn law_frame_ends<T>(f: Frame<T>)
    requires
        f.wf(),
    ensures
        f.steps(f.script().len()) == f.end_of_frame(),
        f.end_of_frame().phase == Phase::Idle,
        f.end_of_frame().wf(),
    decreases f.script().len(),
{
    law_step_follows_script(f);
    law_step_keeps_wf(f);
    let g = f.step().0;
    let n = f.script().len();
    assert(f.steps(n) == g.steps((n - 1) as nat));
    if f.step().1 == Action::Done {
        assert(g.steps(0) == g);
        assert(f.phase == Phase::Rendering);
        assert(f.live + f.batch =~= f.live);
        assert(f.batch =~= Seq::empty());
        assert(g =~= f.end_of_frame());
    } else {
        law_frame_ends(g);
        match f.phase {
            Phase::Idle => {
                let d = f.drain();
                if d.staged.len() == 0 {
                    assert(d.live + d.staged =~= d.live);
                    assert(g.live + g.batch =~= d.live);
                }
                assert(g.end_of_frame() =~= f.end_of_frame());
            },
            Phase::Promoting => {
                let h = f.install();
                assert(h.live + h.batch =~= f.live + f.batch);
                assert(g.end_of_frame() =~= f.end_of_frame());
            },
            _ => {
                assert(g.end_of_frame() =~= f.end_of_frame());
            },
        }
    }
}

/// An addition that is staged between frames and not doomed is live when
/// the next frame ends, behind every object that was live before.
pub proof fn law_staged_is_live_at_frame_end<T>(f: Frame<T>, k: int)
    requires
        f.wf(),
        f.phase == Phase::Idle,
        0 <= k < f.staged.len(),
        !f.doomed.contains(f.staged[k].id),
    ensures
        f.end_of_frame().live.contains(f.staged[k]),
        f.end_of_frame() == f.steps(f.script().len()),
{
    law_frame_ends(f);
    let e = f.staged[k];
    let kept = f.staged.filter(surviving(f.doomed));
    assert(surviving::<T>(f.doomed)(e));
    f.staged.lemma_filter_contains(surviving(f.doomed), k);
    let j = choose|j: int| 0 <= j < kept.len() && kept[j] == e;
    assert(f.end_of_frame().live[f.drain().live.len() + j] == e);
}

/// What is staged while a frame is in flight is still staged, and not live,
/// when that frame ends; the frame after it is the one that promotes it.
pub proof fn law_staged_in_flight_outlasts_frame<T>(f: Frame<T>, k: int)
    requires
        f.wf(),
        f.phase != Phase::Idle,
        0 <= k < f.staged.len(),
    ensures
        f.end_of_frame().staged == f.staged,
        f.end_of_frame().doomed == f.doomed,
        !mentions(f.end_of_frame().live, f.staged[k].id),
        f.end_of_frame() == f.steps(f.script().len()),
{
    law_frame_ends(f);
    let all = f.everything();
    let e = f.staged[k];
    assert(all[f.live.len() + f.batch.len() + k] == e);
    let ended = f.end_of_frame().live;
    assert forall|i: int| 0 <= i < ended.len() implies (#[trigger] ended[i]).id != e.id by {
        assert(all[i] == ended[i]);
    }
}

/// Cancelling a staged addition leaves the others in their order: of two
/// entries of the batch, the one in front was staged first.
pub proof fn law_batch_keeps_staging_order<T>(f: Frame<T>, i: int, j: int)
    requires
        f.wf(),
        f.phase == Phase::Idle,
        0 <= i < j < f.step().0.batch.len(),
    ensures
        exists|a: int, b: int|
            0 <= a < b < f.staged.len() && f.staged[a] == f.step().0.batch[i] && f.staged[b]
                == f.step().0.batch[j],
{
    let all = f.everything();
    let o = f.live.len() + f.batch.len();
    assert forall|a: int, b: int| 0 <= a < b < f.staged.len() implies f.staged[a].id
        < f.staged[b].id by {
        assert(all[o + a] == f.staged[a] && all[o + b] == f.staged[b]);
    }
    lemma_filter_ascending(f.staged, f.doomed);
    let kept = f.staged.filter(surviving(f.doomed));
    assert(f.step().0.batch =~= kept);
    assert(f.staged.contains(kept[i]));
    assert(f.staged.contains(kept[j]));
    let a = choose|a: int| 0 <= a < f.staged.len() && f.staged[a] == kept[i];
    let b = choose|b: int| 0 <= b < f.staged.len() && f.staged[b] == kept[j];
    assert(kept[i].id < kept[j].id);
    if a >= b {
        if a > b {
            assert(f.staged[b].id < f.staged[a].id);
        }
        assert(false);
    }
}

/// What a label lists when the next frame has ended: the identifiers it
/// listed before without the doomed ones, in their old order, followed by
/// those of the staged additions under that label that are not doomed, in
/// staging order.
pub proof fn law_label_after_frame<T>(f: Frame<T>, label: Seq<char>)
    requires
        f.wf(),
        f.phase == Phase::Idle,
    ensures
        ids_labelled(f.end_of_frame().live, label) == ids_labelled(f.live, label).filter(
            spared(f.doomed),
        ) + ids_labelled(f.staged, label).filter(spared(f.doomed)),
        f.end_of_frame() == f.steps(f.script().len()),
{
    law_frame_ends(f);
    lemma_labelled_add(f.drain().live, f.drain().staged, label);
    lemma_drain_commutes(f.live, f.doomed, label);
    lemma_drain_commutes(f.staged, f.doomed, label);
}

/// With nothing doomed, draining removes nothing: every live object stays
/// and every staged addition is promoted.
pub proof fn law_nothing_doomed_nothing_lost<T>(f: Frame<T>)
    requires
        f.doomed.len() == 0,
    ensures
        f.drain().live == f.live,
        f.drain().staged == f.staged,
{
    lemma_filter_all(f.live, surviving(f.doomed));
    lemma_filter_all(f.staged, surviving(f.doomed));
}

/// A frame that starts with nothing live, nothing staged and nothing doomed
/// draws once and ends where it began.
pub proof fn law_empty_frame_only_draws<T>(f: Frame<T>)
    requires
        f.wf(),
        f.phase == Phase::Idle,
        f.live.len() == 0,
        f.staged.len() == 0,
        f.doomed.len() == 0,
    ensures
        f.step().1 == Action::Render,
        f.step().0.step().1 == Action::Done,
        f.step().0.step().0 == f,
{
    reveal(Seq::filter);
    let g = f.step().0;
    assert(g.live =~= f.live);
    assert(g.staged =~= f.staged);
    assert(g.doomed =~= f.doomed);
    assert(g.batch =~= f.batch);
}

} // verus!
