use vstd::prelude::*;

use crate::cache::{key_position, lru_insert};
use crate::epoch::{epoch_summary, EpochView};
use crate::handling::{
    advanced_epoch, evaluated_epoch, handle_run, handle_step, requested_epoch, run_key, stage_key,
    EventView, HandleStage, WorkerCommand,
};
use crate::routes::{parse_usize_decimal, planned_reply, Error, Reply, Simulation};
use crate::json::{
    empty_object, holds_last_values, lemma_insert_all, names_in, single_member, view_find, JsonView,
};
use crate::worker::epoch_summaries;
use crate::worker::{
    entry_for, epoch_key, has_key, keys_distinct, lemma_lru_insert_keeps_invariant, touched_key,
    ActionView, WorkerView, EPOCH_CACHE_CAPACITY,
};

verus! {

/// An epoch just stored in the cache is its most recently used entry and
/// holds what was stored: a lookup of its key finds it.
pub proof fn lemma_stored_epoch_is_found(s: Seq<(u32, EpochView)>, k: u32, v: EpochView, cap: nat)
    requires
        keys_distinct(s),
        s.len() <= cap,
        cap > 0,
    ensures
        key_position(lru_insert(s, k, v, cap), k) == lru_insert(s, k, v, cap).len() - 1,
        lru_insert(s, k, v, cap).last() == (k, v),
{
    crate::worker::lemma_lru_insert_keeps_invariant(s, k, v, cap);
    let t = lru_insert(s, k, v, cap);
    let p = key_position(s, k);
    let u = if p >= 0 {
        s.remove(p).push((k, v))
    } else {
        s.push((k, v))
    };
    assert(u.last() == (k, v));
    if u.len() > cap {
        assert(t.last() == u.last());
    }
    assert(t[t.len() - 1].0 == k);
    let q = key_position(t, k);
    assert(q >= 0);
    assert(t[q].0 == k);
}

/// Storing an epoch under a new key in a full cache evicts exactly the least
/// recently used epoch.
pub proof fn lemma_full_cache_evicts_least_recent(s: Seq<(u32, EpochView)>, k: u32, v: EpochView, cap: nat)
    requires
        s.len() == cap,
        cap > 0,
        key_position(s, k) < 0,
    ensures
        lru_insert(s, k, v, cap) == s.drop_first().push((k, v)),
{
    assert(s.push((k, v)).drop_first() =~= s.drop_first().push((k, v)));
}

/// Storing an epoch under a key that is cached replaces that epoch and keeps
/// all the others, in their order.
pub proof fn lemma_store_replaces_same_key(s: Seq<(u32, EpochView)>, k: u32, v: EpochView, cap: nat)
    requires
        keys_distinct(s),
        s.len() <= cap,
        key_position(s, k) >= 0,
    ensures
        lru_insert(s, k, v, cap) == s.remove(key_position(s, k)).push((k, v)),
{
}

/// Looking an epoch up keeps every cached epoch: the same entries, the one
/// looked up now last.
pub proof fn lemma_lookup_keeps_entries(w: WorkerView, k: u32)
    requires
        key_position(w.epochs, k) >= 0,
    ensures
        touched_key(w, k, entry_for(w, k)).len() == w.epochs.len(),
        touched_key(w, k, entry_for(w, k)).to_multiset() =~= w.epochs.to_multiset(),
        touched_key(w, k, entry_for(w, k)).last() == (k, entry_for(w, k)),
{
    let p = key_position(w.epochs, k);
    assert(w.epochs[p].0 == k);
    let r = w.epochs.remove(p);
    broadcast use vstd::seq_lib::group_seq_properties;
    assert(w.epochs.to_multiset() =~= r.to_multiset().insert(w.epochs[p])) by {
        vstd::seq_lib::lemma_multiset_commutative(w.epochs.subrange(0, p), w.epochs.subrange(p, w.epochs.len() as int));
        assert(w.epochs =~= w.epochs.subrange(0, p) + w.epochs.subrange(p, w.epochs.len() as int));
        assert(r =~= w.epochs.subrange(0, p) + w.epochs.subrange(p + 1, w.epochs.len() as int));
        vstd::seq_lib::lemma_multiset_commutative(w.epochs.subrange(0, p), w.epochs.subrange(p + 1, w.epochs.len() as int));
        assert(w.epochs.subrange(p, w.epochs.len() as int) =~= seq![w.epochs[p]] + w.epochs.subrange(p + 1, w.epochs.len() as int));
        vstd::seq_lib::lemma_multiset_commutative(seq![w.epochs[p]], w.epochs.subrange(p + 1, w.epochs.len() as int));
    }
}

/// The summary of an epoch reports its number, its number of recorded steps
/// and whether it was evaluated, and holds evaluation data exactly where it
/// was evaluated.
pub proof fn lemma_summary_reports_epoch(e: EpochView)
    ensures
        view_find(epoch_summary(e), "Epoch"@) == Some(JsonView::U64(e.epoch_num as u64)),
        view_find(epoch_summary(e), "Steps"@) == Some(JsonView::U64(e.steps.len() as u64)),
        view_find(epoch_summary(e), "Evaluated"@) == Some(JsonView::Boolean(e.evaluated)),
        e.evaluated ==> view_find(epoch_summary(e), "EvaluationData"@) == Some(
            JsonView::Object(e.evaluation_data),
        ),
        !e.evaluated ==> view_find(epoch_summary(e), "EvaluationData"@) is None,
{
    reveal_strlit("Epoch");
    reveal_strlit("Steps");
    reveal_strlit("Evaluated");
    reveal_strlit("EvaluationData");
    assert("Epoch"@[0] != "Steps"@[0]);
    assert("Epoch"@.len() != "Evaluated"@.len());
    assert("Steps"@[0] != "Evaluated"@[0]);
    assert("EvaluationData"@.len() != "Epoch"@.len());
    assert("EvaluationData"@.len() != "Steps"@.len());
    assert("EvaluationData"@.len() != "Evaluated"@.len());
}

/// A simulation asked for an epoch that is cached and evaluated is not run
/// again: its handling ends at once, with that epoch's data untouched.
pub proof fn lemma_evaluated_epoch_not_resimulated(d: JsonView, w: WorkerView)
    requires
        d is Object,
        key_position(w.epochs, requested_epoch(d) as u32) >= 0,
        entry_for(w, requested_epoch(d) as u32).evaluated,
    ensures
        handle_step(ActionView::Simulate(d), w, HandleStage::Ready, EventView::Start).1 == HandleStage::Done,
        handle_step(ActionView::Simulate(d), w, HandleStage::Ready, EventView::Start).2 == WorkerCommand::Finish,
        handle_step(ActionView::Simulate(d), w, HandleStage::Ready, EventView::Start).0.last() == (
            requested_epoch(d) as u32,
            entry_for(w, requested_epoch(d) as u32),
        ),
{
}

/// A step of a simulation appends its snapshot to the steps of its epoch,
/// which stays cached as the most recently used one.
pub proof fn lemma_step_appends_snapshot(w: WorkerView, epoch_num: usize, finished: bool, snapshot: JsonView)
    requires
        keys_distinct(w.epochs),
        key_position(w.epochs, epoch_num as u32) >= 0,
    ensures
        ({
            let after = WorkerView {
                epochs: handle_step(
                    ActionView::Exit,
                    w,
                    HandleStage::Stepping { epoch_num },
                    EventView::StepTaken { finished, snapshot },
                ).0,
                ..w
            };
            &&& key_position(after.epochs, epoch_num as u32) == after.epochs.len() - 1
            &&& entry_for(after, epoch_num as u32).steps == entry_for(w, epoch_num as u32).steps.push(snapshot)
        }),
{
    let k = epoch_num as u32;
    let p = key_position(w.epochs, k);
    assert(w.epochs[p].0 == k);
    let t = handle_step(
        ActionView::Exit,
        w,
        HandleStage::Stepping { epoch_num },
        EventView::StepTaken { finished, snapshot },
    ).0;
    assert(t[t.len() - 1].0 == k);
    assert forall|i: int| 0 <= i < t.len() - 1 implies (#[trigger] t[i]).0 != k by {
        let i2 = if i < p { i } else { i + 1 };
        assert(t[i] == w.epochs[i2]);
    }
}

/// Queuing an action does not change which action the worker takes next,
/// and an action queued on an empty queue is the next one taken: actions are
/// taken in the order they were queued.
pub proof fn lemma_actions_taken_in_queue_order(q: Seq<ActionView>, a: ActionView)
    ensures
        q.len() > 0 ==> q.push(a)[0] == q[0] && q.push(a).drop_first() == q.drop_first().push(a),
        q.len() == 0 ==> q.push(a)[0] == a && q.push(a).drop_first() == Seq::<ActionView>::empty(),
{
    if q.len() > 0 {
        assert(q.push(a).drop_first() =~= q.drop_first().push(a));
    } else {
        assert(q.push(a).drop_first() =~= Seq::<ActionView>::empty());
    }
}

/// A member set in an object is read back as set, and the other members are
/// kept.
pub proof fn lemma_object_read_after_write(before: Map<Seq<char>, JsonView>, after: Map<Seq<char>, JsonView>, k: Seq<char>, v: JsonView)
    requires
        after == before.insert(k, v),
    ensures
        view_find(JsonView::Object(after), k) == Some(v),
        forall|other: Seq<char>| other != k ==> view_find(JsonView::Object(after), other) == view_find(JsonView::Object(before), other),
{
}

/// Every route but the two that list or look up simulations needs a
/// simulation number, and answers an internal error where the path holds
/// none.
pub proof fn lemma_missing_simulation_is_internal_error(route: Simulation, epoch: Option<usize>, step: Option<usize>)
    requires
        !(route is SimulationStateAll),
        !(route is SimulationStateOne),
    ensures
        planned_reply(route, None, epoch, step) == Reply::Error(Error::InternalServerError),
{
}

/// An advanced epoch is stored as the most recently used entry, under its
/// key, with the persistable data reported for it.
pub proof fn lemma_advanced_epoch_is_stored(
    d: JsonView,
    w: WorkerView,
    epoch_num: usize,
    persistable_data: JsonView,
    species_data: Seq<(Seq<char>, JsonView)>,
)
    requires
        keys_distinct(w.epochs),
        w.epochs.len() <= w.capacity,
        w.capacity > 0,
    ensures
        ({
            let after = handle_step(
                ActionView::Advance(d),
                w,
                HandleStage::Advancing,
                EventView::EpochAdvanced { epoch_num, persistable_data, species_data },
            );
            &&& after.1 == HandleStage::Done
            &&& after.2 == WorkerCommand::Finish
            &&& key_position(after.0, epoch_num as u32) == after.0.len() - 1
            &&& after.0.last() == (epoch_num as u32, advanced_epoch(epoch_num, persistable_data, species_data))
        }),
{
    lemma_stored_epoch_is_found(
        w.epochs,
        epoch_num as u32,
        advanced_epoch(epoch_num, persistable_data, species_data),
        w.capacity,
    );
}

/// The epoch cache never holds more than [`EPOCH_CACHE_CAPACITY`] epochs.
pub proof fn lemma_cache_bounded(w: WorkerView)
    requires
        keys_distinct(w.epochs),
        w.epochs.len() <= w.capacity,
        w.capacity == EPOCH_CACHE_CAPACITY,
    ensures
        w.epochs.len() <= 10,
{
}

/// Every entry of `after` either has key `k` or is an entry of `before`,
/// key and epoch alike.
pub open spec fn changes_at_most(before: Seq<(u32, EpochView)>, after: Seq<(u32, EpochView)>, k: u32) -> bool {
    forall|i: int| 0 <= i < after.len() ==> (#[trigger] after[i]).0 == k || before.contains(after[i])
}

proof fn lemma_changes_at_most_refl(s: Seq<(u32, EpochView)>, k: u32)
    ensures
        changes_at_most(s, s, k),
{
    assert forall|i: int| 0 <= i < s.len() implies (#[trigger] s[i]).0 == k || s.contains(s[i]) by {
        assert(s[i] == s[i]);
    }
}

proof fn lemma_changes_at_most_trans(a: Seq<(u32, EpochView)>, b: Seq<(u32, EpochView)>, c: Seq<(u32, EpochView)>, k: u32)
    requires
        changes_at_most(a, b, k),
        changes_at_most(b, c, k),
    ensures
        changes_at_most(a, c, k),
{
    assert forall|i: int| 0 <= i < c.len() implies (#[trigger] c[i]).0 == k || a.contains(c[i]) by {
        if c[i].0 != k {
            assert(b.contains(c[i]));
            let j = choose|j: int| 0 <= j < b.len() && b[j] == c[i];
            assert(b[j].0 == k || a.contains(b[j]));
        }
    }
}

/// Looking up the entry with key `k` and leaving it `v` changes no entry of
/// another key, and keeps the keys distinct.
proof fn lemma_touched_changes(s: Seq<(u32, EpochView)>, k: u32, v: EpochView)
    requires
        keys_distinct(s),
        key_position(s, k) >= 0,
    ensures
        changes_at_most(s, s.remove(key_position(s, k)).push((k, v)), k),
        keys_distinct(s.remove(key_position(s, k)).push((k, v))),
        s.remove(key_position(s, k)).push((k, v)).len() == s.len(),
        v == s[key_position(s, k)].1 ==> forall|i: int|
            0 <= i < s.len() ==> s.contains(#[trigger] s.remove(key_position(s, k)).push((k, v))[i]),
{
    let p = key_position(s, k);
    assert(s[p].0 == k);
    let t = s.remove(p).push((k, v));
    assert forall|i: int| 0 <= i < t.len() - 1 implies #[trigger] t[i] == s[if i < p { i } else { i + 1 }] by {}
    assert forall|i: int| 0 <= i < t.len() implies (#[trigger] t[i]).0 == k || s.contains(t[i]) by {
        if i < t.len() - 1 {
            assert(t[i] == s[if i < p { i } else { i + 1 }]);
        }
    }
    if v == s[p].1 {
        assert forall|i: int| 0 <= i < s.len() implies s.contains(#[trigger] t[i]) by {
            if i < t.len() - 1 {
                assert(t[i] == s[if i < p { i } else { i + 1 }]);
            } else {
                assert(t[i] == s[p]);
            }
        }
    }
    assert forall|i: int, j: int| 0 <= i < t.len() && 0 <= j < t.len() && i != j implies #[trigger] t[i].0 != #[trigger] t[j].0 by {
        if i < t.len() - 1 && j < t.len() - 1 {
            assert(t[i] == s[if i < p { i } else { i + 1 }]);
            assert(t[j] == s[if j < p { j } else { j + 1 }]);
        } else if i < t.len() - 1 {
            assert(t[i] == s[if i < p { i } else { i + 1 }]);
        } else if j < t.len() - 1 {
            assert(t[j] == s[if j < p { j } else { j + 1 }]);
        }
    }
}

/// Storing under key `k` changes no entry of another key.
proof fn lemma_lru_insert_changes(s: Seq<(u32, EpochView)>, k: u32, v: EpochView, cap: nat)
    requires
        keys_distinct(s),
        s.len() <= cap,
        cap > 0,
    ensures
        changes_at_most(s, lru_insert(s, k, v, cap), k),
        keys_distinct(lru_insert(s, k, v, cap)),
        lru_insert(s, k, v, cap).len() <= cap,
{
    lemma_lru_insert_keeps_invariant(s, k, v, cap);
    let p = key_position(s, k);
    let u = if p >= 0 {
        s.remove(p).push((k, v))
    } else {
        s.push((k, v))
    };
    if p >= 0 {
        lemma_touched_changes(s, k, v);
    } else {
        assert forall|i: int| 0 <= i < u.len() implies (#[trigger] u[i]).0 == k || s.contains(u[i]) by {
            if i < s.len() {
                assert(u[i] == s[i]);
            }
        }
    }
    let t = lru_insert(s, k, v, cap);
    if u.len() > cap {
        assert forall|i: int| 0 <= i < t.len() implies (#[trigger] t[i]).0 == k || s.contains(t[i]) by {
            assert(t[i] == u[i + 1]);
        }
    }
}

/// One step of a handling run keeps the queue and the capacity, keeps the
/// keys distinct, and changes no epoch but the one of key `k`, where `k` is
/// the key of the stage or, before the epoch is known, the run's key.
proof fn lemma_handle_step_changes(
    action: ActionView,
    w: WorkerView,
    stage: HandleStage,
    events: Seq<EventView>,
    k: u32,
)
    requires
        events.len() > 0,
        keys_distinct(w.epochs),
        w.epochs.len() <= w.capacity,
        w.capacity > 0,
        stage_key(stage) is Some ==> stage_key(stage) == Some(k),
        (stage is Ready || stage is Building || stage is Advancing) ==> run_key(events) == k,
    ensures
        ({
            let step = handle_step(action, w, stage, events[0]);
            &&& changes_at_most(w.epochs, step.0, k)
            &&& keys_distinct(step.0)
            &&& step.0.len() <= w.capacity
            &&& !(step.1 is Ready)
            &&& stage_key(step.1) is Some ==> stage_key(step.1) == Some(k)
            &&& (step.1 is Building || step.1 is Advancing) ==> run_key(events.drop_first()) == k
        }),
{
    let e = events[0];
    let step = handle_step(action, w, stage, e);
    lemma_changes_at_most_refl(w.epochs, k);
    match (stage, e) {
        (HandleStage::Ready, EventView::Start) => {
            assert(run_key(events) == run_key(events.drop_first()));
            match action {
                ActionView::Simulate(d) => {
                    let kk = requested_epoch(d) as u32;
                    if d is Object && has_key(w, kk) {
                        lemma_touched_changes(w.epochs, kk, entry_for(w, kk));
                        let t = touched_key(w, kk, entry_for(w, kk));
                        assert forall|i: int| 0 <= i < t.len() implies (#[trigger] t[i]).0 == k || w.epochs.contains(t[i]) by {
                            assert(w.epochs.contains(t[i]));
                        }
                    }
                },
                _ => {},
            }
        },
        (HandleStage::Building, EventView::SimulationBuilt { epoch_num, species, environment }) => {
            match action {
                ActionView::Simulate(d) => {
                    lemma_lru_insert_changes(
                        w.epochs,
                        epoch_key(epoch_num),
                        crate::handling::static_epoch(epoch_num, species, environment),
                        w.capacity,
                    );
                },
                _ => {},
            }
        },
        (HandleStage::Stepping { epoch_num }, EventView::StepTaken { finished, snapshot }) => {
            let kk = epoch_key(epoch_num);
            if has_key(w, kk) {
                lemma_touched_changes(
                    w.epochs,
                    kk,
                    EpochView { steps: entry_for(w, kk).steps.push(snapshot), ..entry_for(w, kk) },
                );
            }
        },
        (
            HandleStage::Evaluating { epoch_num },
            EventView::SpeciesEvaluated { evaluation, persistable_data, species_data },
        ) => {
            let kk = epoch_key(epoch_num);
            if has_key(w, kk) {
                lemma_touched_changes(
                    w.epochs,
                    kk,
                    evaluated_epoch(entry_for(w, kk), evaluation, persistable_data, species_data),
                );
            }
        },
        (HandleStage::Advancing, EventView::EpochAdvanced { epoch_num, persistable_data, species_data }) => {
            lemma_lru_insert_changes(
                w.epochs,
                epoch_key(epoch_num),
                advanced_epoch(epoch_num, persistable_data, species_data),
                w.capacity,
            );
        },
        _ => {},
    }
}

proof fn lemma_handle_run_changes(
    action: ActionView,
    w: WorkerView,
    stage: HandleStage,
    events: Seq<EventView>,
    k: u32,
)
    requires
        keys_distinct(w.epochs),
        w.epochs.len() <= w.capacity,
        w.capacity > 0,
        stage_key(stage) is Some ==> stage_key(stage) == Some(k),
        (stage is Ready || stage is Building || stage is Advancing) ==> run_key(events) == k,
    ensures
        ({
            let r = handle_run(action, w, stage, events).0;
            &&& r.actions == w.actions
            &&& r.capacity == w.capacity
            &&& keys_distinct(r.epochs)
            &&& r.epochs.len() <= r.capacity
            &&& changes_at_most(w.epochs, r.epochs, k)
        }),
    decreases events.len(),
{
    if events.len() == 0 {
        lemma_changes_at_most_refl(w.epochs, k);
    } else {
        lemma_handle_step_changes(action, w, stage, events, k);
        let step = handle_step(action, w, stage, events[0]);
        let w1 = WorkerView { epochs: step.0, ..w };
        lemma_handle_run_changes(action, w1, step.1, events.drop_first(), k);
        lemma_changes_at_most_trans(w.epochs, w1.epochs, handle_run(action, w1, step.1, events.drop_first()).0.epochs, k);
    }
}

proof fn lemma_exit_run_unchanged(w: WorkerView, stage: HandleStage, events: Seq<EventView>)
    requires
        stage is Ready || stage is Done,
    ensures
        handle_run(ActionView::Exit, w, stage, events).0 == w,
    decreases events.len(),
{
    if events.len() > 0 {
        let step = handle_step(ActionView::Exit, w, stage, events[0]);
        assert(step.0 == w.epochs);
        assert(WorkerView { epochs: step.0, ..w } == w);
        lemma_exit_run_unchanged(w, step.1, events.drop_first());
    }
}

/// A whole handling run of an action, from its start, leaves the queue of
/// actions and the capacity alone, keeps the cache consistent, and stores or
/// changes the epoch of at most one key, the run's key: every other cached
/// epoch is one that was cached before, unchanged.  Handling `Exit` changes
/// nothing at all.
pub proof fn lemma_handling_run_touches_one_epoch(action: ActionView, w: WorkerView, events: Seq<EventView>)
    requires
        keys_distinct(w.epochs),
        w.epochs.len() <= w.capacity,
        w.capacity > 0,
    ensures
        ({
            let r = handle_run(action, w, HandleStage::Ready, events).0;
            let k = run_key(events);
            &&& r.actions == w.actions
            &&& r.capacity == w.capacity
            &&& keys_distinct(r.epochs)
            &&& r.epochs.len() <= r.capacity
            &&& forall|i: int| 0 <= i < r.epochs.len() ==> (#[trigger] r.epochs[i]).0 == k || w.epochs.contains(r.epochs[i])
            &&& forall|j: u32| j != k && #[trigger] has_key(r, j) ==> has_key(w, j) && entry_for(r, j) == entry_for(w, j)
            &&& action is Exit ==> r == w
        }),
{
    let k = run_key(events);
    lemma_handle_run_changes(action, w, HandleStage::Ready, events, k);
    let r = handle_run(action, w, HandleStage::Ready, events).0;
    assert forall|j: u32| j != k && #[trigger] has_key(r, j) implies has_key(w, j) && entry_for(r, j) == entry_for(w, j) by {
        let p = key_position(r.epochs, j);
        assert(r.epochs[p].0 == j);
        assert(r.epochs[p].0 == k || w.epochs.contains(r.epochs[p]));
        let q = choose|q: int| 0 <= q < w.epochs.len() && w.epochs[q] == r.epochs[p];
        assert(w.epochs[q].0 == j);
        let q2 = key_position(w.epochs, j);
        assert(w.epochs[q2].0 == j);
        assert(q2 == q);
    }
    if action is Exit {
        lemma_exit_run_unchanged(w, HandleStage::Ready, events);
    }
}

/// Evaluating the species of a cached epoch marks it evaluated and records
/// the evaluation; the epoch stays cached as the most recently used.
pub proof fn lemma_evaluation_marks_epoch(
    action: ActionView,
    w: WorkerView,
    epoch_num: usize,
    evaluation: Seq<(Seq<char>, JsonView)>,
    persistable_data: JsonView,
    species_data: Seq<(Seq<char>, JsonView)>,
)
    requires
        keys_distinct(w.epochs),
        has_key(w, epoch_key(epoch_num)),
    ensures
        ({
            let after = handle_step(
                action,
                w,
                HandleStage::Evaluating { epoch_num },
                EventView::SpeciesEvaluated { evaluation, persistable_data, species_data },
            );
            &&& after.1 == HandleStage::Done
            &&& after.2 == WorkerCommand::Finish
            &&& after.0.last() == (
                epoch_key(epoch_num),
                evaluated_epoch(entry_for(w, epoch_key(epoch_num)), evaluation, persistable_data, species_data),
            )
            &&& after.0.last().1.evaluated
        }),
{
}

/// Whatever route a request takes, the numbers it passes on are those of its
/// path, unchanged: with all three numbers present, each route gets its own
/// reply for exactly those numbers.
pub proof fn lemma_route_passes_numbers_through(s: usize, e: usize, t: usize)
    ensures
        planned_reply(Simulation::SimulationStateAll, Some(s), Some(e), Some(t)) == Reply::ServerSummary,
        planned_reply(Simulation::SimulationStateOne, Some(s), Some(e), Some(t)) == (Reply::SimulationSummary { sim: s }),
        planned_reply(Simulation::AddSimulation, Some(s), Some(e), Some(t)) == Reply::Nothing,
        planned_reply(Simulation::EpochStateAll, Some(s), Some(e), Some(t)) == (Reply::EpochAll { sim: s }),
        planned_reply(Simulation::EpochStateOne, Some(s), Some(e), Some(t)) == (Reply::EpochOne { sim: s, epoch: e }),
        planned_reply(Simulation::AdvanceEpoch, Some(s), Some(e), Some(t)) == (Reply::Advance { sim: s }),
        planned_reply(Simulation::SimulateEpoch, Some(s), Some(e), Some(t)) == (Reply::Simulate { sim: s }),
        planned_reply(Simulation::StepStateAll, Some(s), Some(e), Some(t)) == (Reply::StepAll { sim: s, epoch: e }),
        planned_reply(Simulation::StepStateOne, Some(s), Some(e), Some(t)) == (Reply::StepOne { sim: s, epoch: e, step: t }),
        planned_reply(Simulation::SpeciesInEpoch, Some(s), Some(e), Some(t)) == (Reply::SpeciesAll { sim: s, epoch: e }),
        planned_reply(Simulation::SpeciesInEpochOne, Some(s), Some(e), Some(t)) == Reply::Nothing,
        planned_reply(Simulation::EnvironmentInEpoch, Some(s), Some(e), Some(t)) == (Reply::Environment { sim: s, epoch: e }),
        planned_reply(Simulation::PersistentDataEpoch, Some(s), Some(e), Some(t)) == (Reply::PersistentData { sim: s, epoch: e }),
        planned_reply(Simulation::PersistentDataSpecies, Some(s), Some(e), Some(t)) == (Reply::PersistentSpecies { sim: s, epoch: e }),
        planned_reply(Simulation::PersistentDataSpeciesOne, Some(s), Some(e), Some(t)) == Reply::Nothing,
{
}

/// Routes that list or look up the contents of an epoch need the epoch
/// number: without it a single epoch is "not found" and the rest are internal
/// errors; the one step route without a step number is "not found".
pub proof fn lemma_missing_epoch_or_step(s: usize, t: Option<usize>, e: usize)
    ensures
        planned_reply(Simulation::EpochStateOne, Some(s), None, t) == Reply::Error(Error::NotFound),
        planned_reply(Simulation::StepStateAll, Some(s), None, t) == Reply::Error(Error::InternalServerError),
        planned_reply(Simulation::StepStateOne, Some(s), None, t) == Reply::Error(Error::InternalServerError),
        planned_reply(Simulation::SpeciesInEpoch, Some(s), None, t) == Reply::Error(Error::InternalServerError),
        planned_reply(Simulation::EnvironmentInEpoch, Some(s), None, t) == Reply::Error(Error::InternalServerError),
        planned_reply(Simulation::PersistentDataEpoch, Some(s), None, t) == Reply::Error(Error::InternalServerError),
        planned_reply(Simulation::PersistentDataSpecies, Some(s), None, t) == Reply::Error(Error::InternalServerError),
        planned_reply(Simulation::StepStateOne, Some(s), Some(e), None) == Reply::Error(Error::NotFound),
        planned_reply(Simulation::EpochStateAll, Some(s), None, t) == (Reply::EpochAll { sim: s }),
{
}

/// The listing of cached epochs has one item per cached epoch, in cache
/// order, and item `i` is that epoch's own summary: its number, its number
/// of recorded steps, whether it was evaluated, and its evaluation data where
/// it was.
pub proof fn lemma_epoch_listing(s: Seq<(u32, EpochView)>)
    ensures
        epoch_summaries(s).len() == s.len(),
        forall|i: int| 0 <= i < s.len() ==> #[trigger] epoch_summaries(s)[i] == epoch_summary(s[i].1),
        forall|i: int|
            0 <= i < s.len() ==> view_find(#[trigger] epoch_summaries(s)[i], "Steps"@) == Some(
                JsonView::U64(s[i].1.steps.len() as u64),
            ) && view_find(epoch_summaries(s)[i], "Epoch"@) == Some(JsonView::U64(s[i].1.epoch_num as u64))
                && view_find(epoch_summaries(s)[i], "Evaluated"@) == Some(JsonView::Boolean(s[i].1.evaluated))
                && (s[i].1.evaluated ==> view_find(epoch_summaries(s)[i], "EvaluationData"@) == Some(
                JsonView::Object(s[i].1.evaluation_data),
            )) && (!s[i].1.evaluated ==> view_find(epoch_summaries(s)[i], "EvaluationData"@) is None),
{
    assert forall|i: int| 0 <= i < s.len() implies view_find(#[trigger] epoch_summaries(s)[i], "Steps"@) == Some(
        JsonView::U64(s[i].1.steps.len() as u64),
    ) && view_find(epoch_summaries(s)[i], "Epoch"@) == Some(JsonView::U64(s[i].1.epoch_num as u64))
        && view_find(epoch_summaries(s)[i], "Evaluated"@) == Some(JsonView::Boolean(s[i].1.evaluated))
        && (s[i].1.evaluated ==> view_find(epoch_summaries(s)[i], "EvaluationData"@) == Some(
        JsonView::Object(s[i].1.evaluation_data),
    )) && (!s[i].1.evaluated ==> view_find(epoch_summaries(s)[i], "EvaluationData"@) is None) by {
        lemma_summary_reports_epoch(s[i].1);
    }
}

/// An `Advance` action always asks for the simulation to be advanced,
/// whatever its data and whatever epochs are cached, and leaves the cache as
/// it is.
pub proof fn lemma_advance_always_advances(d: JsonView, w: WorkerView)
    ensures
        handle_step(ActionView::Advance(d), w, HandleStage::Ready, EventView::Start) == (
            w.epochs,
            HandleStage::Advancing,
            WorkerCommand::AdvanceEpoch,
        ),
{
}

/// A `Simulate` action asks for the simulation to be loaded unless the epoch
/// that its data names is cached and evaluated, and changes no cached epoch.
pub proof fn lemma_simulate_start(d: JsonView, w: WorkerView)
    requires
        keys_distinct(w.epochs),
    ensures
        ({
            let k = requested_epoch(d) as u32;
            let after = handle_step(ActionView::Simulate(d), w, HandleStage::Ready, EventView::Start);
            let skipped = d is Object && has_key(w, k) && entry_for(w, k).evaluated;
            &&& skipped ==> after.1 == HandleStage::Done && after.2 == WorkerCommand::Finish
            &&& !skipped ==> after.1 == HandleStage::Building && after.2 == WorkerCommand::BuildSimulation
            &&& after.0.len() == w.epochs.len()
            &&& forall|i: int| 0 <= i < after.0.len() ==> w.epochs.contains(#[trigger] after.0[i])
        }),
{
    let k = requested_epoch(d) as u32;
    if d is Object && has_key(w, k) {
        lemma_touched_changes(w.epochs, k, entry_for(w, k));
    } else {
        assert forall|i: int| 0 <= i < w.epochs.len() implies w.epochs.contains(#[trigger] w.epochs[i]) by {}
    }
}

/// A loaded simulation's epoch is stored, whatever the simulation's type, as
/// a fresh, unevaluated epoch with no step, holding the reported species and
/// the environment as `{"Environment": environment}`; it is then the most
/// recently used epoch.  The type decides what comes next: "Legacy Style"
/// (also where no type is given) steps the simulation, "Solo Run" runs the
/// scenarios, any other string goes to evaluation, and a type that is no
/// string aborts.
pub proof fn lemma_loaded_simulation_is_stored(
    d: JsonView,
    w: WorkerView,
    epoch_num: usize,
    species: Seq<JsonView>,
    environment: JsonView,
)
    requires
        keys_distinct(w.epochs),
        w.epochs.len() <= w.capacity,
        w.capacity > 0,
    ensures
        ({
            let after = handle_step(
                ActionView::Simulate(d),
                w,
                HandleStage::Building,
                EventView::SimulationBuilt { epoch_num, species, environment },
            );
            let k = epoch_key(epoch_num);
            let stored = after.0.last().1;
            &&& key_position(after.0, k) == after.0.len() - 1
            &&& after.0.last().0 == k
            &&& stored.epoch_num == epoch_num
            &&& !stored.evaluated
            &&& stored.steps == Seq::<JsonView>::empty()
            &&& stored.species == species
            &&& stored.environment == Map::<Seq<char>, JsonView>::empty().insert("Environment"@, environment)
            &&& stored.evaluation_data == Map::<Seq<char>, JsonView>::empty()
            &&& stored.persistable_data == Map::<Seq<char>, JsonView>::empty()
            &&& stored.persistable_species_data == Map::<Seq<char>, JsonView>::empty()
            &&& view_find(d, "SimulationType"@) is None ==> after.1 == HandleStage::Stepping { epoch_num }
                && after.2 == WorkerCommand::TakeStep
            &&& view_find(d, "SimulationType"@) == Some(JsonView::Str("Legacy Style"@)) ==> after.1
                == HandleStage::Stepping { epoch_num } && after.2 == WorkerCommand::TakeStep
            &&& view_find(d, "SimulationType"@) == Some(JsonView::Str("Solo Run"@)) ==> after.1
                == HandleStage::RunningScenarios { epoch_num } && after.2 == WorkerCommand::RunScenarios
            &&& forall|t: Seq<char>|
                view_find(d, "SimulationType"@) == Some(JsonView::Str(t)) && t != "Legacy Style"@ && t
                    != "Solo Run"@ ==> after.1 == HandleStage::Evaluating { epoch_num } && after.2
                    == WorkerCommand::EvaluateSpecies
            &&& (view_find(d, "SimulationType"@) is Some && !(view_find(d, "SimulationType"@)->0 is Str))
                ==> after.1 == HandleStage::Done && after.2 == WorkerCommand::Abort
        }),
{
    reveal_strlit("Legacy Style");
    reveal_strlit("Solo Run");
    reveal_strlit("Creature Design");
    reveal_strlit("Creature Observation");
    assert("Legacy Style"@.len() != "Creature Design"@.len());
    assert("Legacy Style"@.len() != "Solo Run"@.len());
    assert("Legacy Style"@.len() != "Creature Observation"@.len());
    assert("Solo Run"@.len() != "Creature Design"@.len());
    lemma_stored_epoch_is_found(
        w.epochs,
        epoch_key(epoch_num),
        crate::handling::static_epoch(epoch_num, species, environment),
        w.capacity,
    );
}

/// A step of the simulation appends its snapshot to its epoch, whatever the
/// action, and goes on stepping until the simulation reports it ended, then
/// asks for evaluation.
pub proof fn lemma_step_records_snapshot(
    action: ActionView,
    w: WorkerView,
    epoch_num: usize,
    finished: bool,
    snapshot: JsonView,
)
    requires
        keys_distinct(w.epochs),
        has_key(w, epoch_key(epoch_num)),
    ensures
        ({
            let k = epoch_key(epoch_num);
            let after = handle_step(
                action,
                w,
                HandleStage::Stepping { epoch_num },
                EventView::StepTaken { finished, snapshot },
            );
            let old_epoch = entry_for(w, k);
            let new_epoch = after.0.last().1;
            &&& after.0.last().0 == k
            &&& key_position(after.0, k) == after.0.len() - 1
            &&& new_epoch.steps == old_epoch.steps.push(snapshot)
            &&& new_epoch.steps.last() == snapshot
            &&& new_epoch == (EpochView { steps: new_epoch.steps, ..old_epoch })
            &&& finished ==> after.1 == HandleStage::Evaluating { epoch_num } && after.2
                == WorkerCommand::EvaluateSpecies
            &&& !finished ==> after.1 == HandleStage::Stepping { epoch_num } && after.2
                == WorkerCommand::TakeStep
        }),
{
    let k = epoch_key(epoch_num);
    let p = key_position(w.epochs, k);
    assert(w.epochs[p].0 == k);
    let t = handle_step(
        action,
        w,
        HandleStage::Stepping { epoch_num },
        EventView::StepTaken { finished, snapshot },
    ).0;
    assert(t[t.len() - 1].0 == k);
    assert forall|i: int| 0 <= i < t.len() - 1 implies (#[trigger] t[i]).0 != k by {
        let i2 = if i < p { i } else { i + 1 };
        assert(t[i] == w.epochs[i2]);
    }
}

/// Running the solo scenarios of an epoch leads to its evaluation and
/// changes no cached epoch.
pub proof fn lemma_scenarios_lead_to_evaluation(action: ActionView, w: WorkerView, epoch_num: usize)
    ensures
        handle_step(action, w, HandleStage::RunningScenarios { epoch_num }, EventView::ScenariosRun) == (
            w.epochs,
            HandleStage::Evaluating { epoch_num },
            WorkerCommand::EvaluateSpecies,
        ),
{
}

/// Evaluating a cached epoch marks it evaluated and keeps its number, steps,
/// species and environment.  Its evaluation data and persistable species
/// data then hold, for each reported name, the last value reported for it,
/// keep every member whose name was not reported, and gain no other member;
/// its persistable data is the reported object's members (none where the
/// report is no object).  The epoch is then the most recently used.
pub proof fn lemma_evaluation_records_reports(
    action: ActionView,
    w: WorkerView,
    epoch_num: usize,
    evaluation: Seq<(Seq<char>, JsonView)>,
    persistable_data: JsonView,
    species_data: Seq<(Seq<char>, JsonView)>,
)
    requires
        keys_distinct(w.epochs),
        has_key(w, epoch_key(epoch_num)),
    ensures
        ({
            let k = epoch_key(epoch_num);
            let after = handle_step(
                action,
                w,
                HandleStage::Evaluating { epoch_num },
                EventView::SpeciesEvaluated { evaluation, persistable_data, species_data },
            );
            let old_epoch = entry_for(w, k);
            let new_epoch = after.0.last().1;
            &&& after.1 == HandleStage::Done
            &&& after.2 == WorkerCommand::Finish
            &&& after.0.last().0 == k
            &&& key_position(after.0, k) == after.0.len() - 1
            &&& new_epoch.evaluated
            &&& new_epoch.epoch_num == old_epoch.epoch_num
            &&& new_epoch.steps == old_epoch.steps
            &&& new_epoch.species == old_epoch.species
            &&& new_epoch.environment == old_epoch.environment
            &&& holds_last_values(new_epoch.evaluation_data, evaluation)
            &&& holds_last_values(new_epoch.persistable_species_data, species_data)
            &&& forall|n: Seq<char>| !names_in(evaluation, n) ==> (#[trigger] new_epoch.evaluation_data.contains_key(n)
                == old_epoch.evaluation_data.contains_key(n)) && (old_epoch.evaluation_data.contains_key(n)
                ==> new_epoch.evaluation_data[n] == old_epoch.evaluation_data[n])
            &&& forall|n: Seq<char>| !names_in(species_data, n) ==> (#[trigger] new_epoch.persistable_species_data.contains_key(n)
                == old_epoch.persistable_species_data.contains_key(n)) && (old_epoch.persistable_species_data.contains_key(n)
                ==> new_epoch.persistable_species_data[n] == old_epoch.persistable_species_data[n])
            &&& forall|n: Seq<char>| #[trigger] new_epoch.evaluation_data.contains_key(n) ==> old_epoch.evaluation_data.contains_key(n)
                || names_in(evaluation, n)
            &&& forall|n: Seq<char>| #[trigger] new_epoch.persistable_species_data.contains_key(n)
                ==> old_epoch.persistable_species_data.contains_key(n) || names_in(species_data, n)
            &&& new_epoch.persistable_data == match persistable_data {
                JsonView::Object(m) => m,
                _ => Map::<Seq<char>, JsonView>::empty(),
            }
        }),
{
    let k = epoch_key(epoch_num);
    let p = key_position(w.epochs, k);
    assert(w.epochs[p].0 == k);
    let old_epoch = entry_for(w, k);
    lemma_insert_all(old_epoch.evaluation_data, evaluation);
    lemma_insert_all(old_epoch.persistable_species_data, species_data);
    let t = handle_step(
        action,
        w,
        HandleStage::Evaluating { epoch_num },
        EventView::SpeciesEvaluated { evaluation, persistable_data, species_data },
    ).0;
    assert(t[t.len() - 1].0 == k);
    assert forall|i: int| 0 <= i < t.len() - 1 implies (#[trigger] t[i]).0 != k by {
        let i2 = if i < p { i } else { i + 1 };
        assert(t[i] == w.epochs[i2]);
    }
}

/// An advanced simulation's epoch is stored as a fresh, unevaluated epoch
/// with no step, species or environment, holding the reported persistable
/// data (the reported object's members, none where it is no object) and,
/// for each reported species name, the last value reported for it and
/// nothing else; it is then the most recently used epoch.
pub proof fn lemma_advanced_epoch_contents(
    d: JsonView,
    w: WorkerView,
    epoch_num: usize,
    persistable_data: JsonView,
    species_data: Seq<(Seq<char>, JsonView)>,
)
    requires
        keys_distinct(w.epochs),
        w.epochs.len() <= w.capacity,
        w.capacity > 0,
    ensures
        ({
            let after = handle_step(
                ActionView::Advance(d),
                w,
                HandleStage::Advancing,
                EventView::EpochAdvanced { epoch_num, persistable_data, species_data },
            );
            let k = epoch_key(epoch_num);
            let stored = after.0.last().1;
            &&& after.1 == HandleStage::Done
            &&& after.2 == WorkerCommand::Finish
            &&& key_position(after.0, k) == after.0.len() - 1
            &&& after.0.last().0 == k
            &&& stored.epoch_num == epoch_num
            &&& !stored.evaluated
            &&& stored.steps == Seq::<JsonView>::empty()
            &&& stored.species == Seq::<JsonView>::empty()
            &&& stored.environment == Map::<Seq<char>, JsonView>::empty()
            &&& stored.evaluation_data == Map::<Seq<char>, JsonView>::empty()
            &&& stored.persistable_data == match persistable_data {
                JsonView::Object(m) => m,
                _ => Map::<Seq<char>, JsonView>::empty(),
            }
            &&& holds_last_values(stored.persistable_species_data, species_data)
            &&& forall|n: Seq<char>| #[trigger] stored.persistable_species_data.contains_key(n) ==> names_in(species_data, n)
        }),
{
    lemma_advanced_epoch_is_stored(d, w, epoch_num, persistable_data, species_data);
    lemma_insert_all(Map::<Seq<char>, JsonView>::empty(), species_data);
}

/// A one-member object holds its member and nothing else; the empty object
/// holds nothing.
pub proof fn lemma_single_member(name: Seq<char>, value: JsonView, other: Seq<char>)
    requires
        other != name,
    ensures
        view_find(single_member(name, value), name) == Some(value),
        view_find(single_member(name, value), other) is None,
        view_find(empty_object(), other) is None,
        single_member(name, value) is Object,
        empty_object() is Object,
{
}

/// Looking up one simulation without its number is "not found".
pub proof fn lemma_missing_simulation_not_found(e: Option<usize>, t: Option<usize>)
    ensures
        planned_reply(Simulation::SimulationStateOne, None, e, t) == Reply::Error(Error::NotFound),
        planned_reply(Simulation::SimulationStateAll, None, e, t) == Reply::ServerSummary,
{
}

/// The epoch that a `Simulate` action names is its member "EpochNum" where
/// that is a non-negative integer, and 0 otherwise.
pub proof fn lemma_requested_epoch(m: Map<Seq<char>, JsonView>, n: u64, i: i64)
    ensures
        requested_epoch(JsonView::Object(m.insert("EpochNum"@, JsonView::U64(n)))) == n,
        i >= 0 ==> requested_epoch(JsonView::Object(m.insert("EpochNum"@, JsonView::I64(i)))) == i as u64,
        i < 0 ==> requested_epoch(JsonView::Object(m.insert("EpochNum"@, JsonView::I64(i)))) == 0,
        !m.contains_key("EpochNum"@) ==> requested_epoch(JsonView::Object(m)) == 0,
        requested_epoch(JsonView::Null) == 0,
        requested_epoch(JsonView::Object(m.insert("EpochNum"@, JsonView::Null))) == 0,
{
}

/// Handling `Exit` finishes at once and changes nothing; once an action is
/// handled, any further report aborts and changes nothing.
pub proof fn lemma_exit_and_done(action: ActionView, w: WorkerView, event: EventView)
    ensures
        handle_step(ActionView::Exit, w, HandleStage::Ready, EventView::Start) == (
            w.epochs,
            HandleStage::Done,
            WorkerCommand::Finish,
        ),
        handle_step(action, w, HandleStage::Done, event) == (
            w.epochs,
            HandleStage::Done,
            WorkerCommand::Abort,
        ),
{
}

/// A number may be written with a leading `+` or without; a `-`, an empty
/// text or a lone `+` is no number.
pub proof fn lemma_decimal_sign(d: Seq<char>)
    ensures
        parse_usize_decimal(seq!['+'] + d) == parse_usize_decimal(d) || (d.len() > 0 && d[0] == '+'),
        parse_usize_decimal(seq!['-'] + d) is None,
        parse_usize_decimal(Seq::<char>::empty()) is None,
        parse_usize_decimal(seq!['+']) is None,
{
    assert((seq!['+'] + d).drop_first() =~= d);
    assert((seq!['-'] + d)[0] == '-');
    assert(seq!['+'].drop_first() =~= Seq::<char>::empty());
    if !(crate::routes::all_decimal_digits(seq!['-'] + d)) {
    } else {
        assert(crate::routes::is_decimal_digit((seq!['-'] + d)[0]));
    }
}

} // verus!
