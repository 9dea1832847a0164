use vstd::prelude::*;

use std::collections::VecDeque;

use lru_cache::LruCache;

use crate::cache::{
    cache_capacity, cache_entries, cache_get_mut, cache_insert, cache_new, cached_epochs, key_position,
    lru_insert,
};
use crate::epoch::{epoch_summary, EpochState, EpochView};
use crate::json::{
    array_view, empty_object, json_view, lemma_array_view, new_members, object_insert,
    single_member, Json, JsonView,
};

verus! {

/// The number of epochs that a worker keeps.
pub const EPOCH_CACHE_CAPACITY: usize = 10;

/// A piece of work handed to a simulation's worker.
#[derive(Debug, PartialEq)]
pub enum WorkerThreadActions {
    Simulate { simulation_data: Json },
    Advance { simulation_data: Json },
    Exit,
}

pub enum ActionView {
    Simulate(JsonView),
    Advance(JsonView),
    Exit,
}

impl View for WorkerThreadActions {
    type V = ActionView;

    open spec fn view(&self) -> ActionView {
        match self {
            WorkerThreadActions::Simulate { simulation_data } => ActionView::Simulate(
                simulation_data@,
            ),
            WorkerThreadActions::Advance { simulation_data } => ActionView::Advance(
                simulation_data@,
            ),
            WorkerThreadActions::Exit => ActionView::Exit,
        }
    }
}

/// The state shared between a simulation's worker and the request handlers:
/// the queue of pending actions and the most recently used epochs.
pub struct WorkerThreadState {
    actions: VecDeque<WorkerThreadActions>,
    epochs: LruCache<u32, EpochState>,
}

pub struct WorkerView {
    /// Pending actions, the next one first.
    pub actions: Seq<ActionView>,
    /// Cached epochs by key, from the least to the most recently used.
    pub epochs: Seq<(u32, EpochView)>,
    /// How many epochs the cache holds at most.
    pub capacity: nat,
}

impl View for WorkerThreadState {
    type V = WorkerView;

    closed spec fn view(&self) -> WorkerView {
        WorkerView {
            actions: self.actions@.map_values(|a: WorkerThreadActions| a@),
            epochs: cached_epochs(self.epochs),
            capacity: cache_capacity(self.epochs),
        }
    }
}

/// No two cached epochs share a key.
pub open spec fn keys_distinct(s: Seq<(u32, EpochView)>) -> bool {
    forall|i: int, j: int| 0 <= i < s.len() && 0 <= j < s.len() && i != j ==> #[trigger] s[i].0 != #[trigger] s[j].0
}

/// The cache key of epoch `e`: its number cut to 32 bits.
pub open spec fn epoch_key(e: usize) -> u32 {
    e as u32
}

/// Whether an epoch with key `k` is cached.
pub open spec fn has_key(w: WorkerView, k: u32) -> bool {
    key_position(w.epochs, k) >= 0
}

/// The cached epoch with key `k`.
pub open spec fn entry_for(w: WorkerView, k: u32) -> EpochView {
    w.epochs[key_position(w.epochs, k)].1
}

/// The cache after the epoch with key `k` was looked up and left holding
/// `v`: the entry becomes the most recently used.
pub open spec fn touched_key(w: WorkerView, k: u32, v: EpochView) -> Seq<(u32, EpochView)> {
    let p = key_position(w.epochs, k);
    w.epochs.remove(p).push((k, v))
}

/// Whether epoch `e` is cached.
pub open spec fn has_epoch(w: WorkerView, e: usize) -> bool {
    has_key(w, epoch_key(e))
}

/// The cached epoch `e`.
pub open spec fn cached_epoch(w: WorkerView, e: usize) -> EpochView {
    entry_for(w, epoch_key(e))
}

/// The cache after epoch `e` has been looked up: it becomes the most recently
/// used entry.
pub open spec fn refreshed(w: WorkerView, e: usize) -> Seq<(u32, EpochView)> {
    touched_key(w, epoch_key(e), cached_epoch(w, e))
}

/// The cache after epoch `e` was looked up and left holding `v`: the entry
/// becomes the most recently used.
pub open spec fn touched(w: WorkerView, e: usize, v: EpochView) -> Seq<(u32, EpochView)> {
    touched_key(w, epoch_key(e), v)
}

/// Inserting into a cache with distinct keys and no more entries than its
/// capacity keeps both properties.
pub proof fn lemma_lru_insert_keeps_invariant(s: Seq<(u32, EpochView)>, k: u32, v: EpochView, cap: nat)
    requires
        keys_distinct(s),
        s.len() <= cap,
        cap > 0,
    ensures
        keys_distinct(lru_insert(s, k, v, cap)),
        lru_insert(s, k, v, cap).len() <= cap,
{
    let p = key_position(s, k);
    if p >= 0 {
        let t = s.remove(p).push((k, v));
        assert forall|i: int, j: int| 0 <= i < t.len() && 0 <= j < t.len() && i != j implies #[trigger] t[i].0 != #[trigger] t[j].0 by {
            if i < t.len() - 1 && j < t.len() - 1 {
                let i2 = if i < p { i } else { i + 1 };
                let j2 = if j < p { j } else { j + 1 };
                assert(t[i] == s[i2]);
                assert(t[j] == s[j2]);
            } else if i < t.len() - 1 {
                let i2 = if i < p { i } else { i + 1 };
                assert(t[i] == s[i2]);
                assert(s[p].0 == k);
            } else if j < t.len() - 1 {
                let j2 = if j < p { j } else { j + 1 };
                assert(t[j] == s[j2]);
                assert(s[p].0 == k);
            }
        }
    } else {
        let t = s.push((k, v));
        assert forall|i: int, j: int| 0 <= i < t.len() && 0 <= j < t.len() && i != j implies #[trigger] t[i].0 != #[trigger] t[j].0 by {
            if i < s.len() && j < s.len() {
                assert(t[i] == s[i]);
                assert(t[j] == s[j]);
            } else if i < s.len() {
                assert(t[i] == s[i]);
            } else if j < s.len() {
                assert(t[j] == s[j]);
            }
        }
        if t.len() > cap {
            let u = t.drop_first();
            assert forall|i: int, j: int| 0 <= i < u.len() && 0 <= j < u.len() && i != j implies #[trigger] u[i].0 != #[trigger] u[j].0 by {
                assert(u[i] == t[i + 1]);
                assert(u[j] == t[j + 1]);
            }
        }
    }
}

/// The summaries of cached epochs, in cache order.
pub open spec fn epoch_summaries(s: Seq<(u32, EpochView)>) -> Seq<JsonView> {
    Seq::new(s.len(), |i: int| epoch_summary(s[i].1))
}

impl WorkerThreadState {
    /// The worker state is consistent: distinct epoch keys, and no more
    /// epochs than the capacity, which is [`EPOCH_CACHE_CAPACITY`].
    pub open spec fn wf(&self) -> bool {
        &&& keys_distinct(self@.epochs)
        &&& self@.epochs.len() <= self@.capacity
        &&& self@.capacity == EPOCH_CACHE_CAPACITY
    }

    /// A worker state with no pending action and no epoch.
    pub fn new() -> (r: WorkerThreadState)
        ensures
            r.wf(),
            r@.actions == Seq::<ActionView>::empty(),
            r@.epochs == Seq::<(u32, EpochView)>::empty(),
    {
        let r = WorkerThreadState { actions: VecDeque::new(), epochs: cache_new(EPOCH_CACHE_CAPACITY) };
        proof {
            assert(r@.actions =~= Seq::<ActionView>::empty());
        }
        r
    }

    /// Queues an action for the worker.
    fn push_action(&mut self, action: WorkerThreadActions)
        ensures
            final(self)@ == (WorkerView { actions: old(self)@.actions.push(action@), ..old(self)@ }),
    {
        self.actions.push_back(action);
        proof {
            assert(self@.actions =~= old(self)@.actions.push(action@));
        }
    }

    /// Queues the advance of the simulation to its next epoch; the answer is
    /// an empty object.
    pub fn advance(&mut self, data: Json) -> (r: Json)
        ensures
            final(self)@ == (WorkerView {
                actions: old(self)@.actions.push(ActionView::Advance(data@)),
                ..old(self)@
            }),
            r@ == empty_object(),
    {
        self.push_action(WorkerThreadActions::Advance { simulation_data: data });
        Json::Object(new_members())
    }

    /// Queues the simulation of an epoch; the answer is an empty object.
    pub fn simulate(&mut self, data: Json) -> (r: Json)
        ensures
            final(self)@ == (WorkerView {
                actions: old(self)@.actions.push(ActionView::Simulate(data@)),
                ..old(self)@
            }),
            r@ == empty_object(),
    {
        self.push_action(WorkerThreadActions::Simulate { simulation_data: data });
        Json::Object(new_members())
    }

    /// Takes the next pending action, if any.  A worker takes them in the
    /// order they were queued.
    pub fn next_action(&mut self) -> (r: Option<WorkerThreadActions>)
        ensures
            old(self)@.actions.len() == 0 ==> r is None && final(self)@ == old(self)@,
            old(self)@.actions.len() > 0 ==> r is Some && r.unwrap()@ == old(self)@.actions[0]
                && final(self)@ == (WorkerView { actions: old(self)@.actions.drop_first(), ..old(self)@ }),
    {
        let r = self.actions.pop_front();
        proof {
            if old(self)@.actions.len() > 0 {
                assert(self@.actions =~= old(self)@.actions.drop_first());
            } else {
                assert(self@.actions =~= old(self)@.actions);
            }
        }
        r
    }

    /// The simulation's own summary, which is an empty object.
    pub fn serialize(&self) -> (r: Json)
        ensures
            r@ == empty_object(),
    {
        Json::Object(new_members())
    }

    /// Epoch `e`, looked up as `LruCache::get_mut` does: it becomes the most
    /// recently used entry and then holds what is written through the result.
    pub(crate) fn epoch_mut(&mut self, e: usize) -> (r: &mut EpochState)
        requires
            old(self).wf(),
            has_epoch(old(self)@, e),
        ensures
            (*r)@ == cached_epoch(old(self)@, e),
            final(self)@ == (WorkerView { epochs: touched(old(self)@, e, (*final(r))@), ..old(self)@ }),
            final(self).wf(),
    {
        self.epoch_mut_by_key(e as u32).unwrap()
    }

    /// The epoch with key `k`, looked up as `LruCache::get_mut` does.
    pub(crate) fn epoch_mut_by_key(&mut self, k: u32) -> (r: Option<&mut EpochState>)
        requires
            old(self).wf(),
        ensures
            final(self).wf(),
            !has_key(old(self)@, k) ==> r is None && final(self)@ == old(self)@,
            has_key(old(self)@, k) ==> {
                &&& r is Some
                &&& (*r.unwrap())@ == entry_for(old(self)@, k)
                &&& final(self)@ == (WorkerView {
                    epochs: touched_key(old(self)@, k, (*final(r.unwrap()))@),
                    ..old(self)@
                })
            },
    {
        let ghost w = self@;
        let ghost p = key_position(w.epochs, k);
        let ep = cache_get_mut(&mut self.epochs, k);
        proof {
            if p >= 0 {
                assert(w.epochs[p].0 == k);
            }
        }
        ep
    }

    /// Stores epoch `ep` under the key of epoch `e`, as `LruCache::insert`
    /// does.
    pub(crate) fn store_epoch(&mut self, e: usize, ep: EpochState)
        requires
            old(self).wf(),
        ensures
            final(self).wf(),
            final(self)@ == (WorkerView {
                epochs: lru_insert(old(self)@.epochs, epoch_key(e), ep@, old(self)@.capacity),
                ..old(self)@
            }),
    {
        let ghost w = self@;
        let _ = cache_insert(&mut self.epochs, e as u32, ep);
        proof {
            lemma_lru_insert_keeps_invariant(w.epochs, epoch_key(e), ep@, w.capacity);
        }
    }

    /// Whether epoch `e` is cached; the cache is left as it is.
    pub fn is_epoch_cached(&self, e: usize) -> (r: bool)
        ensures
            r == has_epoch(self@, e),
    {
        let entries = cache_entries(&self.epochs);
        let n = entries.len();
        let key = e as u32;
        let mut i: usize = 0;
        while i < n
            invariant
                n == entries@.len(),
                entries@.len() == self@.epochs.len(),
                key == epoch_key(e),
                i <= n,
                forall|j: int|
                    0 <= j < entries@.len() ==> (#[trigger] entries@[j]).0 == self@.epochs[j].0,
                forall|j: int| 0 <= j < i ==> (#[trigger] self@.epochs[j]).0 != key,
            decreases n - i,
        {
            if entries[i].0 == key {
                proof {
                    assert(self@.epochs[i as int].0 == key);
                }
                return true;
            }
            i = i + 1;
        }
        false
    }

    /// The summary of epoch `e`, which becomes the most recently used.
    pub fn serialize_epoch(&mut self, e: usize) -> (r: Json)
        requires
            old(self).wf(),
            has_epoch(old(self)@, e),
        ensures
            final(self).wf(),
            final(self)@ == (WorkerView { epochs: refreshed(old(self)@, e), ..old(self)@ }),
            r@ == epoch_summary(cached_epoch(old(self)@, e)),
    {
        let ep = self.epoch_mut(e);
        ep.serialize()
    }

    /// The species of epoch `e`, as `{"Species": [...]}`; the epoch becomes
    /// the most recently used.
    pub fn serialize_species_all(&mut self, e: usize) -> (r: Json)
        requires
            old(self).wf(),
            has_epoch(old(self)@, e),
        ensures
            final(self).wf(),
            final(self)@ == (WorkerView { epochs: refreshed(old(self)@, e), ..old(self)@ }),
            r@ == single_member("Species"@, JsonView::Array(cached_epoch(old(self)@, e).species)),
    {
        let ep = self.epoch_mut(e);
        let species = ep.species_copy();
        let mut json_obj = new_members();
        object_insert(&mut json_obj, "Species".to_owned(), Json::Array(species));
        Json::Object(json_obj)
    }

    /// The environment of epoch `e`; the epoch becomes the most recently used.
    pub fn serialize_environment(&mut self, e: usize) -> (r: Json)
        requires
            old(self).wf(),
            has_epoch(old(self)@, e),
        ensures
            final(self).wf(),
            final(self)@ == (WorkerView { epochs: refreshed(old(self)@, e), ..old(self)@ }),
            r@ == JsonView::Object(cached_epoch(old(self)@, e).environment),
    {
        let ep = self.epoch_mut(e);
        Json::Object(ep.environment_copy())
    }

    /// The step snapshots of epoch `e`, as `{"Steps": [...]}`; the epoch
    /// becomes the most recently used.
    pub fn serialize_step_all(&mut self, e: usize) -> (r: Json)
        requires
            old(self).wf(),
            has_epoch(old(self)@, e),
        ensures
            final(self).wf(),
            final(self)@ == (WorkerView { epochs: refreshed(old(self)@, e), ..old(self)@ }),
            r@ == single_member("Steps"@, JsonView::Array(cached_epoch(old(self)@, e).steps)),
    {
        let ep = self.epoch_mut(e);
        let steps = ep.steps_copy();
        let mut json_obj = new_members();
        object_insert(&mut json_obj, "Steps".to_owned(), Json::Array(steps));
        Json::Object(json_obj)
    }

    /// The snapshot of step `s` of epoch `e`; the epoch becomes the most
    /// recently used.
    pub fn serialize_step(&mut self, e: usize, s: usize) -> (r: Json)
        requires
            old(self).wf(),
            has_epoch(old(self)@, e),
            s < cached_epoch(old(self)@, e).steps.len(),
        ensures
            final(self).wf(),
            final(self)@ == (WorkerView { epochs: refreshed(old(self)@, e), ..old(self)@ }),
            r@ == cached_epoch(old(self)@, e).steps[s as int],
    {
        let ep = self.epoch_mut(e);
        ep.step_copy(s)
    }

    /// The number of steps recorded for epoch `e`; the cache is left as it is.
    pub fn step_count(&self, e: usize) -> (r: usize)
        requires
            self.wf(),
            has_epoch(self@, e),
        ensures
            r == cached_epoch(self@, e).steps.len(),
    {
        let entries = cache_entries(&self.epochs);
        let n = entries.len();
        let key = e as u32;
        let ghost p = key_position(self@.epochs, epoch_key(e));
        let mut i: usize = 0;
        while i < n
            invariant
                n == entries@.len(),
                entries@.len() == self@.epochs.len(),
                key == epoch_key(e),
                0 <= p < n,
                self@.epochs[p].0 == key,
                keys_distinct(self@.epochs),
                i <= n,
                forall|j: int|
                    0 <= j < entries@.len() ==> (#[trigger] entries@[j]).0 == self@.epochs[j].0
                        && entries@[j].1@ == self@.epochs[j].1,
                forall|j: int| 0 <= j < i ==> (#[trigger] self@.epochs[j]).0 != key,
            decreases n - i,
        {
            if entries[i].0 == key {
                return entries[i].1.steps_len();
            }
            i = i + 1;
        }
        0
    }

    /// The persistable data of epoch `e`; the epoch becomes the most recently
    /// used.
    pub fn serialize_persistent_data(&mut self, e: usize) -> (r: Json)
        requires
            old(self).wf(),
            has_epoch(old(self)@, e),
        ensures
            final(self).wf(),
            final(self)@ == (WorkerView { epochs: refreshed(old(self)@, e), ..old(self)@ }),
            r@ == JsonView::Object(cached_epoch(old(self)@, e).persistable_data),
    {
        let ep = self.epoch_mut(e);
        Json::Object(ep.persistable_data_copy())
    }

    /// The persistable data of the species of epoch `e`; the epoch becomes
    /// the most recently used.
    pub fn serialize_persistent_data_species(&mut self, e: usize) -> (r: Json)
        requires
            old(self).wf(),
            has_epoch(old(self)@, e),
        ensures
            final(self).wf(),
            final(self)@ == (WorkerView { epochs: refreshed(old(self)@, e), ..old(self)@ }),
            r@ == JsonView::Object(cached_epoch(old(self)@, e).persistable_species_data),
    {
        let ep = self.epoch_mut(e);
        Json::Object(ep.persistable_species_data_copy())
    }

    /// The summaries of all cached epochs, from the least to the most
    /// recently used; the cache is left as it is.
    pub fn serialize_epoch_all(&self) -> (r: Json)
        ensures
            r@ == JsonView::Array(epoch_summaries(self@.epochs)),
    {
        let entries = cache_entries(&self.epochs);
        let n = entries.len();
        let mut out: Vec<Json> = Vec::new();
        let mut i: usize = 0;
        while i < n
            invariant
                n == entries@.len(),
                entries@.len() == self@.epochs.len(),
                i <= n,
                out@.len() == i,
                forall|j: int|
                    0 <= j < entries@.len() ==> (#[trigger] entries@[j]).1@ == self@.epochs[j].1,
                forall|j: int| 0 <= j < i ==> json_view(#[trigger] out@[j]) == epoch_summary(self@.epochs[j].1),
            decreases n - i,
        {
            let summary = entries[i].1.serialize();
            out.push(summary);
            i = i + 1;
        }
        proof {
            lemma_array_view(out@);
            assert(array_view(out@) =~= epoch_summaries(self@.epochs));
        }
        Json::Array(out)
    }
}

} // verus!
