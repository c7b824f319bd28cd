//! The engine's configuration, its resource registry and its event bus.
//!
//! Resources and listeners are keyed by a type key `K`: in the game this is
//! the `TypeId` of the resource or event type, and the values are boxed
//! trait objects that the application downcasts.

use vstd::prelude::*;
use vstd::laws_eq::obeys_concrete_eq;

use crate::collections::VecMap;

verus! {

/// How the window is opened.
#[derive(Debug, Clone, PartialEq)]
pub struct EngineConfig {
    pub w: i32,
    pub h: i32,
    pub title: &'static str,
    pub fullscreen: bool,
    pub resizable: bool,
}

impl Default for EngineConfig {
    /// A 640 by 480 window titled "Game", neither fullscreen nor resizable.
    fn default() -> (r: Self)
        ensures
            r.w == 640,
            r.h == 480,
            r.title@ == "Game"@,
            !r.fullscreen,
            !r.resizable,
    {
        Self { w: 640, h: 480, title: "Game", fullscreen: false, resizable: false }
    }
}

/// The engine's resources: at most one value per type key.
pub struct Resources<K, V> {
    map: VecMap<K, V>,
}

impl<K, V> View for Resources<K, V> {
    type V = Map<K, V>;

    closed spec fn view(&self) -> Map<K, V> {
        self.map@
    }
}

impl<K: PartialEq, V> Default for Resources<K, V> {
    fn default() -> (r: Self)
        ensures
            r.wf(),
            r@ == Map::<K, V>::empty(),
    {
        Self::new()
    }
}

impl<K: PartialEq, V> Resources<K, V> {
    /// The registry's invariant: no type key twice.
    pub closed spec fn wf(&self) -> bool {
        self.map.wf()
    }

    /// A registry without resources.
    pub fn new() -> (r: Self)
        ensures
            r.wf(),
            r@ == Map::<K, V>::empty(),
    {
        Self { map: VecMap::new() }
    }

    /// Insert a resource under its type key. Overwrites any previous value of
    /// the same type.
    pub fn insert(&mut self, key: K, resource: V)
        requires
            old(self).wf(),
            obeys_concrete_eq::<K>(),
        ensures
            final(self).wf(),
            final(self)@ == old(self)@.insert(key, resource),
    {
        let _ = self.map.insert(key, resource);
    }

    /// Get an immutable reference to the resource of the given type, if present.
    pub fn get(&self, key: &K) -> (r: Option<&V>)
        requires
            self.wf(),
            obeys_concrete_eq::<K>(),
        ensures
            match r {
                Some(v) => self@.contains_key(*key) && *v == self@[*key],
                None => !self@.contains_key(*key),
            },
    {
        self.map.get(key)
    }

    /// Get a mutable reference to the resource of the given type, if present;
    /// what is written through it becomes the resource.
    pub fn get_mut(&mut self, key: &K) -> (r: Option<&mut V>)
        requires
            old(self).wf(),
            obeys_concrete_eq::<K>(),
        ensures
            final(self).wf(),
            match r {
                Some(v) => {
                    &&& old(self)@.contains_key(*key)
                    &&& *v == old(self)@[*key]
                    &&& final(self)@ == old(self)@.insert(*key, *final(v))
                },
                None => {
                    &&& !old(self)@.contains_key(*key)
                    &&& final(self)@ == old(self)@
                },
            },
    {
        self.map.get_mut(key)
    }

    /// Remove and return the resource of the given type (if you need ownership).
    pub fn remove(&mut self, key: &K) -> (r: Option<V>)
        requires
            old(self).wf(),
            obeys_concrete_eq::<K>(),
        ensures
            final(self).wf(),
            final(self)@ == old(self)@.remove(*key),
            match r {
                Some(v) => old(self)@.contains_key(*key) && v == old(self)@[*key],
                None => !old(self)@.contains_key(*key),
            },
    {
        self.map.remove(key)
    }
}

/// The number that identifies one subscription to the event bus.
pub type SubscriptionId = u64;

/// One queued event handed out by `EventBus::dispatch`, with the
/// subscriptions that must receive it, in the order they were made.
pub struct Delivery<K, E> {
    pub key: K,
    pub event: E,
    pub subscribers: Vec<SubscriptionId>,
}

/// The subscription ids of a listener list, in order.
pub open spec fn subscription_ids<L>(list: Seq<(SubscriptionId, L)>) -> Seq<SubscriptionId> {
    list.map_values(|e: (SubscriptionId, L)| e.0)
}

/// Holds of the listener entries that do not belong to subscription `id`.
pub open spec fn other_than<L>(id: SubscriptionId) -> spec_fn((SubscriptionId, L)) -> bool {
    |e: (SubscriptionId, L)| e.0 != id
}

/// The listener list `list` without the subscription `id`.
pub open spec fn without_subscription<L>(list: Seq<(SubscriptionId, L)>, id: SubscriptionId) -> Seq<
    (SubscriptionId, L),
> {
    list.filter(other_than(id))
}

/// A simple observer/event bus: listeners subscribe under the type key of the
/// events they want, events are queued under their type key, and a dispatch
/// hands each queued event to the listeners of its type.
pub struct EventBus<K, L, E> {
    // map event type -> list of (subscription id, callback)
    listeners: VecMap<K, Vec<(SubscriptionId, L)>>,
    // queued events produced this frame (or by poller)
    queue: Vec<(K, E)>,
    next_id: SubscriptionId,
}

/// A resource inserted under a key is what a later lookup of that key gives
/// back, and the other keys keep their resources.
pub proof fn law_get_after_insert<K, V>(
    before: Resources<K, V>,
    after: Resources<K, V>,
    key: K,
    resource: V,
)
    requires
        after@ == before@.insert(key, resource),
    ensures
        after@.contains_key(key),
        after@[key] == resource,
        forall|k: K| k != key ==> (#[trigger] after@.contains_key(k) == before@.contains_key(k)),
        forall|k: K| k != key && before@.contains_key(k) ==> #[trigger] after@[k] == before@[k],
{
}

/// Removing a key right after inserting under it hands back the inserted
/// resource and leaves the registry as it was without that key.
pub proof fn law_remove_after_insert<K, V>(
    before: Resources<K, V>,
    inserted: Resources<K, V>,
    removed: Resources<K, V>,
    key: K,
    resource: V,
)
    requires
        inserted@ == before@.insert(key, resource),
        removed@ == inserted@.remove(key),
    ensures
        inserted@.contains_key(key),
        inserted@[key] == resource,
        removed@ == before@.remove(key),
        !removed@.contains_key(key),
{
    assert(removed@ =~= before@.remove(key));
}

/// Within `list`, later subscriptions have greater ids.
pub open spec fn ids_increasing<L>(list: Seq<(SubscriptionId, L)>) -> bool {
    forall|i: int, j: int| #![trigger list[i], list[j]] 0 <= i < j < list.len() ==> list[i].0 < list[j].0
}

/// No subscription id occurs under two different type keys.
pub open spec fn ids_disjoint<K, L>(m: Map<K, Seq<(SubscriptionId, L)>>) -> bool {
    forall|k1: K, k2: K, i: int, j: int|
        #![trigger m[k1][i], m[k2][j]]
        m.contains_key(k1) && m.contains_key(k2) && k1 != k2 && 0 <= i < m[k1].len() && 0 <= j
            < m[k2].len() ==> m[k1][i].0 != m[k2][j].0
}

/// The listener lists' invariant: every id lies in `1..next_id`, ids grow
/// along each list, and no id is shared between two lists.
pub open spec fn listeners_wf<K, L>(m: Map<K, Seq<(SubscriptionId, L)>>, next_id: SubscriptionId) -> bool {
    &&& forall|k: K, i: int|
        #![trigger m[k][i]]
        m.contains_key(k) && 0 <= i < m[k].len() ==> 1 <= m[k][i].0 < next_id
    &&& forall|k: K| #[trigger] m.contains_key(k) ==> ids_increasing(m[k])
    &&& ids_disjoint(m)
}

/// Replacing the list of `key` by `list`, whose entries are either entries
/// of the old list or fresh (at least the old `next`), keeps the invariant.
pub proof fn lemma_listeners_wf_insert<K, L>(
    m: Map<K, Seq<(SubscriptionId, L)>>,
    next: SubscriptionId,
    key: K,
    list: Seq<(SubscriptionId, L)>,
    next2: SubscriptionId,
)
    requires
        listeners_wf(m, next),
        next <= next2,
        ids_increasing(list),
        forall|j: int|
            #![trigger list[j]]
            0 <= j < list.len() ==> 1 <= list[j].0 < next2 && (next <= list[j].0 || (m.contains_key(
                key,
            ) && m[key].contains(list[j]))),
    ensures
        listeners_wf(m.insert(key, list), next2),
{
    let m2 = m.insert(key, list);
    assert forall|k1: K, k2: K, i: int, j: int|
        #![trigger m2[k1][i], m2[k2][j]]
        m2.contains_key(k1) && m2.contains_key(k2) && k1 != k2 && 0 <= i < m2[k1].len() && 0 <= j
            < m2[k2].len() implies m2[k1][i].0 != m2[k2][j].0 by {
        if k1 == key {
            assert(m2[k1][i] == list[i]);
            assert(m2[k2][j] == m[k2][j]);
            if next > list[i].0 {
                let a = choose|a: int| 0 <= a < m[key].len() && m[key][a] == list[i];
                assert(m[key][a].0 != m[k2][j].0);
            }
        } else if k2 == key {
            assert(m2[k2][j] == list[j]);
            assert(m2[k1][i] == m[k1][i]);
            if next > list[j].0 {
                let a = choose|a: int| 0 <= a < m[key].len() && m[key][a] == list[j];
                assert(m[key][a].0 != m[k1][i].0);
            }
        } else {
            assert(m2[k1][i] == m[k1][i]);
            assert(m2[k2][j] == m[k2][j]);
        }
    }
    assert forall|k: K, i: int|
        #![trigger m2[k][i]]
        m2.contains_key(k) && 0 <= i < m2[k].len() implies 1 <= m2[k][i].0 < next2 by {
        if k != key {
            assert(m2[k][i] == m[k][i]);
        }
    }
}

/// Dropping the subscription `id` from an id-ordered list keeps it ordered,
/// and every entry left was in the list before.
pub proof fn lemma_without_subscription<L>(list: Seq<(SubscriptionId, L)>, id: SubscriptionId)
    requires
        ids_increasing(list),
    ensures
        ids_increasing(without_subscription(list, id)),
        forall|j: int|
            #![trigger without_subscription(list, id)[j]]
            0 <= j < without_subscription(list, id).len() ==> list.contains(
                without_subscription(list, id)[j],
            ),
    decreases list.len(),
{
    reveal(Seq::filter);
    broadcast use vstd::seq_lib::group_filter_ensures;
    let f = without_subscription(list, id);
    if list.len() > 0 {
        let rest = list.drop_last();
        assert(ids_increasing(rest)) by {
            assert forall|i: int, j: int| #![trigger rest[i], rest[j]] 0 <= i < j < rest.len() implies rest[i].0
                < rest[j].0 by {
                assert(rest[i] == list[i]);
                assert(rest[j] == list[j]);
            }
        }
        lemma_without_subscription(rest, id);
        let f0 = without_subscription(rest, id);
        assert forall|j: int| #![trigger f0[j]] 0 <= j < f0.len() implies f0[j].0 < list.last().0 by {
            assert(rest.contains(f0[j]));
            let a = choose|a: int| 0 <= a < rest.len() && rest[a] == f0[j];
            assert(list[a] == rest[a]);
        }
        assert forall|j: int| #![trigger f[j]] 0 <= j < f.len() implies list.contains(f[j]) by {
            if j < f0.len() {
                assert(f[j] == f0[j]);
                assert(rest.contains(f0[j]));
                let a = choose|a: int| 0 <= a < rest.len() && rest[a] == f0[j];
                assert(list[a] == rest[a]);
            } else {
                assert(f[j] == list.last());
                assert(list[list.len() - 1] == list.last());
            }
        }
    }
}

/// Every subscription on the bus has an id in `1..next_id`, so the id that
/// the next subscription gets is new.
pub proof fn law_subscription_ids_fresh<K: PartialEq, L, E>(bus: EventBus<K, L, E>)
    requires
        bus.wf(),
    ensures
        forall|k: K, i: int|
            #![trigger bus.listeners_of(k)[i]]
            0 <= i < bus.listeners_of(k).len() ==> 1 <= bus.listeners_of(k)[i].0 < bus.next_id(),
{
    assert forall|k: K, i: int|
        #![trigger bus.listeners_of(k)[i]]
        0 <= i < bus.listeners_of(k).len() implies 1 <= bus.listeners_of(k)[i].0 < bus.next_id() by {
        assert(bus.listeners().contains_key(k));
        assert(bus.listeners_of(k)[i] == bus.listeners()[k][i]);
    }
}

/// No two subscriptions on the bus share an id: within one event type ids
/// grow in subscription order, and no id occurs under two event types.
pub proof fn law_subscription_ids_unique<K: PartialEq, L, E>(bus: EventBus<K, L, E>)
    requires
        bus.wf(),
    ensures
        forall|k: K, i: int, j: int|
            #![trigger bus.listeners_of(k)[i], bus.listeners_of(k)[j]]
            0 <= i < j < bus.listeners_of(k).len() ==> bus.listeners_of(k)[i].0 < bus.listeners_of(
                k,
            )[j].0,
        forall|k1: K, k2: K, i: int, j: int|
            #![trigger bus.listeners_of(k1)[i], bus.listeners_of(k2)[j]]
            k1 != k2 && 0 <= i < bus.listeners_of(k1).len() && 0 <= j < bus.listeners_of(k2).len()
                ==> bus.listeners_of(k1)[i].0 != bus.listeners_of(k2)[j].0,
{
    let m = bus.listeners();
    assert forall|k: K, i: int, j: int|
        #![trigger bus.listeners_of(k)[i], bus.listeners_of(k)[j]]
        0 <= i < j < bus.listeners_of(k).len() implies bus.listeners_of(k)[i].0 < bus.listeners_of(
            k,
        )[j].0 by {
        assert(m.contains_key(k));
        assert(ids_increasing(m[k]));
        assert(m[k][i] == bus.listeners_of(k)[i]);
        assert(m[k][j] == bus.listeners_of(k)[j]);
    }
    assert forall|k1: K, k2: K, i: int, j: int|
        #![trigger bus.listeners_of(k1)[i], bus.listeners_of(k2)[j]]
        k1 != k2 && 0 <= i < bus.listeners_of(k1).len() && 0 <= j < bus.listeners_of(k2).len()
            implies bus.listeners_of(k1)[i].0 != bus.listeners_of(k2)[j].0 by {
        assert(m.contains_key(k1));
        assert(m.contains_key(k2));
        assert(m[k1][i] == bus.listeners_of(k1)[i]);
        assert(m[k2][j] == bus.listeners_of(k2)[j]);
    }
}

/// Right after a subscription, its id is among the listeners of its key, so
/// unsubscribing it reports `true`.
pub proof fn law_unsubscribe_after_subscribe<K: PartialEq, L, E>(
    before: EventBus<K, L, E>,
    after: EventBus<K, L, E>,
    key: K,
    id: SubscriptionId,
    listener: L,
)
    requires
        after.listeners() == before.listeners().insert(key, before.listeners_of(key).push((id, listener))),
    ensures
        exists|i: int|
            #![trigger after.listeners_of(key)[i]]
            0 <= i < after.listeners_of(key).len() && after.listeners_of(key)[i].0 == id,
{
    let i = before.listeners_of(key).len() as int;
    assert(after.listeners_of(key)[i] == (id, listener));
}

/// After a subscription is removed, no listener of its key carries its id,
/// so removing it again reports `false`.
pub proof fn law_unsubscribe_removes<L>(list: Seq<(SubscriptionId, L)>, id: SubscriptionId)
    ensures
        forall|i: int|
            #![trigger without_subscription(list, id)[i]]
            0 <= i < without_subscription(list, id).len() ==> without_subscription(list, id)[i].0
                != id,
{
    broadcast use vstd::seq_lib::group_filter_ensures;
}

impl<K: PartialEq, L, E> Default for EventBus<K, L, E> {
    fn default() -> (r: Self)
        ensures
            r.wf(),
            r.listeners() == Map::<K, Seq<(SubscriptionId, L)>>::empty(),
            r.queue() == Seq::<(K, E)>::empty(),
            r.next_id() == 1,
    {
        let r = Self { listeners: VecMap::new(), queue: Vec::new(), next_id: 1 };
        assert(r.listeners() =~= Map::<K, Seq<(SubscriptionId, L)>>::empty());
        r
    }
}

impl<K: PartialEq, L, E> EventBus<K, L, E> {
    /// The listeners of each event type, in subscription order.
    pub closed spec fn listeners(&self) -> Map<K, Seq<(SubscriptionId, L)>> {
        self.listeners@.map_values(|v: Vec<(SubscriptionId, L)>| v@)
    }

    /// The listeners subscribed under `key`, in subscription order.
    pub open spec fn listeners_of(&self, key: K) -> Seq<(SubscriptionId, L)> {
        if self.listeners().contains_key(key) {
            self.listeners()[key]
        } else {
            Seq::empty()
        }
    }

    /// The events waiting for the next dispatch, oldest first.
    pub closed spec fn queue(&self) -> Seq<(K, E)> {
        self.queue@
    }

    /// The id that the next subscription will get.
    pub closed spec fn next_id(&self) -> SubscriptionId {
        self.next_id
    }

    /// The bus's invariant: no type key twice, every subscription id handed
    /// out so far lies in `1..next_id`, and no two subscriptions share one.
    pub closed spec fn wf(&self) -> bool {
        &&& self.listeners.wf()
        &&& 1 <= self.next_id
        &&& listeners_wf(self.listeners(), self.next_id)
    }

    /// The id that the next subscription will get.
    pub fn next_subscription_id(&self) -> (r: SubscriptionId)
        ensures
            r == self.next_id(),
    {
        self.next_id
    }

    /// Registers `listener` for the events of type `key`; returns the new
    /// subscription's id, which is greater than every id handed out before.
    pub fn subscribe(&mut self, key: K, listener: L) -> (id: SubscriptionId)
        requires
            old(self).wf(),
            old(self).next_id() < u64::MAX,
            obeys_concrete_eq::<K>(),
        ensures
            final(self).wf(),
            id == old(self).next_id(),
            final(self).next_id() == old(self).next_id() + 1,
            final(self).listeners() == old(self).listeners().insert(
                key,
                old(self).listeners_of(key).push((id, listener)),
            ),
            final(self).queue() == old(self).queue(),
    {
        let id = self.next_id;
        self.next_id = id + 1;
        match self.listeners.get_mut(&key) {
            Some(list) => {
                list.push((id, listener));
            },
            None => {
                let mut list = Vec::new();
                list.push((id, listener));
                self.listeners.insert(key, list);
            },
        }
        proof {
            assert(self.listeners() =~= old(self).listeners().insert(
                key,
                old(self).listeners_of(key).push((id, listener)),
            ));
            let old_list = old(self).listeners_of(key);
            let list = old_list.push((id, listener));
            if old(self).listeners().contains_key(key) {
                assert(ids_increasing(old(self).listeners()[key]));
            }
            assert forall|i: int, j: int| #![trigger list[i], list[j]] 0 <= i < j < list.len() implies list[i].0
                < list[j].0 by {
                assert(list[i] == old_list[i]);
                assert(old(self).listeners().contains_key(key));
                assert(old_list[i] == old(self).listeners()[key][i]);
                if j < old_list.len() {
                    assert(list[j] == old_list[j]);
                }
            }
            assert forall|j: int| #![trigger list[j]] 0 <= j < list.len() implies 1 <= list[j].0 < id + 1 && (id
                <= list[j].0 || (old(self).listeners().contains_key(key) && old(self).listeners()[key].contains(list[j]))) by {
                if j < old_list.len() {
                    assert(list[j] == old_list[j]);
                    assert(old(self).listeners().contains_key(key));
                    assert(old_list[j] == old(self).listeners()[key][j]);
                }
            }
            lemma_listeners_wf_insert(old(self).listeners(), id, key, list, (id + 1) as u64);
        }
        id
    }

    /// Removes the subscription `id` from the listeners of type `key`; says
    /// whether there was such a subscription.
    pub fn unsubscribe(&mut self, key: &K, subscription_id: SubscriptionId) -> (r: bool)
        requires
            old(self).wf(),
            obeys_concrete_eq::<K>(),
        ensures
            final(self).wf(),
            r == (exists|i: int|
                #![trigger old(self).listeners_of(*key)[i]]
                0 <= i < old(self).listeners_of(*key).len() && old(self).listeners_of(*key)[i].0
                    == subscription_id),
            final(self).listeners() == if old(self).listeners().contains_key(*key) {
                old(self).listeners().insert(
                    *key,
                    without_subscription(old(self).listeners()[*key], subscription_id),
                )
            } else {
                old(self).listeners()
            },
            final(self).queue() == old(self).queue(),
            final(self).next_id() == old(self).next_id(),
    {
        let ghost old_listeners = self.listeners@;
        match self.listeners.get_mut(key) {
            Some(vec) => {
                let before = vec.len();
                let mut taken: Vec<(SubscriptionId, L)> = Vec::new();
                std::mem::swap(vec, &mut taken);
                let ghost orig = taken@;
                let ghost keep = other_than::<L>(subscription_id);
                proof {
                    assert(orig == old_listeners[*key]@);
                }
                let mut kept: Vec<(SubscriptionId, L)> = Vec::new();
                let mut i: usize = 0;
                while taken.len() > 0
                    invariant
                        i + taken@.len() == orig.len(),
                        orig.len() <= usize::MAX,
                        keep == other_than::<L>(subscription_id),
                        taken@ == orig.skip(i as int),
                        kept@ == orig.take(i as int).filter(keep),
                        kept@.len() <= i,
                        (kept@.len() == i) == (forall|j: int|
                            #![trigger orig[j]]
                            0 <= j < i ==> orig[j].0 != subscription_id),
                    decreases taken@.len(),
                {
                    let e = taken.remove(0);
                    proof {
                        assert(e == orig[i as int]);
                        assert(orig.take(i + 1) =~= orig.take(i as int).push(orig[i as int]));
                        orig.take(i as int).lemma_filter_push(orig[i as int], keep);
                        assert(taken@ =~= orig.skip(i + 1));
                    }
                    if e.0 != subscription_id {
                        kept.push(e);
                    }
                    i += 1;
                }
                proof {
                    assert(orig.take(i as int) =~= orig);
                }
                let changed = kept.len() != before;
                proof {
                    assert(old(self).listeners_of(*key) == orig);
                    if changed {
                        let j = choose|j: int| #![trigger orig[j]] 0 <= j < orig.len() && orig[j].0 == subscription_id;
                        assert(old(self).listeners_of(*key)[j] == orig[j]);
                    }
                }
                *vec = kept;
                proof {
                    assert(self.listeners() =~= old(self).listeners().insert(
                        *key,
                        without_subscription(old(self).listeners()[*key], subscription_id),
                    ));
                    let m = old(self).listeners();
                    assert(m.contains_key(*key));
                    assert(m[*key] == orig);
                    assert(ids_increasing(orig));
                    lemma_without_subscription(orig, subscription_id);
                    let list = without_subscription(orig, subscription_id);
                    assert forall|j: int| #![trigger list[j]] 0 <= j < list.len() implies 1 <= list[j].0
                        < self.next_id && (self.next_id <= list[j].0 || (m.contains_key(*key)
                        && m[*key].contains(list[j]))) by {
                        assert(orig.contains(list[j]));
                        let a = choose|a: int| 0 <= a < orig.len() && orig[a] == list[j];
                        assert(m[*key][a] == orig[a]);
                    }
                    lemma_listeners_wf_insert(m, self.next_id, *key, list, self.next_id);
                }
                changed
            },
            None => {
                proof {
                    assert(old(self).listeners_of(*key) == Seq::<(SubscriptionId, L)>::empty());
                }
                false
            },
        }
    }

    /// Queues `event` under its type key for the next dispatch.
    pub fn emit(&mut self, key: K, event: E)
        requires
            old(self).wf(),
        ensures
            final(self).wf(),
            final(self).queue() == old(self).queue().push((key, event)),
            final(self).listeners() == old(self).listeners(),
            final(self).next_id() == old(self).next_id(),
    {
        self.queue.push((key, event));
    }

    /// Drains the queue: hands back every queued event, oldest first, each
    /// with the ids of the listeners subscribed under its type key, in
    /// subscription order.
    pub fn dispatch(&mut self) -> (r: Vec<Delivery<K, E>>)
        requires
            old(self).wf(),
            obeys_concrete_eq::<K>(),
        ensures
            final(self).wf(),
            final(self).queue() == Seq::<(K, E)>::empty(),
            final(self).listeners() == old(self).listeners(),
            final(self).next_id() == old(self).next_id(),
            r@.len() == old(self).queue().len(),
            forall|i: int|
                #![trigger r@[i]]
                0 <= i < r@.len() ==> {
                    &&& r@[i].key == old(self).queue()[i].0
                    &&& r@[i].event == old(self).queue()[i].1
                    &&& r@[i].subscribers@ == subscription_ids(
                        old(self).listeners_of(old(self).queue()[i].0),
                    )
                },
    {
        let mut drained: Vec<(K, E)> = Vec::new();
        std::mem::swap(&mut drained, &mut self.queue);
        let ghost orig = drained@;
        proof {
            assert(orig.len() == drained.len());
        }
        let mut out: Vec<Delivery<K, E>> = Vec::new();
        let mut i: usize = 0;
        while drained.len() > 0
            invariant
                self.wf(),
                obeys_concrete_eq::<K>(),
                self.listeners() == old(self).listeners(),
                i + drained@.len() == orig.len(),
                orig.len() <= usize::MAX,
                drained@ == orig.skip(i as int),
                out@.len() == i,
                forall|j: int|
                    #![trigger out@[j]]
                    0 <= j < i ==> {
                        &&& out@[j].key == orig[j].0
                        &&& out@[j].event == orig[j].1
                        &&& out@[j].subscribers@ == subscription_ids(
                            old(self).listeners_of(orig[j].0),
                        )
                    },
            decreases drained@.len(),
        {
            let (key, event) = drained.remove(0);
            proof {
                assert(drained@ =~= orig.skip(i + 1));
            }
            let subscribers = self.subscribers_of(&key);
            out.push(Delivery { key, event, subscribers });
            i += 1;
        }
        out
    }

    /// The ids of the listeners subscribed under `key`, in subscription order.
    fn subscribers_of(&self, key: &K) -> (r: Vec<SubscriptionId>)
        requires
            self.wf(),
            obeys_concrete_eq::<K>(),
        ensures
            r@ == subscription_ids(self.listeners_of(*key)),
    {
        let mut ids: Vec<SubscriptionId> = Vec::new();
        match self.listeners.get(key) {
            Some(list) => {
                let mut j: usize = 0;
                while j < list.len()
                    invariant
                        j <= list@.len(),
                        list@ == self.listeners_of(*key),
                        ids@ == subscription_ids(list@.take(j as int)),
                    decreases list@.len() - j,
                {
                    ids.push(list[j].0);
                    proof {
                        assert(subscription_ids(list@.take(j + 1)) =~= subscription_ids(
                            list@.take(j as int),
                        ).push(list@[j as int].0));
                    }
                    j += 1;
                }
                proof {
                    assert(list@.take(j as int) =~= list@);
                }
            },
            None => {
                proof {
                    assert(subscription_ids(self.listeners_of(*key)) =~= Seq::<SubscriptionId>::empty());
                }
            },
        }
        ids
    }

    /// The listener of the subscription `id` under `key`, if it is there.
    pub fn listener(&self, key: &K, subscription_id: SubscriptionId) -> (r: Option<&L>)
        requires
            self.wf(),
            obeys_concrete_eq::<K>(),
        ensures
            match r {
                Some(l) => exists|i: int|
                    #![trigger self.listeners_of(*key)[i]]
                    0 <= i < self.listeners_of(*key).len() && self.listeners_of(*key)[i]
                        == (subscription_id, *l),
                None => forall|i: int|
                    #![trigger self.listeners_of(*key)[i]]
                    0 <= i < self.listeners_of(*key).len() ==> self.listeners_of(*key)[i].0
                        != subscription_id,
            },
    {
        match self.listeners.get(key) {
            Some(list) => {
                let mut j: usize = 0;
                while j < list.len()
                    invariant
                        j <= list@.len(),
                        list@ == self.listeners_of(*key),
                        forall|m: int| #![trigger list@[m]] 0 <= m < j ==> list@[m].0 != subscription_id,
                    decreases list@.len() - j,
                {
                    if list[j].0 == subscription_id {
                        return Some(&list[j].1);
                    }
                    j += 1;
                }
                None
            },
            None => None,
        }
    }

    /// Removes every listener; queued events stay queued.
    pub fn clear(&mut self)
        requires
            old(self).wf(),
        ensures
            final(self).wf(),
            final(self).listeners() == Map::<K, Seq<(SubscriptionId, L)>>::empty(),
            final(self).queue() == old(self).queue(),
            final(self).next_id() == old(self).next_id(),
    {
        self.listeners.clear();
        assert(self.listeners() =~= Map::<K, Seq<(SubscriptionId, L)>>::empty());
    }
}

} // verus!
