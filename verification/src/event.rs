//! Event channels.
//!
//! [`EasyEvent`] is one channel: an ordered list of subscribers, each with a
//! fresh id. [`TypeEventSystem`] is a bus of channels keyed by [`TypeId`]:
//! every event type is its own channel. Sending calls the subscribers of
//! that channel in the order they subscribed; an event sent to a channel
//! without subscribers is dropped.
//! [`RecordedEvent`] is a channel that also keeps, for every send, which
//! subscribers it called, so the containers built on it can state exactly
//! which calls each of their operations made.
use std::any::TypeId;
use vstd::prelude::*;

use crate::ioc::type_id_eq;
use crate::seq_facts::{lemma_filter_all, lemma_filter_congruent, lemma_filter_push, lemma_filter_stronger, lemma_take_succ};
use crate::unregister::{IUnRegister, ISubscriptionOwner};

verus! {

/// A subscriber to events of type `T`.
pub trait IEventHandler<T: ?Sized>: Send + Sync {
    /// What handling an event gives back to the sender.
    type Receipt;

    /// What handling `event` gives back.
    spec fn receipt(&self, event: &T) -> Self::Receipt;

    /// Called once for each event delivered to the subscriber.
    fn handle(&self, event: &T) -> (r: Self::Receipt)
        ensures
            r == self.receipt(event),
    ;
}

/// Whether the ids are strictly increasing and all below `bound`.
pub open spec fn ids_fresh_below(ids: Seq<u64>, bound: u64) -> bool {
    &&& forall|i: int, j: int| 0 <= i < j < ids.len() ==> ids[i] < ids[j]
    &&& forall|i: int| 0 <= i < ids.len() ==> ids[i] < bound
}

/// A single event channel; `H` is the type of its subscribers.
pub struct EasyEvent<H> {
    handlers: Vec<(u64, H)>,
    next_id: u64,
    registered: Ghost<Map<u64, H>>,
}

impl<H> EasyEvent<H> {
    /// Subscriber ids in subscription order.
    pub closed spec fn ids(&self) -> Seq<u64> {
        self.handlers@.map_values(|h: (u64, H)| h.0)
    }

    /// The id the next subscription will get.
    pub closed spec fn next_id(&self) -> u64 {
        self.next_id
    }

    /// Every subscriber ever added, by the id it was given.
    pub closed spec fn handler_map(&self) -> Map<u64, H> {
        self.registered@
    }

    /// The subscriber added under `id`.
    pub open spec fn handler_of(&self, id: u64) -> H {
        self.handler_map()[id]
    }

    /// Ids are unique, in subscription order, and below `next_id`; each
    /// subscriber is the one added under its id.
    pub closed spec fn wf(&self) -> bool {
        &&& ids_fresh_below(self.ids(), self.next_id)
        &&& forall|k: int| 0 <= k < self.handlers@.len() ==> {
            &&& self.registered@.contains_key(#[trigger] self.handlers@[k].0)
            &&& self.registered@[self.handlers@[k].0] == self.handlers@[k].1
        }
    }

    /// A channel without subscribers.
    pub fn new() -> (r: EasyEvent<H>)
        ensures
            r.wf(),
            r.ids() == Seq::<u64>::empty(),
            r.next_id() == 0,
            r.handler_map() == Map::<u64, H>::empty(),
    {
        EasyEvent { handlers: Vec::new(), next_id: 0, registered: Ghost(Map::empty()) }
    }

    /// Subscriber ids are distinct, so there are as many distinct ids as
    /// subscribers.
    pub proof fn lemma_ids_distinct(&self)
        requires
            self.wf(),
        ensures
            self.ids().no_duplicates(),
            self.ids().to_set().len() == self.ids().len(),
    {
        assert forall|i: int, j: int| 0 <= i < self.ids().len() && 0 <= j < self.ids().len() && i != j
            implies self.ids()[i] != self.ids()[j] by {
            if i < j {
                assert(self.ids()[i] < self.ids()[j]);
            } else {
                assert(self.ids()[j] < self.ids()[i]);
            }
        }
        self.ids().unique_seq_to_set();
    }

    /// Number of subscribers.
    pub fn handler_count(&self) -> (r: usize)
        ensures
            r == self.ids().len(),
    {
        self.handlers.len()
    }

    /// Removes every subscriber. Ids are never reused afterwards.
    pub fn clear(&mut self)
        requires
            old(self).wf(),
        ensures
            final(self).wf(),
            final(self).ids() == Seq::<u64>::empty(),
            final(self).next_id() == old(self).next_id(),
            final(self).handler_map() == old(self).handler_map(),
    {
        self.handlers.clear();
        proof {
            assert(self.ids() =~= Seq::<u64>::empty());
        }
    }

    /// Adds a subscriber under the id `id`, which must not be below the
    /// next fresh id; later fresh ids come after it.
    pub fn register_as(&mut self, id: u64, handler: H)
        requires
            old(self).wf(),
            old(self).next_id() <= id < u64::MAX,
        ensures
            final(self).wf(),
            final(self).ids() == old(self).ids().push(id),
            final(self).next_id() == id + 1,
            final(self).handler_map() == old(self).handler_map().insert(id, handler),
    {
        let ghost h = handler;
        self.handlers.push((id, handler));
        self.next_id = id + 1;
        self.registered = Ghost(self.registered@.insert(id, h));
        proof {
            assert forall|k: int| 0 <= k < self.handlers@.len() implies {
                &&& self.registered@.contains_key(#[trigger] self.handlers@[k].0)
                &&& self.registered@[self.handlers@[k].0] == self.handlers@[k].1
            } by {
                if k < old(self).handlers@.len() {
                    assert(self.handlers@[k] == old(self).handlers@[k]);
                    assert(old(self).ids()[k] < id);
                }
            }
            assert forall|k: int| 0 <= k < self.handlers@.len() implies
                #[trigger] self.ids()[k] == old(self).ids().push(id)[k] by {
                if k < old(self).handlers@.len() {
                    assert(self.handlers@[k] == old(self).handlers@[k]);
                }
            }
            assert(self.ids() =~= old(self).ids().push(id));
        }
    }

    /// Adds a subscriber under a fresh id and returns the handle that
    /// cancels it.
    pub fn register(&mut self, handler: H) -> (r: IUnRegister)
        requires
            old(self).wf(),
            old(self).next_id() < u64::MAX,
        ensures
            final(self).wf(),
            final(self).ids() == old(self).ids().push(old(self).next_id()),
            final(self).next_id() == old(self).next_id() + 1,
            final(self).handler_map() == old(self).handler_map().insert(old(self).next_id(), handler),
            r.target() == Some(old(self).next_id()),
    {
        let id = self.next_id;
        self.register_as(id, handler);
        IUnRegister::new(id)
    }

    /// Removes the subscriber with id `id`; the others keep their order.
    pub fn unregister_by_id(&mut self, id: u64)
        requires
            old(self).wf(),
        ensures
            final(self).wf(),
            final(self).ids() == old(self).ids().filter(not_id(id)),
            final(self).next_id() == old(self).next_id(),
            final(self).handler_map() == old(self).handler_map(),
    {
        let ghost pred = not_id(id);
        let mut kept: Vec<(u64, H)> = Vec::new();
        let mut rest: Vec<(u64, H)> = Vec::new();
        std::mem::swap(&mut rest, &mut self.handlers);
        let ghost orig = old(self).ids();
        let ghost n = orig.len();
        while rest.len() > 0
            invariant
                pred == not_id(id),
                orig == old(self).ids(),
                n == orig.len(),
                rest@.len() <= n,
                forall|k: int| 0 <= k < rest@.len() ==> #[trigger] rest@[k].0 == orig[n - rest@.len() + k],
                kept@.map_values(|h: (u64, H)| h.0)
                    == orig.take(n - rest@.len()).filter(pred),
                ids_fresh_below(orig, self.next_id),
                ids_fresh_below(kept@.map_values(|h: (u64, H)| h.0), self.next_id),
                forall|k: int, j: int| 0 <= k < kept@.len() && n - rest@.len() <= j < n
                    ==> #[trigger] kept@[k].0 < #[trigger] orig[j],
                self.next_id == old(self).next_id,
                self.registered@ == old(self).registered@,
                forall|k: int| 0 <= k < rest@.len() ==> {
                    &&& self.registered@.contains_key(#[trigger] rest@[k].0)
                    &&& self.registered@[rest@[k].0] == rest@[k].1
                },
                forall|k: int| 0 <= k < kept@.len() ==> {
                    &&& self.registered@.contains_key(#[trigger] kept@[k].0)
                    &&& self.registered@[kept@[k].0] == kept@[k].1
                },
            decreases rest@.len(),
        {
            let ghost before = rest@.len();
            let ghost prev = rest@;
            let h = rest.remove(0);
            let ghost i = n - before;
            proof {
                assert(h == prev[0]);
                assert forall|k: int| 0 <= k < rest@.len() implies {
                    &&& self.registered@.contains_key(#[trigger] rest@[k].0)
                    &&& self.registered@[rest@[k].0] == rest@[k].1
                } by {
                    assert(rest@[k] == prev[k + 1]);
                }
                assert(h.0 == orig[i]);
                lemma_take_succ(orig, i);
                lemma_filter_push(orig.take(i), orig[i], pred);
                assert forall|k: int| 0 <= k < rest@.len() implies #[trigger] rest@[k].0 == orig[n - rest@.len() + k] by {
                    assert(rest@[k] == prev[k + 1]);
                }
            }
            if h.0 != id {
                let ghost kept_before = kept@;
                kept.push(h);
                proof {
                    assert(kept@.map_values(|h: (u64, H)| h.0)
                        =~= orig.take(i).filter(pred).push(orig[i]));
                    assert forall|k: int| 0 <= k < kept@.len() implies {
                        &&& self.registered@.contains_key(#[trigger] kept@[k].0)
                        &&& self.registered@[kept@[k].0] == kept@[k].1
                    } by {
                        if k < kept_before.len() {
                            assert(kept@[k] == kept_before[k]);
                        }
                    }
                }
            } else {
                proof {
                    assert(!pred(orig[i]));
                }
            }
        }
        proof {
            assert(orig.take(n as int) =~= orig);
        }
        self.handlers = kept;
    }

    /// Calls every subscriber, in subscription order, with `event`, and
    /// returns what each gave back, in call order.
    pub fn send<T: ?Sized>(&self, event: &T) -> (r: Vec<<H as IEventHandler<T>>::Receipt>)
        where H: IEventHandler<T>,
        requires
            self.wf(),
        ensures
            r@.len() == self.ids().len(),
            forall|i: int| 0 <= i < r@.len() ==> #[trigger] r@[i] == self.handler_of(self.ids()[i]).receipt(event),
    {
        let mut receipts: Vec<<H as IEventHandler<T>>::Receipt> = Vec::new();
        let n = self.handlers.len();
        let mut i: usize = 0;
        while i < n
            invariant
                self.wf(),
                n == self.handlers.len(),
                i <= n,
                receipts@.len() == i,
                forall|k: int| 0 <= k < i ==> #[trigger] receipts@[k] == self.handler_of(self.ids()[k]).receipt(event),
            decreases n - i,
        {
            let receipt = self.handlers[i].1.handle(event);
            proof {
                assert(self.ids()[i as int] == self.handlers@[i as int].0);
                assert(self.registered@[self.handlers@[i as int].0] == self.handlers@[i as int].1);
            }
            receipts.push(receipt);
            i += 1;
        }
        receipts
    }
}

/// An event channel that keeps a record of its deliveries: for every send,
/// the ids of the subscribers it reached, in call order. Subscribing and
/// unsubscribing work as on [`EasyEvent`] and leave the record as it is.
pub struct RecordedEvent<H> {
    event: EasyEvent<H>,
    sent: Ghost<Seq<Seq<u64>>>,
}

impl<H> RecordedEvent<H> {
    /// Subscriber ids in subscription order.
    pub closed spec fn ids(&self) -> Seq<u64> {
        self.event.ids()
    }

    /// The id the next subscription will get.
    pub closed spec fn next_id(&self) -> u64 {
        self.event.next_id()
    }

    /// Every subscriber ever added, by the id it was given.
    pub closed spec fn handler_map(&self) -> Map<u64, H> {
        self.event.handler_map()
    }

    /// The subscriber added under `id`.
    pub open spec fn handler_of(&self, id: u64) -> H {
        self.handler_map()[id]
    }

    /// For every send so far, in order, the ids of the subscribers it
    /// called, in call order.
    pub closed spec fn sent(&self) -> Seq<Seq<u64>> {
        self.sent@
    }

    /// The subscribers are consistent, as on [`EasyEvent`].
    pub closed spec fn wf(&self) -> bool {
        self.event.wf()
    }

    /// A channel without subscribers that has sent nothing.
    pub fn new() -> (r: RecordedEvent<H>)
        ensures
            r.wf(),
            r.ids() == Seq::<u64>::empty(),
            r.next_id() == 0,
            r.handler_map() == Map::<u64, H>::empty(),
            r.sent() == Seq::<Seq<u64>>::empty(),
    {
        RecordedEvent { event: EasyEvent::new(), sent: Ghost(Seq::empty()) }
    }

    /// Subscriber ids are distinct, so there are as many distinct ids as
    /// subscribers.
    pub proof fn lemma_ids_distinct(&self)
        requires
            self.wf(),
        ensures
            self.ids().no_duplicates(),
            self.ids().to_set().len() == self.ids().len(),
    {
        self.event.lemma_ids_distinct();
    }

    /// Number of subscribers.
    pub fn handler_count(&self) -> (r: usize)
        ensures
            r == self.ids().len(),
    {
        self.event.handler_count()
    }

    /// Adds a subscriber under the id `id`, which must not be below the
    /// next fresh id; later fresh ids come after it.
    pub fn register_as(&mut self, id: u64, handler: H)
        requires
            old(self).wf(),
            old(self).next_id() <= id < u64::MAX,
        ensures
            final(self).wf(),
            final(self).ids() == old(self).ids().push(id),
            final(self).next_id() == id + 1,
            final(self).handler_map() == old(self).handler_map().insert(id, handler),
            final(self).sent() == old(self).sent(),
    {
        self.event.register_as(id, handler);
    }

    /// Adds a subscriber under a fresh id and returns the handle that
    /// cancels it.
    pub fn register(&mut self, handler: H) -> (r: IUnRegister)
        requires
            old(self).wf(),
            old(self).next_id() < u64::MAX,
        ensures
            final(self).wf(),
            final(self).ids() == old(self).ids().push(old(self).next_id()),
            final(self).next_id() == old(self).next_id() + 1,
            final(self).handler_map() == old(self).handler_map().insert(old(self).next_id(), handler),
            final(self).sent() == old(self).sent(),
            r.target() == Some(old(self).next_id()),
    {
        self.event.register(handler)
    }

    /// Calls `handler` once with `event`, records that call as a delivery
    /// to the id it is about to get, then adds it under that id; returns
    /// what it gave back and the handle that cancels it.
    pub fn call_then_register<T: ?Sized>(&mut self, handler: H, event: &T) -> (r: (<H as IEventHandler<T>>::Receipt, IUnRegister))
        where H: IEventHandler<T>,
        requires
            old(self).wf(),
            old(self).next_id() < u64::MAX,
        ensures
            final(self).wf(),
            final(self).ids() == old(self).ids().push(old(self).next_id()),
            final(self).next_id() == old(self).next_id() + 1,
            final(self).handler_map() == old(self).handler_map().insert(old(self).next_id(), handler),
            final(self).sent() == old(self).sent().push(seq![old(self).next_id()]),
            r.0 == handler.receipt(event),
            r.1.target() == Some(old(self).next_id()),
    {
        let receipt = handler.handle(event);
        self.sent = Ghost(self.sent@.push(seq![self.event.next_id()]));
        let handle = self.event.register(handler);
        (receipt, handle)
    }

    /// Removes the subscriber with id `id`; the others keep their order.
    pub fn unregister_by_id(&mut self, id: u64)
        requires
            old(self).wf(),
        ensures
            final(self).wf(),
            final(self).ids() == old(self).ids().filter(not_id(id)),
            final(self).next_id() == old(self).next_id(),
            final(self).handler_map() == old(self).handler_map(),
            final(self).sent() == old(self).sent(),
    {
        self.event.unregister_by_id(id);
    }

    /// Calls every subscriber, in subscription order, with `event`, records
    /// that it called them, and returns what each gave back, in call order.
    pub fn send<T: ?Sized>(&mut self, event: &T) -> (r: Vec<<H as IEventHandler<T>>::Receipt>)
        where H: IEventHandler<T>,
        requires
            old(self).wf(),
        ensures
            final(self).wf(),
            final(self).ids() == old(self).ids(),
            final(self).next_id() == old(self).next_id(),
            final(self).handler_map() == old(self).handler_map(),
            final(self).sent() == old(self).sent().push(old(self).ids()),
            r@.len() == old(self).ids().len(),
            forall|i: int| 0 <= i < r@.len() ==> #[trigger] r@[i] == old(self).handler_of(old(self).ids()[i]).receipt(event),
    {
        let r = self.event.send(event);
        self.sent = Ghost(self.sent@.push(self.event.ids()));
        r
    }
}

impl<H> Default for EasyEvent<H> {
    /// A channel without subscribers.
    fn default() -> (r: EasyEvent<H>)
        ensures
            r.wf(),
            r.ids() == Seq::<u64>::empty(),
            r.next_id() == 0,
    {
        EasyEvent::new()
    }
}

impl<H> ISubscriptionOwner for EasyEvent<H> {
    open spec fn live_ids(&self) -> Set<u64> {
        self.ids().to_set()
    }

    open spec fn owner_wf(&self) -> bool {
        self.wf()
    }

    open spec fn same_apart_from_subscriptions(&self, other: &Self) -> bool {
        &&& self.next_id() == other.next_id()
        &&& self.handler_map() == other.handler_map()
        &&& self.ids() == other.ids().filter(|x: u64| self.live_ids().contains(x))
    }

    proof fn lemma_same_apart_from_subscriptions(a: &Self, b: &Self, c: &Self) {
        lemma_filter_all(a.ids(), |x: u64| a.live_ids().contains(x));
        if a.same_apart_from_subscriptions(b) && b.same_apart_from_subscriptions(c) {
            let ka = |x: u64| a.live_ids().contains(x);
            let kb = |x: u64| b.live_ids().contains(x);
            assert forall|i: int| 0 <= i < c.ids().len() implies ka(#[trigger] c.ids()[i]) ==> kb(c.ids()[i]) by {
                let x = c.ids()[i];
                if a.ids().contains(x) {
                    b.ids().lemma_filter_contains_rev(ka, x);
                }
            }
            lemma_filter_stronger(c.ids(), kb, ka);
        }
    }

    fn unregister_id(&mut self, id: u64) {
        self.unregister_by_id(id);
        proof {
            lemma_filter_out_to_set(old(self).ids(), id);
            let o = old(self).ids();
            let k = |x: u64| self.live_ids().contains(x);
            assert forall|i: int| 0 <= i < o.len() implies (o[i] != id) == k(#[trigger] o[i]) by {
                assert(o.to_set().contains(o[i]));
            }
            lemma_filter_congruent(o, not_id(id), k);
        }
    }
}

/// Filtering out one value removes exactly that value from the elements.
pub proof fn lemma_filter_out_to_set(s: Seq<u64>, id: u64)
    ensures
        s.filter(not_id(id)).to_set() == s.to_set().remove(id),
{
    let p = not_id(id);
    let f = s.filter(p);
    assert forall|x: u64| f.to_set().contains(x) <==> s.to_set().remove(id).contains(x) by {
        if f.contains(x) {
            s.lemma_filter_contains_rev(p, x);
        }
        if s.contains(x) && x != id {
            let i = choose|i: int| 0 <= i < s.len() && s[i] == x;
            s.lemma_filter_contains(p, i);
        }
    }
    assert(f.to_set() =~= s.to_set().remove(id));
}

/// Keeps the ids other than `id`.
pub open spec fn not_id(id: u64) -> spec_fn(u64) -> bool {
    |x: u64| x != id
}

/// Keeps the ids in `live`.
pub open spec fn in_set(live: Set<u64>) -> spec_fn(u64) -> bool {
    |x: u64| live.contains(x)
}

/// A sequence whose elements are all in `live` is kept whole by
/// restricting it to `live`.
pub proof fn lemma_restrict_refl(a: Seq<u64>, live: Set<u64>)
    requires
        forall|i: int| 0 <= i < a.len() ==> live.contains(#[trigger] a[i]),
    ensures
        a == a.filter(in_set(live)),
{
    lemma_filter_all(a, in_set(live));
}

/// What a restriction keeps comes from the sequence restricted.
pub proof fn lemma_restrict_subset(a: Seq<u64>, b: Seq<u64>, live: Set<u64>)
    requires
        a == b.filter(in_set(live)),
    ensures
        a.to_set().subset_of(b.to_set()),
{
    assert forall|x: u64| a.to_set().contains(x) implies b.to_set().contains(x) by {
        b.lemma_filter_contains_rev(in_set(live), x);
    }
}

/// Restricting twice, to a smaller set the second time, is restricting to
/// the smaller set.
pub proof fn lemma_restrict_trans(a: Seq<u64>, b: Seq<u64>, c: Seq<u64>, la: Set<u64>, lb: Set<u64>)
    requires
        a == b.filter(in_set(la)),
        b == c.filter(in_set(lb)),
        la.subset_of(lb),
    ensures
        a == c.filter(in_set(la)),
{
    assert forall|i: int| 0 <= i < c.len() implies in_set(la)(#[trigger] c[i]) ==> in_set(lb)(c[i]) by {
        if la.contains(c[i]) {
            assert(lb.contains(c[i]));
        }
    }
    lemma_filter_stronger(c, in_set(lb), in_set(la));
}

/// Removing `id` from a sequence whose elements are all in `live` is
/// restricting it to `live` without `id`.
pub proof fn lemma_restrict_remove(a: Seq<u64>, live: Set<u64>, id: u64)
    requires
        forall|i: int| 0 <= i < a.len() ==> live.contains(#[trigger] a[i]),
    ensures
        a.filter(not_id(id)) == a.filter(in_set(live.remove(id))),
{
    assert forall|i: int| 0 <= i < a.len() implies not_id(id)(#[trigger] a[i]) == in_set(live.remove(id))(a[i]) by {
        assert(live.contains(a[i]));
    }
    lemma_filter_congruent(a, not_id(id), in_set(live.remove(id)));
}

/// Keeps the subscriptions whose id is in `live`.
pub open spec fn kept_by(live: Set<u64>) -> spec_fn((TypeId, u64)) -> bool {
    |e: (TypeId, u64)| live.contains(e.1)
}

/// Keeps the subscriptions whose id is not `id`.
pub open spec fn other_id(id: u64) -> spec_fn((TypeId, u64)) -> bool {
    |e: (TypeId, u64)| e.1 != id
}

/// Keeps the subscriptions on channel `key`.
pub open spec fn on_channel(key: TypeId) -> spec_fn((TypeId, u64)) -> bool {
    |e: (TypeId, u64)| e.0 == key
}

/// Keeps the subscriptions that are not on channel `key`.
pub open spec fn other_channel(key: TypeId) -> spec_fn((TypeId, u64)) -> bool {
    |e: (TypeId, u64)| e.0 != key
}

/// Which subscriptions a removal on the bus drops.
#[derive(Clone, Copy)]
enum Removal {
    /// The subscription with this id.
    Id(u64),
    /// Every subscription on this channel.
    Channel(TypeId),
}

impl Removal {
    spec fn drops(self, entry: (TypeId, u64)) -> bool {
        match self {
            Removal::Id(id) => entry.1 == id,
            Removal::Channel(key) => entry.0 == key,
        }
    }

    fn drops_exec(&self, key: &TypeId, id: u64) -> (r: bool)
        ensures
            r == self.drops((*key, id)),
    {
        match self {
            Removal::Id(target) => *target == id,
            Removal::Channel(channel) => type_id_eq(channel, key),
        }
    }
}

/// The event bus: one channel per event type, keyed by the type's
/// [`TypeId`]. `H` is the type of the subscribers.
pub struct TypeEventSystem<H> {
    subscriptions: Vec<(TypeId, u64, H)>,
    next_id: u64,
    registered: Ghost<Map<u64, H>>,
}

impl<H> TypeEventSystem<H> {
    /// Every subscription as (channel, id), in subscription order.
    pub closed spec fn entries(&self) -> Seq<(TypeId, u64)> {
        self.subscriptions@.map_values(|s: (TypeId, u64, H)| (s.0, s.1))
    }

    /// The id the next subscription will get.
    pub closed spec fn next_id(&self) -> u64 {
        self.next_id
    }

    /// The ids of the subscriptions on channel `key`, in the order they are
    /// called when an event is sent there.
    pub open spec fn listeners(&self, key: TypeId) -> Seq<u64> {
        self.entries().filter(on_channel(key)).map_values(|e: (TypeId, u64)| e.1)
    }

    /// Every subscriber ever added, by the id it was given.
    pub closed spec fn handler_map(&self) -> Map<u64, H> {
        self.registered@
    }

    /// The subscriber added under `id`.
    pub open spec fn handler_of(&self, id: u64) -> H {
        self.handler_map()[id]
    }

    /// Ids are unique across channels, in subscription order, and below
    /// `next_id`; each subscriber is the one added under its id.
    pub closed spec fn wf(&self) -> bool {
        &&& ids_fresh_below(self.entries().map_values(|e: (TypeId, u64)| e.1), self.next_id)
        &&& forall|k: int| 0 <= k < self.subscriptions@.len() ==> {
            &&& self.registered@.contains_key(#[trigger] self.subscriptions@[k].1)
            &&& self.registered@[self.subscriptions@[k].1] == self.subscriptions@[k].2
        }
    }

    /// A bus without subscriptions.
    pub fn new() -> (r: TypeEventSystem<H>)
        ensures
            r.wf(),
            r.entries() == Seq::<(TypeId, u64)>::empty(),
            r.next_id() == 0,
            r.handler_map() == Map::<u64, H>::empty(),
    {
        let r = TypeEventSystem { subscriptions: Vec::new(), next_id: 0, registered: Ghost(Map::empty()) };
        proof {
            assert(r.entries() =~= Seq::<(TypeId, u64)>::empty());
        }
        r
    }

    /// Subscribes `handler` to channel `key` under a fresh id.
    pub fn register(&mut self, key: TypeId, handler: H) -> (r: IUnRegister)
        requires
            old(self).wf(),
            old(self).next_id() < u64::MAX,
        ensures
            final(self).wf(),
            final(self).entries() == old(self).entries().push((key, old(self).next_id())),
            final(self).next_id() == old(self).next_id() + 1,
            final(self).handler_map() == old(self).handler_map().insert(old(self).next_id(), handler),
            r.target() == Some(old(self).next_id()),
    {
        let id = self.next_id;
        let ghost h = handler;
        self.subscriptions.push((key, id, handler));
        self.next_id = id + 1;
        self.registered = Ghost(self.registered@.insert(id, h));
        proof {
            assert forall|k: int| 0 <= k < self.subscriptions@.len() implies {
                &&& self.registered@.contains_key(#[trigger] self.subscriptions@[k].1)
                &&& self.registered@[self.subscriptions@[k].1] == self.subscriptions@[k].2
            } by {
                if k < old(self).subscriptions@.len() {
                    assert(self.subscriptions@[k] == old(self).subscriptions@[k]);
                    assert(old(self).entries().map_values(|e: (TypeId, u64)| e.1)[k] < id);
                }
            }
            assert forall|k: int| 0 <= k < self.subscriptions@.len() implies
                #[trigger] self.entries()[k] == old(self).entries().push((key, id))[k] by {
                if k < old(self).subscriptions@.len() {
                    assert(self.subscriptions@[k] == old(self).subscriptions@[k]);
                }
            }
            assert(self.entries() =~= old(self).entries().push((key, id)));
            let a = self.entries().map_values(|e: (TypeId, u64)| e.1);
            let b = old(self).entries().map_values(|e: (TypeId, u64)| e.1);
            assert(a =~= b.push(id));
        }
        IUnRegister::new(id)
    }

    /// Whether a fresh id is left for another subscription.
    pub fn has_fresh_id(&self) -> (r: bool)
        ensures
            r == (self.next_id() < u64::MAX),
    {
        self.next_id < u64::MAX
    }

    /// Whether channel `key` has at least one subscriber.
    pub fn has_listener(&self, key: TypeId) -> (r: bool)
        ensures
            r == exists|i: int| 0 <= i < self.entries().len() && #[trigger] self.entries()[i].0 == key,
    {
        let n = self.subscriptions.len();
        let mut i: usize = 0;
        while i < n
            invariant
                n == self.subscriptions.len(),
                i <= n,
                forall|j: int| 0 <= j < i ==> #[trigger] self.entries()[j].0 != key,
            decreases n - i,
        {
            if type_id_eq(&self.subscriptions[i].0, &key) {
                assert(self.entries()[i as int].0 == key);
                return true;
            }
            i += 1;
        }
        false
    }

    /// Drops the subscriptions that `removal` selects, keeping the order of
    /// the others.
    fn retain_except(&mut self, removal: Removal)
        requires
            old(self).wf(),
        ensures
            final(self).wf(),
            final(self).entries() == old(self).entries().filter(|e: (TypeId, u64)| !removal.drops(e)),
            final(self).next_id() == old(self).next_id(),
            final(self).handler_map() == old(self).handler_map(),
    {
        let ghost pred = |e: (TypeId, u64)| !removal.drops(e);
        let mut kept: Vec<(TypeId, u64, H)> = Vec::new();
        let mut rest: Vec<(TypeId, u64, H)> = Vec::new();
        std::mem::swap(&mut rest, &mut self.subscriptions);
        let ghost orig = old(self).entries();
        let ghost n = orig.len();
        while rest.len() > 0
            invariant
                pred == (|e: (TypeId, u64)| !removal.drops(e)),
                orig == old(self).entries(),
                n == orig.len(),
                rest@.len() <= n,
                forall|k: int| 0 <= k < rest@.len() ==>
                    (#[trigger] rest@[k]).0 == orig[n - rest@.len() + k].0
                    && rest@[k].1 == orig[n - rest@.len() + k].1,
                kept@.map_values(|s: (TypeId, u64, H)| (s.0, s.1)) == orig.take(n - rest@.len()).filter(pred),
                ids_fresh_below(orig.map_values(|e: (TypeId, u64)| e.1), self.next_id),
                ids_fresh_below(kept@.map_values(|s: (TypeId, u64, H)| s.1), self.next_id),
                forall|k: int, j: int| 0 <= k < kept@.len() && n - rest@.len() <= j < n
                    ==> #[trigger] kept@[k].1 < #[trigger] orig[j].1,
                self.next_id == old(self).next_id,
                self.registered@ == old(self).registered@,
                forall|k: int| 0 <= k < rest@.len() ==> {
                    &&& self.registered@.contains_key(#[trigger] rest@[k].1)
                    &&& self.registered@[rest@[k].1] == rest@[k].2
                },
                forall|k: int| 0 <= k < kept@.len() ==> {
                    &&& self.registered@.contains_key(#[trigger] kept@[k].1)
                    &&& self.registered@[kept@[k].1] == kept@[k].2
                },
            decreases rest@.len(),
        {
            let ghost before = rest@.len();
            let ghost prev = rest@;
            let h = rest.remove(0);
            let ghost i = n - before;
            proof {
                assert(h == prev[0]);
                assert forall|k: int| 0 <= k < rest@.len() implies {
                    &&& self.registered@.contains_key(#[trigger] rest@[k].1)
                    &&& self.registered@[rest@[k].1] == rest@[k].2
                } by {
                    assert(rest@[k] == prev[k + 1]);
                }
                assert((h.0, h.1) == orig[i]);
                lemma_take_succ(orig, i);
                lemma_filter_push(orig.take(i), orig[i], pred);
                assert forall|k: int| 0 <= k < rest@.len() implies
                    (#[trigger] rest@[k]).0 == orig[n - rest@.len() + k].0
                    && rest@[k].1 == orig[n - rest@.len() + k].1 by {
                    assert(rest@[k] == prev[k + 1]);
                }
                assert(orig.map_values(|e: (TypeId, u64)| e.1)[i] == orig[i].1);
            }
            if !removal.drops_exec(&h.0, h.1) {
                let ghost kept_before = kept@;
                kept.push(h);
                proof {
                    assert(kept@.map_values(|s: (TypeId, u64, H)| (s.0, s.1))
                        =~= kept_before.map_values(|s: (TypeId, u64, H)| (s.0, s.1)).push(orig[i]));
                    let km = kept@.map_values(|s: (TypeId, u64, H)| s.1);
                    let kbm = kept_before.map_values(|s: (TypeId, u64, H)| s.1);
                    assert(km =~= kbm.push(h.1));
                    assert forall|k: int, j: int| 0 <= k < kept@.len() && n - rest@.len() <= j < n
                        implies #[trigger] kept@[k].1 < #[trigger] orig[j].1 by {
                        if k < kept@.len() - 1 {
                            assert(kept@[k] == kept_before[k]);
                        }
                        assert(orig.map_values(|e: (TypeId, u64)| e.1)[j] == orig[j].1);
                    }
                    assert forall|k: int| 0 <= k < kept@.len() implies {
                        &&& self.registered@.contains_key(#[trigger] kept@[k].1)
                        &&& self.registered@[kept@[k].1] == kept@[k].2
                    } by {
                        if k < kept_before.len() {
                            assert(kept@[k] == kept_before[k]);
                        }
                    }
                }
            } else {
                proof {
                    assert(!pred(orig[i]));
                }
            }
        }
        self.subscriptions = kept;
        proof {
            assert(orig.take(n as int) =~= orig);
            assert(self.entries() =~= kept@.map_values(|s: (TypeId, u64, H)| (s.0, s.1)));
            assert(self.entries().map_values(|e: (TypeId, u64)| e.1)
                =~= kept@.map_values(|s: (TypeId, u64, H)| s.1));
        }
    }

    /// Removes every subscriber of channel `key`.
    pub fn unregister_all(&mut self, key: TypeId)
        requires
            old(self).wf(),
        ensures
            final(self).wf(),
            final(self).entries() == old(self).entries().filter(other_channel(key)),
            final(self).next_id() == old(self).next_id(),
            final(self).handler_map() == old(self).handler_map(),
    {
        self.retain_except(Removal::Channel(key));
        proof {
            assert((|e: (TypeId, u64)| !Removal::Channel(key).drops(e)) =~= other_channel(key));
        }
    }

    /// Removes the subscription with id `id`, whichever channel it is on.
    pub fn unregister_by_id(&mut self, id: u64)
        requires
            old(self).wf(),
        ensures
            final(self).wf(),
            final(self).entries() == old(self).entries().filter(other_id(id)),
            final(self).next_id() == old(self).next_id(),
            final(self).handler_map() == old(self).handler_map(),
    {
        self.retain_except(Removal::Id(id));
        proof {
            assert((|e: (TypeId, u64)| !Removal::Id(id).drops(e)) =~= other_id(id));
        }
    }

    /// Removes every subscription on every channel. Ids are never reused.
    pub fn clear(&mut self)
        requires
            old(self).wf(),
        ensures
            final(self).wf(),
            final(self).entries() == Seq::<(TypeId, u64)>::empty(),
            final(self).next_id() == old(self).next_id(),
            final(self).handler_map() == old(self).handler_map(),
    {
        self.subscriptions.clear();
        proof {
            assert(self.entries() =~= Seq::<(TypeId, u64)>::empty());
            assert(self.entries().map_values(|e: (TypeId, u64)| e.1) =~= Seq::<u64>::empty());
        }
    }

    /// Calls the subscribers of channel `key`, in subscription order, with
    /// `event`, and returns what each gave back, in call order. Without
    /// subscribers on that channel the event reaches nobody.
    pub fn send<E: ?Sized>(&self, key: TypeId, event: &E) -> (r: Vec<<H as IEventHandler<E>>::Receipt>)
        where H: IEventHandler<E>,
        requires
            self.wf(),
        ensures
            r@.len() == self.listeners(key).len(),
            forall|i: int| 0 <= i < r@.len()
                ==> #[trigger] r@[i] == self.handler_of(self.listeners(key)[i]).receipt(event),
    {
        let mut receipts: Vec<<H as IEventHandler<E>>::Receipt> = Vec::new();
        let ghost mut log: Seq<u64> = Seq::empty();
        let n = self.subscriptions.len();
        let mut i: usize = 0;
        while i < n
            invariant
                self.wf(),
                n == self.subscriptions.len(),
                i <= n,
                log == self.entries().take(i as int).filter(on_channel(key)).map_values(|e: (TypeId, u64)| e.1),
                receipts@.len() == log.len(),
                forall|k: int| 0 <= k < log.len() ==> #[trigger] receipts@[k] == self.handler_of(log[k]).receipt(event),
            decreases n - i,
        {
            let ghost e = self.entries()[i as int];
            proof {
                lemma_take_succ(self.entries(), i as int);
                lemma_filter_push(self.entries().take(i as int), e, on_channel(key));
            }
            if type_id_eq(&self.subscriptions[i].0, &key) {
                let receipt = self.subscriptions[i].2.handle(event);
                proof {
                    let before = self.entries().take(i as int).filter(on_channel(key));
                    assert(before.push(e).map_values(|e: (TypeId, u64)| e.1)
                        =~= before.map_values(|e: (TypeId, u64)| e.1).push(e.1));
                    assert(self.registered@[self.subscriptions@[i as int].1] == self.subscriptions@[i as int].2);
                    log = log.push(self.subscriptions@[i as int].1);
                }
                receipts.push(receipt);
            }
            i += 1;
        }
        proof {
            assert(self.entries().take(n as int) =~= self.entries());
        }
        receipts
    }

    /// Sends `E::default()` on channel `key`.
    pub fn send_default<E: Default>(&self, key: TypeId) -> (r: Vec<<H as IEventHandler<E>>::Receipt>)
        where H: IEventHandler<E>,
        requires
            self.wf(),
        ensures
            r@.len() == self.listeners(key).len(),
            exists|e: E| call_ensures(E::default, (), e) && forall|i: int| 0 <= i < r@.len()
                ==> #[trigger] r@[i] == self.handler_of(self.listeners(key)[i]).receipt(&e),
    {
        let event = E::default();
        let r = self.send(key, &event);
        assert(call_ensures(E::default, (), event));
        r
    }
}

impl<H> Default for TypeEventSystem<H> {
    /// A bus without subscriptions.
    fn default() -> (r: TypeEventSystem<H>)
        ensures
            r.wf(),
            r.entries() == Seq::<(TypeId, u64)>::empty(),
            r.next_id() == 0,
    {
        TypeEventSystem::new()
    }
}

impl<H> ISubscriptionOwner for TypeEventSystem<H> {
    open spec fn live_ids(&self) -> Set<u64> {
        self.entries().map_values(|e: (TypeId, u64)| e.1).to_set()
    }

    open spec fn owner_wf(&self) -> bool {
        self.wf()
    }

    open spec fn same_apart_from_subscriptions(&self, other: &Self) -> bool {
        &&& self.next_id() == other.next_id()
        &&& self.handler_map() == other.handler_map()
        &&& self.entries() == other.entries().filter(kept_by(self.live_ids()))
    }

    proof fn lemma_same_apart_from_subscriptions(a: &Self, b: &Self, c: &Self) {
        let am = a.entries().map_values(|e: (TypeId, u64)| e.1);
        assert forall|i: int| 0 <= i < a.entries().len() implies kept_by(a.live_ids())(#[trigger] a.entries()[i]) by {
            assert(am[i] == a.entries()[i].1);
            assert(am.contains(am[i]));
        }
        lemma_filter_all(a.entries(), kept_by(a.live_ids()));
        if a.same_apart_from_subscriptions(b) && b.same_apart_from_subscriptions(c) {
            let ka = kept_by(a.live_ids());
            let kb = kept_by(b.live_ids());
            let bm = b.entries().map_values(|e: (TypeId, u64)| e.1);
            assert forall|i: int| 0 <= i < c.entries().len() implies ka(#[trigger] c.entries()[i]) ==> kb(c.entries()[i]) by {
                let x = c.entries()[i].1;
                if am.contains(x) {
                    let k = choose|k: int| 0 <= k < am.len() && am[k] == x;
                    assert(a.entries().contains(a.entries()[k]));
                    b.entries().lemma_filter_contains_rev(ka, a.entries()[k]);
                    let j = choose|j: int| 0 <= j < b.entries().len() && b.entries()[j] == a.entries()[k];
                    assert(bm[j] == x);
                    assert(bm.contains(x));
                }
            }
            lemma_filter_stronger(c.entries(), kb, ka);
        }
    }

    fn unregister_id(&mut self, id: u64) {
        self.unregister_by_id(id);
        proof {
            let o = old(self).entries();
            let p = other_id(id);
            let f = o.filter(p);
            let fm = f.map_values(|e: (TypeId, u64)| e.1);
            let om = o.map_values(|e: (TypeId, u64)| e.1);
            assert forall|x: u64| fm.to_set().contains(x) <==> om.to_set().remove(id).contains(x) by {
                if fm.contains(x) {
                    let k = choose|k: int| 0 <= k < fm.len() && fm[k] == x;
                    assert(f.contains(f[k]));
                    o.lemma_filter_contains_rev(p, f[k]);
                    let j = choose|j: int| 0 <= j < o.len() && o[j] == f[k];
                    assert(om[j] == x);
                    o.lemma_filter_pred(p, k);
                }
                if om.contains(x) && x != id {
                    let j = choose|j: int| 0 <= j < om.len() && om[j] == x;
                    o.lemma_filter_contains(p, j);
                    let k = choose|k: int| 0 <= k < f.len() && f[k] == o[j];
                    assert(fm[k] == x);
                }
            }
            assert(fm.to_set() =~= om.to_set().remove(id));
            assert(self.entries() == f);
            assert(self.live_ids() == fm.to_set());
            assert forall|i: int| 0 <= i < o.len() implies p(#[trigger] o[i]) == kept_by(self.live_ids())(o[i]) by {
                assert(om[i] == o[i].1);
                assert(om.contains(om[i]));
            }
            lemma_filter_congruent(o, p, kept_by(self.live_ids()));
        }
    }
}

/// Every live subscription on a bus has an id below the next fresh id, so
/// a new subscription never gets the id of a handle handed out before it,
/// and cancelling an old handle never cancels a newer subscription.
pub proof fn law_fresh_ids_are_unused<H>(bus: TypeEventSystem<H>)
    requires
        bus.wf(),
    ensures
        forall|id: u64| #[trigger] bus.live_ids().contains(id) ==> id < bus.next_id(),
        !bus.live_ids().contains(bus.next_id()),
{
    let ids = bus.entries().map_values(|e: (TypeId, u64)| e.1);
    assert forall|id: u64| #[trigger] bus.live_ids().contains(id) implies id < bus.next_id() by {
        let i = choose|i: int| 0 <= i < ids.len() && ids[i] == id;
    }
}

/// Events are not buffered: an event sent on a channel without subscribers
/// reaches nobody, and an event sent now never reaches the subscription
/// that is made next.
pub proof fn law_unheard_events_are_dropped<H>(bus: TypeEventSystem<H>, key: TypeId)
    requires
        bus.wf(),
    ensures
        (forall|i: int| 0 <= i < bus.entries().len() ==> #[trigger] bus.entries()[i].0 != key)
            ==> bus.listeners(key) == Seq::<u64>::empty(),
        !bus.listeners(key).contains(bus.next_id()),
{
    let entries = bus.entries();
    let f = entries.filter(on_channel(key));
    if forall|i: int| 0 <= i < entries.len() ==> #[trigger] entries[i].0 != key {
        if f.len() > 0 {
            entries.lemma_filter_contains_rev(on_channel(key), f[0]);
            assert(f.contains(f[0]));
        }
        assert(bus.listeners(key) =~= Seq::<u64>::empty());
    }
    law_fresh_ids_are_unused(bus);
    let l = bus.listeners(key);
    if l.contains(bus.next_id()) {
        let i = choose|i: int| 0 <= i < l.len() && l[i] == bus.next_id();
        assert(f.contains(f[i]));
        entries.lemma_filter_contains_rev(on_channel(key), f[i]);
        let j = choose|j: int| 0 <= j < entries.len() && entries[j] == f[i];
        let ids = entries.map_values(|e: (TypeId, u64)| e.1);
        assert(ids[j] == bus.next_id());
        assert(ids.contains(bus.next_id()));
        assert(bus.live_ids().contains(bus.next_id()));
    }
}

} // verus!
