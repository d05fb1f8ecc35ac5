//! Observable containers: a single value, a list and a dictionary.
//!
//! Each container owns its data and the channels of its change
//! notifications. A write changes the data first and then notifies the
//! subscribers of the matching channel with the value written.
use std::collections::HashMap;
use std::hash::Hash;
use vstd::prelude::*;
use vstd::std_specs::hash::obeys_key_model;

use crate::event::{
    IEventHandler, RecordedEvent, in_set, lemma_filter_out_to_set, lemma_restrict_refl, lemma_restrict_remove,
    lemma_restrict_subset, lemma_restrict_trans,
};
use crate::seq_facts::{lemma_filter_none, lemma_filter_push, lemma_map_push};
use crate::unregister::{IUnRegister, ISubscriptionOwner};

verus! {

broadcast use vstd::std_specs::hash::group_hash_axioms;

// ---------------------------------------------------------------------------
// BindableProperty
// ---------------------------------------------------------------------------

/// An observable value.
pub struct BindableProperty<T, H: IEventHandler<T>> {
    value: T,
    on_changed: RecordedEvent<H>,
    receipts: Vec<<H as IEventHandler<T>>::Receipt>,
    notices: Ghost<Seq<(T, Seq<u64>)>>,
}

impl<T, H: IEventHandler<T>> BindableProperty<T, H> {
    /// What the subscribers gave back for the latest notification, in call
    /// order.
    pub closed spec fn last_receipts(&self) -> Seq<<H as IEventHandler<T>>::Receipt> {
        self.receipts@
    }

    /// Every subscriber ever added, by its id.
    pub closed spec fn handler_map(&self) -> Map<u64, H> {
        self.on_changed.handler_map()
    }

    /// What the current subscribers give back, in subscription order, when
    /// notified with `value`.
    pub open spec fn receipts_for(&self, value: T) -> Seq<<H as IEventHandler<T>>::Receipt> {
        self.subscribers().map_values(|id: u64| self.handler_map()[id].receipt(&value))
    }

    /// The current value.
    pub closed spec fn value(&self) -> T {
        self.value
    }

    /// Ids of the subscribers to changes, in subscription order.
    pub closed spec fn subscribers(&self) -> Seq<u64> {
        self.on_changed.ids()
    }

    /// The id the next subscription will get.
    pub closed spec fn next_id(&self) -> u64 {
        self.on_changed.next_id()
    }

    /// Every notification sent so far, in order: the value sent and the ids
    /// of the subscribers called with it, in call order.
    pub closed spec fn notices(&self) -> Seq<(T, Seq<u64>)> {
        self.notices@
    }

    /// For every call round so far, in order, the ids of the subscribers
    /// it called: a notification of all subscribers, or the single call of
    /// a subscriber registered with the current value.
    pub closed spec fn calls(&self) -> Seq<Seq<u64>> {
        self.on_changed.sent()
    }

    /// The subscriber list is consistent, and the subscribers called are
    /// exactly those that the notices record.
    pub closed spec fn wf(&self) -> bool {
        &&& self.on_changed.wf()
        &&& self.on_changed.sent() == self.notices@.map_values(delivered_to::<T>())
    }

    /// Every call a property has made to a subscriber is one of its
    /// recorded notices: the calls so far reached exactly the subscribers
    /// that the notices record, in the same order, and no call was made
    /// without such a notice.
    pub proof fn law_property_calls_are_the_notices(&self)
        requires
            self.wf(),
        ensures
            self.calls() == self.notices().map_values(delivered_to::<T>()),
    {
    }

    /// Subscriber ids are distinct, so there are as many distinct ids as
    /// subscribers.
    pub proof fn lemma_subscribers_distinct(&self)
        requires
            self.wf(),
        ensures
            self.subscribers().no_duplicates(),
            self.subscribers().to_set().len() == self.subscribers().len(),
    {
        self.on_changed.lemma_ids_distinct();
    }

    /// A property holding `value`, without subscribers.
    pub fn new(value: T) -> (r: BindableProperty<T, H>)
        ensures
            r.wf(),
            r.value() == value,
            r.subscribers() == Seq::<u64>::empty(),
            r.next_id() == 0,
            r.notices() == Seq::<(T, Seq<u64>)>::empty(),
            r.last_receipts() == Seq::<<H as IEventHandler<T>>::Receipt>::empty(),
            r.handler_map() == Map::<u64, H>::empty(),
    {
        proof {
            assert(Seq::<(T, Seq<u64>)>::empty().map_values(delivered_to::<T>()) =~= Seq::<Seq<u64>>::empty());
        }
        BindableProperty { value, on_changed: RecordedEvent::new(), receipts: Vec::new(), notices: Ghost(Seq::empty()) }
    }

    /// A copy of the current value.
    pub fn get(&self) -> (r: T)
        where T: Clone,
        ensures
            cloned::<T>(self.value(), r),
    {
        self.value.clone()
    }

    /// Calls `f` on the current value without copying it.
    pub fn with_value<R, F: FnOnce(&T) -> R>(&self, f: F) -> (r: R)
        requires
            call_requires(f, (&self.value(),)),
        ensures
            call_ensures(f, (&self.value(),), r),
    {
        f(&self.value)
    }

    /// Writes `value` and notifies the subscribers with it; keeps what they
    /// gave back.
    pub fn set(&mut self, value: T)
        requires
            old(self).wf(),
        ensures
            final(self).wf(),
            final(self).value() == value,
            final(self).subscribers() == old(self).subscribers(),
            final(self).next_id() == old(self).next_id(),
            final(self).handler_map() == old(self).handler_map(),
            final(self).last_receipts() == old(self).receipts_for(value),
            final(self).notices() == old(self).notices().push((value, old(self).subscribers())),
            final(self).calls() == old(self).calls().push(old(self).subscribers()),
    {
        self.value = value;
        self.receipts = self.on_changed.send(&self.value);
        proof {
            assert(self.receipts@ =~= old(self).receipts_for(value));
        }
        let ghost delivered = self.on_changed.ids();
        proof {
            lemma_map_push(self.notices@, (self.value, delivered), delivered_to::<T>());
        }
        self.notices = Ghost(self.notices@.push((self.value, delivered)));
    }

    /// Writes `value` without notifying anyone.
    pub fn set_value_without_event(&mut self, value: T)
        requires
            old(self).wf(),
        ensures
            final(self).wf(),
            final(self).value() == value,
            final(self).subscribers() == old(self).subscribers(),
            final(self).next_id() == old(self).next_id(),
            final(self).handler_map() == old(self).handler_map(),
            final(self).last_receipts() == old(self).last_receipts(),
            final(self).notices() == old(self).notices(),
            final(self).calls() == old(self).calls(),
    {
        self.value = value;
    }

    /// Replaces the value with `f` applied to it and notifies the
    /// subscribers with the new value.
    pub fn modify<F: FnOnce(&T) -> T>(&mut self, f: F)
        requires
            old(self).wf(),
            call_requires(f, (&old(self).value(),)),
        ensures
            final(self).wf(),
            call_ensures(f, (&old(self).value(),), final(self).value()),
            final(self).subscribers() == old(self).subscribers(),
            final(self).next_id() == old(self).next_id(),
            final(self).handler_map() == old(self).handler_map(),
            final(self).last_receipts() == old(self).receipts_for(final(self).value()),
            final(self).notices() == old(self).notices().push((final(self).value(), old(self).subscribers())),
    {
        let next = f(&self.value);
        self.value = next;
        self.receipts = self.on_changed.send(&self.value);
        proof {
            assert(self.receipts@ =~= old(self).receipts_for(self.value));
        }
        let ghost delivered = self.on_changed.ids();
        proof {
            lemma_map_push(self.notices@, (self.value, delivered), delivered_to::<T>());
        }
        self.notices = Ghost(self.notices@.push((self.value, delivered)));
    }

    /// Subscribes `handler` to changes of the value.
    pub fn register(&mut self, handler: H) -> (r: IUnRegister)
        requires
            old(self).wf(),
            old(self).next_id() < u64::MAX,
        ensures
            final(self).wf(),
            final(self).value() == old(self).value(),
            final(self).subscribers() == old(self).subscribers().push(old(self).next_id()),
            final(self).next_id() == old(self).next_id() + 1,
            final(self).handler_map() == old(self).handler_map().insert(old(self).next_id(), handler),
            final(self).last_receipts() == old(self).last_receipts(),
            final(self).notices() == old(self).notices(),
            r.target() == Some(old(self).next_id()),
    {
        self.on_changed.register(handler)
    }

    /// Calls `handler` once with the current value, then subscribes it to
    /// changes.
    pub fn register_with_init_value(&mut self, handler: H) -> (r: IUnRegister)
        requires
            old(self).wf(),
            old(self).next_id() < u64::MAX,
        ensures
            final(self).wf(),
            final(self).value() == old(self).value(),
            final(self).subscribers() == old(self).subscribers().push(old(self).next_id()),
            final(self).next_id() == old(self).next_id() + 1,
            final(self).handler_map() == old(self).handler_map().insert(old(self).next_id(), handler),
            final(self).last_receipts() == seq![handler.receipt(&old(self).value())],
            final(self).notices() == old(self).notices().push((old(self).value(), seq![old(self).next_id()])),
            r.target() == Some(old(self).next_id()),
    {
        let ghost h = handler;
        let ghost id = self.on_changed.next_id();
        let (receipt, handle) = self.on_changed.call_then_register(handler, &self.value);
        let mut receipts: Vec<<H as IEventHandler<T>>::Receipt> = Vec::new();
        receipts.push(receipt);
        self.receipts = receipts;
        proof {
            assert(self.receipts@ =~= seq![h.receipt(&old(self).value())]);
            lemma_map_push(self.notices@, (self.value, seq![id]), delivered_to::<T>());
        }
        self.notices = Ghost(self.notices@.push((self.value, seq![id])));
        handle
    }

    /// Number of subscribers.
    pub fn handler_count(&self) -> (r: usize)
        ensures
            r == self.subscribers().len(),
    {
        self.on_changed.handler_count()
    }
}

impl<T: Default, H: IEventHandler<T>> Default for BindableProperty<T, H> {
    /// A property holding `T`'s default value, without subscribers.
    fn default() -> (r: BindableProperty<T, H>)
        ensures
            r.wf(),
            call_ensures(T::default, (), r.value()),
            r.subscribers() == Seq::<u64>::empty(),
            r.next_id() == 0,
            r.notices() == Seq::<(T, Seq<u64>)>::empty(),
            r.last_receipts() == Seq::<<H as IEventHandler<T>>::Receipt>::empty(),
            r.handler_map() == Map::<u64, H>::empty(),
    {
        BindableProperty::new(T::default())
    }
}

impl<T, H: IEventHandler<T>> ISubscriptionOwner for BindableProperty<T, H> {
    open spec fn live_ids(&self) -> Set<u64> {
        self.subscribers().to_set()
    }

    open spec fn owner_wf(&self) -> bool {
        self.wf()
    }

    open spec fn same_apart_from_subscriptions(&self, other: &Self) -> bool {
        &&& self.value() == other.value()
        &&& self.notices() == other.notices()
        &&& self.next_id() == other.next_id()
        &&& self.handler_map() == other.handler_map()
        &&& self.last_receipts() == other.last_receipts()
        &&& self.subscribers() == other.subscribers().filter(in_set(self.live_ids()))
    }

    proof fn lemma_same_apart_from_subscriptions(a: &Self, b: &Self, c: &Self) {
        assert forall|i: int| 0 <= i < a.subscribers().len() implies a.live_ids().contains(#[trigger] a.subscribers()[i]) by {
            assert(a.subscribers().contains(a.subscribers()[i]));
        }
        lemma_restrict_refl(a.subscribers(), a.live_ids());
        if a.same_apart_from_subscriptions(b) && b.same_apart_from_subscriptions(c) {
            lemma_restrict_subset(a.subscribers(), b.subscribers(), a.live_ids());
            lemma_restrict_trans(a.subscribers(), b.subscribers(), c.subscribers(), a.live_ids(), b.live_ids());
        }
    }

    fn unregister_id(&mut self, id: u64) {
        self.on_changed.unregister_by_id(id);
        proof {
            lemma_filter_out_to_set(old(self).subscribers(), id);
            let o = old(self).subscribers();
            assert forall|i: int| 0 <= i < o.len() implies old(self).live_ids().contains(#[trigger] o[i]) by {
                assert(o.contains(o[i]));
            }
            lemma_restrict_remove(o, old(self).live_ids(), id);
        }
    }
}

// ---------------------------------------------------------------------------
// Deliveries
// ---------------------------------------------------------------------------

/// Whether a notice, taken with the subscribers it reached, is one that
/// `on` selects.
pub open spec fn selects<N>(on: spec_fn(N) -> bool) -> spec_fn((N, Seq<u64>)) -> bool {
    |x: (N, Seq<u64>)| on(x.0)
}

/// The ids of the subscribers a notice reached.
pub open spec fn delivered_to<N>() -> spec_fn((N, Seq<u64>)) -> Seq<u64> {
    |x: (N, Seq<u64>)| x.1
}

/// For each notice that `on` selects, in order, the ids of the subscribers
/// it reached.
pub open spec fn deliveries_of<N>(notices: Seq<(N, Seq<u64>)>, on: spec_fn(N) -> bool) -> Seq<Seq<u64>> {
    notices.filter(selects(on)).map_values(delivered_to::<N>())
}

/// Recording one more notice adds its subscribers to the deliveries of the
/// channels that select it, and to no other.
proof fn lemma_deliveries_push<N>(notices: Seq<(N, Seq<u64>)>, n: N, ids: Seq<u64>, on: spec_fn(N) -> bool)
    ensures
        deliveries_of(notices.push((n, ids)), on)
            == (if on(n) { deliveries_of(notices, on).push(ids) } else { deliveries_of(notices, on) }),
{
    lemma_filter_push(notices, (n, ids), selects(on));
    lemma_map_push(notices.filter(selects(on)), (n, ids), delivered_to::<N>());
}

/// Without notices there are no deliveries.
proof fn lemma_deliveries_empty<N>(on: spec_fn(N) -> bool)
    ensures
        deliveries_of(Seq::<(N, Seq<u64>)>::empty(), on) == Seq::<Seq<u64>>::empty(),
{
    lemma_filter_none(Seq::<(N, Seq<u64>)>::empty(), selects(on));
    assert(Seq::<(N, Seq<u64>)>::empty().map_values(delivered_to::<N>()) =~= Seq::<Seq<u64>>::empty());
}

// ---------------------------------------------------------------------------
// BindableList
// ---------------------------------------------------------------------------

/// An element was added to a list.
#[derive(Clone, Copy, Debug, PartialEq, Eq)]
pub struct ListAdd<T> {
    /// Where the element now stands.
    pub index: usize,
    /// The element added.
    pub value: T,
}

/// An element was removed from a list.
#[derive(Clone, Copy, Debug, PartialEq, Eq)]
pub struct ListRemove<T> {
    /// Where the element stood.
    pub index: usize,
    /// The element removed.
    pub value: T,
}

/// A list was emptied.
#[derive(Clone, Copy, Debug, PartialEq, Eq)]
pub struct ListClear;

/// The number of elements of a list changed.
#[derive(Clone, Copy, Debug, PartialEq, Eq)]
pub struct ListCountChanged {
    /// The number of elements after the change.
    pub count: usize,
}

/// A notification of a list.
pub enum ListNotice<T> {
    Add(ListAdd<T>),
    Remove(ListRemove<T>),
    Clear(ListClear),
    CountChanged(ListCountChanged),
}

/// The list notices of additions.
pub open spec fn is_list_add<T>() -> spec_fn(ListNotice<T>) -> bool {
    |n: ListNotice<T>| n is Add
}

/// The list notices of removals.
pub open spec fn is_list_remove<T>() -> spec_fn(ListNotice<T>) -> bool {
    |n: ListNotice<T>| n is Remove
}

/// The list notices of clearing.
pub open spec fn is_list_clear<T>() -> spec_fn(ListNotice<T>) -> bool {
    |n: ListNotice<T>| n is Clear
}

/// The list notices of count changes.
pub open spec fn is_list_count<T>() -> spec_fn(ListNotice<T>) -> bool {
    |n: ListNotice<T>| n is CountChanged
}

/// Recording a list notice adds its subscribers to the deliveries of its
/// own kind only.
proof fn lemma_list_notice_recorded<T>(notices: Seq<(ListNotice<T>, Seq<u64>)>, n: ListNotice<T>, ids: Seq<u64>)
    ensures
        deliveries_of(notices.push((n, ids)), is_list_add()) == (if n is Add {
            deliveries_of(notices, is_list_add()).push(ids)
        } else {
            deliveries_of(notices, is_list_add())
        }),
        deliveries_of(notices.push((n, ids)), is_list_remove()) == (if n is Remove {
            deliveries_of(notices, is_list_remove()).push(ids)
        } else {
            deliveries_of(notices, is_list_remove())
        }),
        deliveries_of(notices.push((n, ids)), is_list_clear()) == (if n is Clear {
            deliveries_of(notices, is_list_clear()).push(ids)
        } else {
            deliveries_of(notices, is_list_clear())
        }),
        deliveries_of(notices.push((n, ids)), is_list_count()) == (if n is CountChanged {
            deliveries_of(notices, is_list_count()).push(ids)
        } else {
            deliveries_of(notices, is_list_count())
        }),
{
    lemma_deliveries_push(notices, n, ids, is_list_add());
    lemma_deliveries_push(notices, n, ids, is_list_remove());
    lemma_deliveries_push(notices, n, ids, is_list_clear());
    lemma_deliveries_push(notices, n, ids, is_list_count());
}

/// An observable list.
pub struct BindableList<T, H>
    where H: IEventHandler<ListAdd<T>> + IEventHandler<ListRemove<T>> + IEventHandler<ListClear> + IEventHandler<ListCountChanged>,
{
    items: Vec<T>,
    on_add: RecordedEvent<H>,
    on_remove: RecordedEvent<H>,
    on_clear: RecordedEvent<H>,
    on_count_changed: RecordedEvent<H>,
    next_id: u64,
    add_receipts: Vec<<H as IEventHandler<ListAdd<T>>>::Receipt>,
    remove_receipts: Vec<<H as IEventHandler<ListRemove<T>>>::Receipt>,
    clear_receipts: Vec<<H as IEventHandler<ListClear>>::Receipt>,
    count_receipts: Vec<<H as IEventHandler<ListCountChanged>>::Receipt>,
    notices: Ghost<Seq<(ListNotice<T>, Seq<u64>)>>,
}

impl<T, H> BindableList<T, H>
    where H: IEventHandler<ListAdd<T>> + IEventHandler<ListRemove<T>> + IEventHandler<ListClear> + IEventHandler<ListCountChanged>,
{
    /// Every subscriber ever added to the add channel, by its id.
    pub closed spec fn add_handlers(&self) -> Map<u64, H> {
        self.on_add.handler_map()
    }

    /// What the add subscribers gave back for the latest add notification,
    /// in call order.
    pub closed spec fn last_add_receipts(&self) -> Seq<<H as IEventHandler<ListAdd<T>>>::Receipt> {
        self.add_receipts@
    }

    /// What the current add subscribers give back, in subscription order,
    /// when notified with `event`.
    pub open spec fn add_receipts_for(&self, event: ListAdd<T>) -> Seq<<H as IEventHandler<ListAdd<T>>>::Receipt> {
        self.add_subscribers().map_values(|id: u64| self.add_handlers()[id].receipt(&event))
    }

    /// Every subscriber ever added to the remove channel, by its id.
    pub closed spec fn remove_handlers(&self) -> Map<u64, H> {
        self.on_remove.handler_map()
    }

    /// What the remove subscribers gave back for the latest remove notification,
    /// in call order.
    pub closed spec fn last_remove_receipts(&self) -> Seq<<H as IEventHandler<ListRemove<T>>>::Receipt> {
        self.remove_receipts@
    }

    /// What the current remove subscribers give back, in subscription order,
    /// when notified with `event`.
    pub open spec fn remove_receipts_for(&self, event: ListRemove<T>) -> Seq<<H as IEventHandler<ListRemove<T>>>::Receipt> {
        self.remove_subscribers().map_values(|id: u64| self.remove_handlers()[id].receipt(&event))
    }

    /// Every subscriber ever added to the clear channel, by its id.
    pub closed spec fn clear_handlers(&self) -> Map<u64, H> {
        self.on_clear.handler_map()
    }

    /// What the clear subscribers gave back for the latest clear notification,
    /// in call order.
    pub closed spec fn last_clear_receipts(&self) -> Seq<<H as IEventHandler<ListClear>>::Receipt> {
        self.clear_receipts@
    }

    /// What the current clear subscribers give back, in subscription order,
    /// when notified with `event`.
    pub open spec fn clear_receipts_for(&self, event: ListClear) -> Seq<<H as IEventHandler<ListClear>>::Receipt> {
        self.clear_subscribers().map_values(|id: u64| self.clear_handlers()[id].receipt(&event))
    }

    /// Every subscriber ever added to the count channel, by its id.
    pub closed spec fn count_handlers(&self) -> Map<u64, H> {
        self.on_count_changed.handler_map()
    }

    /// What the count subscribers gave back for the latest count notification,
    /// in call order.
    pub closed spec fn last_count_receipts(&self) -> Seq<<H as IEventHandler<ListCountChanged>>::Receipt> {
        self.count_receipts@
    }

    /// What the current count subscribers give back, in subscription order,
    /// when notified with `event`.
    pub open spec fn count_receipts_for(&self, event: ListCountChanged) -> Seq<<H as IEventHandler<ListCountChanged>>::Receipt> {
        self.count_subscribers().map_values(|id: u64| self.count_handlers()[id].receipt(&event))
    }

    /// The receipts of the latest notifications are the same in `self` and
    /// `other`.
    pub open spec fn same_receipts(&self, other: &Self) -> bool {
        &&& self.last_add_receipts() == other.last_add_receipts()
        &&& self.last_remove_receipts() == other.last_remove_receipts()
        &&& self.last_clear_receipts() == other.last_clear_receipts()
        &&& self.last_count_receipts() == other.last_count_receipts()
    }

    /// Every notification sent so far, in order, with the ids of the
    /// subscribers called with it, in call order.
    pub closed spec fn notices(&self) -> Seq<(ListNotice<T>, Seq<u64>)> {
        self.notices@
    }

    /// The elements.
    pub closed spec fn items(&self) -> Seq<T> {
        self.items@
    }

    /// Ids of the subscribers to additions.
    pub closed spec fn add_subscribers(&self) -> Seq<u64> {
        self.on_add.ids()
    }

    /// Ids of the subscribers to removals.
    pub closed spec fn remove_subscribers(&self) -> Seq<u64> {
        self.on_remove.ids()
    }

    /// Ids of the subscribers to clearing.
    pub closed spec fn clear_subscribers(&self) -> Seq<u64> {
        self.on_clear.ids()
    }

    /// Ids of the subscribers to count changes.
    pub closed spec fn count_subscribers(&self) -> Seq<u64> {
        self.on_count_changed.ids()
    }

    /// The id the next subscription, of any kind, will get.
    pub closed spec fn next_id(&self) -> u64 {
        self.next_id
    }

    /// For every send on the add channel so far, in order, the ids of the
    /// subscribers it called.
    pub closed spec fn add_calls(&self) -> Seq<Seq<u64>> {
        self.on_add.sent()
    }

    /// For every send on the remove channel so far, in order, the ids of
    /// the subscribers it called.
    pub closed spec fn remove_calls(&self) -> Seq<Seq<u64>> {
        self.on_remove.sent()
    }

    /// For every send on the clear channel so far, in order, the ids of the
    /// subscribers it called.
    pub closed spec fn clear_calls(&self) -> Seq<Seq<u64>> {
        self.on_clear.sent()
    }

    /// For every send on the count channel so far, in order, the ids of the
    /// subscribers it called.
    pub closed spec fn count_calls(&self) -> Seq<Seq<u64>> {
        self.on_count_changed.sent()
    }

    /// Every subscriber list is consistent and below the shared id counter,
    /// and each channel has called exactly the subscribers that the
    /// notices of its kind record.
    pub closed spec fn wf(&self) -> bool {
        &&& self.on_add.wf() && self.on_add.next_id() <= self.next_id
        &&& self.on_remove.wf() && self.on_remove.next_id() <= self.next_id
        &&& self.on_clear.wf() && self.on_clear.next_id() <= self.next_id
        &&& self.on_count_changed.wf() && self.on_count_changed.next_id() <= self.next_id
        &&& self.on_add.sent() == deliveries_of(self.notices@, is_list_add())
        &&& self.on_remove.sent() == deliveries_of(self.notices@, is_list_remove())
        &&& self.on_clear.sent() == deliveries_of(self.notices@, is_list_clear())
        &&& self.on_count_changed.sent() == deliveries_of(self.notices@, is_list_count())
    }

    /// Every call a list has made to a subscriber is one of its recorded
    /// notices: on each channel, the sends so far called exactly the
    /// subscribers that the notices of that channel's kind record, in the
    /// same order, and no send went out without such a notice.
    pub proof fn law_list_calls_are_the_notices(&self)
        requires
            self.wf(),
        ensures
            self.add_calls() == deliveries_of(self.notices(), is_list_add()),
            self.remove_calls() == deliveries_of(self.notices(), is_list_remove()),
            self.clear_calls() == deliveries_of(self.notices(), is_list_clear()),
            self.count_calls() == deliveries_of(self.notices(), is_list_count()),
    {
    }

    /// The channels have made the same calls in `self` and `other`.
    pub open spec fn same_calls(&self, other: &Self) -> bool {
        &&& self.add_calls() == other.add_calls()
        &&& self.remove_calls() == other.remove_calls()
        &&& self.clear_calls() == other.clear_calls()
        &&& self.count_calls() == other.count_calls()
    }

    /// The subscriptions are unchanged between `self` and `other`.
    pub open spec fn same_subscribers(&self, other: &Self) -> bool {
        &&& self.add_subscribers() == other.add_subscribers()
        &&& self.remove_subscribers() == other.remove_subscribers()
        &&& self.clear_subscribers() == other.clear_subscribers()
        &&& self.count_subscribers() == other.count_subscribers()
        &&& self.next_id() == other.next_id()
        &&& self.add_handlers() == other.add_handlers()
        &&& self.remove_handlers() == other.remove_handlers()
        &&& self.clear_handlers() == other.clear_handlers()
        &&& self.count_handlers() == other.count_handlers()
    }

    /// An empty list without subscribers.
    pub fn new() -> (r: BindableList<T, H>)
        ensures
            r.wf(),
            r.items() == Seq::<T>::empty(),
            r.add_subscribers() == Seq::<u64>::empty(),
            r.remove_subscribers() == Seq::<u64>::empty(),
            r.clear_subscribers() == Seq::<u64>::empty(),
            r.count_subscribers() == Seq::<u64>::empty(),
            r.next_id() == 0,
            r.notices() == Seq::<(ListNotice<T>, Seq<u64>)>::empty(),
    {
        proof {
            lemma_deliveries_empty(is_list_add::<T>());
            lemma_deliveries_empty(is_list_remove::<T>());
            lemma_deliveries_empty(is_list_clear::<T>());
            lemma_deliveries_empty(is_list_count::<T>());
        }
        BindableList {
            items: Vec::new(),
            on_add: RecordedEvent::new(),
            on_remove: RecordedEvent::new(),
            on_clear: RecordedEvent::new(),
            on_count_changed: RecordedEvent::new(),
            next_id: 0,
            add_receipts: Vec::new(),
            remove_receipts: Vec::new(),
            clear_receipts: Vec::new(),
            count_receipts: Vec::new(),
            notices: Ghost(Seq::empty()),
        }
    }

    /// A list holding `items`, without subscribers.
    pub fn from_vec(items: Vec<T>) -> (r: BindableList<T, H>)
        ensures
            r.wf(),
            r.items() == items@,
            r.add_subscribers() == Seq::<u64>::empty(),
            r.remove_subscribers() == Seq::<u64>::empty(),
            r.clear_subscribers() == Seq::<u64>::empty(),
            r.count_subscribers() == Seq::<u64>::empty(),
            r.next_id() == 0,
            r.notices() == Seq::<(ListNotice<T>, Seq<u64>)>::empty(),
    {
        let mut list = BindableList::new();
        list.items = items;
        list
    }

    /// Number of elements.
    pub fn len(&self) -> (r: usize)
        ensures
            r == self.items().len(),
    {
        self.items.len()
    }

    /// Whether the list has no element.
    pub fn is_empty(&self) -> (r: bool)
        ensures
            r == (self.items().len() == 0),
    {
        self.items.len() == 0
    }

    /// A copy of the element at `index`, if there is one.
    pub fn get(&self, index: usize) -> (r: Option<T>)
        where T: Clone,
        ensures
            match r {
                Some(v) => index < self.items().len() && cloned::<T>(self.items()[index as int], v),
                None => index >= self.items().len(),
            },
    {
        if index < self.items.len() {
            Some(self.items[index].clone())
        } else {
            None
        }
    }

    /// A copy of all elements.
    pub fn snapshot(&self) -> (r: Vec<T>)
        where T: Clone,
        ensures
            r@.len() == self.items().len(),
            forall|i: int| 0 <= i < r@.len() ==> cloned::<T>(self.items()[i], #[trigger] r@[i]),
    {
        self.items.clone()
    }

    /// Calls `f` on the elements without copying them.
    pub fn with_items<R, F: FnOnce(&[T]) -> R>(&self, f: F) -> (r: R)
        requires
            forall|s: &[T]| s@ == self.items() ==> call_requires(f, (s,)),
        ensures
            exists|s: &[T]| s@ == self.items() && call_ensures(f, (s,), r),
    {
        f(self.items.as_slice())
    }

    /// Subscribes `handler` to additions.
    pub fn on_add(&mut self, handler: H) -> (r: IUnRegister)
        requires
            old(self).wf(),
            old(self).next_id() < u64::MAX,
        ensures
            final(self).wf(),
            final(self).items() == old(self).items(),
            final(self).notices() == old(self).notices(),
            final(self).add_subscribers() == old(self).add_subscribers().push(old(self).next_id()),
            final(self).remove_subscribers() == old(self).remove_subscribers(),
            final(self).clear_subscribers() == old(self).clear_subscribers(),
            final(self).count_subscribers() == old(self).count_subscribers(),
            final(self).next_id() == old(self).next_id() + 1,
            final(self).add_handlers() == old(self).add_handlers().insert(old(self).next_id(), handler),
            final(self).remove_handlers() == old(self).remove_handlers(),
            final(self).clear_handlers() == old(self).clear_handlers(),
            final(self).count_handlers() == old(self).count_handlers(),
            final(self).same_receipts(&old(self)),
            r.target() == Some(old(self).next_id()),
    {
        let id = self.next_id;
        self.on_add.register_as(id, handler);
        self.next_id = id + 1;
        IUnRegister::new(id)
    }

    /// Subscribes `handler` to removals.
    pub fn on_remove(&mut self, handler: H) -> (r: IUnRegister)
        requires
            old(self).wf(),
            old(self).next_id() < u64::MAX,
        ensures
            final(self).wf(),
            final(self).items() == old(self).items(),
            final(self).notices() == old(self).notices(),
            final(self).add_subscribers() == old(self).add_subscribers(),
            final(self).remove_subscribers() == old(self).remove_subscribers().push(old(self).next_id()),
            final(self).clear_subscribers() == old(self).clear_subscribers(),
            final(self).count_subscribers() == old(self).count_subscribers(),
            final(self).next_id() == old(self).next_id() + 1,
            final(self).remove_handlers() == old(self).remove_handlers().insert(old(self).next_id(), handler),
            final(self).add_handlers() == old(self).add_handlers(),
            final(self).clear_handlers() == old(self).clear_handlers(),
            final(self).count_handlers() == old(self).count_handlers(),
            final(self).same_receipts(&old(self)),
            r.target() == Some(old(self).next_id()),
    {
        let id = self.next_id;
        self.on_remove.register_as(id, handler);
        self.next_id = id + 1;
        IUnRegister::new(id)
    }

    /// Subscribes `handler` to clearing.
    pub fn on_clear(&mut self, handler: H) -> (r: IUnRegister)
        requires
            old(self).wf(),
            old(self).next_id() < u64::MAX,
        ensures
            final(self).wf(),
            final(self).items() == old(self).items(),
            final(self).notices() == old(self).notices(),
            final(self).add_subscribers() == old(self).add_subscribers(),
            final(self).remove_subscribers() == old(self).remove_subscribers(),
            final(self).clear_subscribers() == old(self).clear_subscribers().push(old(self).next_id()),
            final(self).count_subscribers() == old(self).count_subscribers(),
            final(self).next_id() == old(self).next_id() + 1,
            final(self).clear_handlers() == old(self).clear_handlers().insert(old(self).next_id(), handler),
            final(self).add_handlers() == old(self).add_handlers(),
            final(self).remove_handlers() == old(self).remove_handlers(),
            final(self).count_handlers() == old(self).count_handlers(),
            final(self).same_receipts(&old(self)),
            r.target() == Some(old(self).next_id()),
    {
        let id = self.next_id;
        self.on_clear.register_as(id, handler);
        self.next_id = id + 1;
        IUnRegister::new(id)
    }

    /// Subscribes `handler` to count changes.
    pub fn on_count_changed(&mut self, handler: H) -> (r: IUnRegister)
        requires
            old(self).wf(),
            old(self).next_id() < u64::MAX,
        ensures
            final(self).wf(),
            final(self).items() == old(self).items(),
            final(self).notices() == old(self).notices(),
            final(self).add_subscribers() == old(self).add_subscribers(),
            final(self).remove_subscribers() == old(self).remove_subscribers(),
            final(self).clear_subscribers() == old(self).clear_subscribers(),
            final(self).count_subscribers() == old(self).count_subscribers().push(old(self).next_id()),
            final(self).next_id() == old(self).next_id() + 1,
            final(self).count_handlers() == old(self).count_handlers().insert(old(self).next_id(), handler),
            final(self).add_handlers() == old(self).add_handlers(),
            final(self).remove_handlers() == old(self).remove_handlers(),
            final(self).clear_handlers() == old(self).clear_handlers(),
            final(self).same_receipts(&old(self)),
            r.target() == Some(old(self).next_id()),
    {
        let id = self.next_id;
        self.on_count_changed.register_as(id, handler);
        self.next_id = id + 1;
        IUnRegister::new(id)
    }

    /// Notifies the count subscribers of the current number of elements.
    fn notify_count(&mut self)
        requires
            old(self).wf(),
        ensures
            final(self).wf(),
            final(self).items() == old(self).items(),
            final(self).same_subscribers(&old(self)),
            final(self).notices() == old(self).notices().push((
                ListNotice::CountChanged(ListCountChanged { count: old(self).items().len() as usize }),
                old(self).count_subscribers(),
            )),
            final(self).last_count_receipts()
                == old(self).count_receipts_for(ListCountChanged { count: old(self).items().len() as usize }),
            final(self).last_add_receipts() == old(self).last_add_receipts(),
            final(self).last_remove_receipts() == old(self).last_remove_receipts(),
            final(self).last_clear_receipts() == old(self).last_clear_receipts(),
            final(self).count_calls() == old(self).count_calls().push(old(self).count_subscribers()),
            final(self).add_calls() == old(self).add_calls(),
            final(self).remove_calls() == old(self).remove_calls(),
            final(self).clear_calls() == old(self).clear_calls(),
    {
        let count = self.items.len();
        self.count_receipts = self.on_count_changed.send(&ListCountChanged { count });
        proof {
            assert(self.count_receipts@ =~= old(self).count_receipts_for(ListCountChanged { count }));
        }
        let ghost delivered = self.on_count_changed.ids();
        proof {
            lemma_list_notice_recorded(self.notices@, ListNotice::CountChanged(ListCountChanged { count }), delivered);
        }
        self.notices = Ghost(self.notices@.push((ListNotice::CountChanged(ListCountChanged { count }), delivered)));
    }
}

impl<T: Clone, H> BindableList<T, H>
    where H: IEventHandler<ListAdd<T>> + IEventHandler<ListRemove<T>> + IEventHandler<ListClear> + IEventHandler<ListCountChanged>,
{
    /// Appends `value` and returns its index; notifies the addition, then
    /// the new count.
    pub fn add(&mut self, value: T) -> (r: usize)
        requires
            old(self).wf(),
        ensures
            final(self).wf(),
            final(self).items() == old(self).items().push(value),
            r == old(self).items().len(),
            final(self).same_subscribers(&old(self)),
            exists|copy: T| cloned::<T>(value, copy) && final(self).notices() == old(self).notices()
                + seq![
                    (ListNotice::Add(ListAdd { index: r, value: copy }), old(self).add_subscribers()),
                    (ListNotice::CountChanged(ListCountChanged { count: (r + 1) as usize }), old(self).count_subscribers()),
                ]
                && final(self).last_add_receipts() == old(self).add_receipts_for(ListAdd { index: r, value: copy }),
            final(self).last_count_receipts() == old(self).count_receipts_for(ListCountChanged { count: (r + 1) as usize }),
            final(self).last_remove_receipts() == old(self).last_remove_receipts(),
            final(self).last_clear_receipts() == old(self).last_clear_receipts(),
    {
        let ghost v = value;
        let event = ListAdd { index: self.items.len(), value: value.clone() };
        assert(cloned::<T>(v, event.value));
        self.items.push(value);
        let index = self.items.len() - 1;
        self.add_receipts = self.on_add.send(&event);
        proof {
            assert(self.add_receipts@ =~= old(self).add_receipts_for(event));
        }
        let ghost delivered = self.on_add.ids();
        proof {
            lemma_list_notice_recorded(self.notices@, ListNotice::Add(event), delivered);
        }
        self.notices = Ghost(self.notices@.push((ListNotice::Add(event), delivered)));
        self.notify_count();
        proof {
            assert(self.notices() =~= old(self).notices() + seq![
                (ListNotice::Add(event), old(self).add_subscribers()),
                (ListNotice::CountChanged(ListCountChanged { count: (index + 1) as usize }), old(self).count_subscribers()),
            ]);
            assert(event == ListAdd { index: index, value: event.value });
        }
        index
    }

    /// Inserts `value` at `index`, or at the end when `index` is past it;
    /// notifies the addition with the index used, then the new count.
    pub fn insert(&mut self, index: usize, value: T)
        requires
            old(self).wf(),
        ensures
            final(self).wf(),
            final(self).items() == old(self).items().insert(
                if index <= old(self).items().len() { index as int } else { old(self).items().len() as int },
                value,
            ),
            final(self).same_subscribers(&old(self)),
            exists|copy: T| cloned::<T>(value, copy) && final(self).notices() == old(self).notices()
                + seq![
                    (ListNotice::Add(ListAdd {
                        index: if index <= old(self).items().len() { index } else { old(self).items().len() as usize },
                        value: copy,
                    }), old(self).add_subscribers()),
                    (ListNotice::CountChanged(ListCountChanged { count: (old(self).items().len() + 1) as usize }),
                        old(self).count_subscribers()),
                ]
                && final(self).last_add_receipts() == old(self).add_receipts_for(ListAdd {
                    index: if index <= old(self).items().len() { index } else { old(self).items().len() as usize },
                    value: copy,
                }),
            final(self).last_count_receipts()
                == old(self).count_receipts_for(ListCountChanged { count: (old(self).items().len() + 1) as usize }),
            final(self).last_remove_receipts() == old(self).last_remove_receipts(),
            final(self).last_clear_receipts() == old(self).last_clear_receipts(),
    {
        let actual = if index <= self.items.len() { index } else { self.items.len() };
        let ghost v = value;
        let event = ListAdd { index: actual, value: value.clone() };
        assert(cloned::<T>(v, event.value));
        self.items.insert(actual, value);
        self.add_receipts = self.on_add.send(&event);
        proof {
            assert(self.add_receipts@ =~= old(self).add_receipts_for(event));
        }
        let ghost delivered = self.on_add.ids();
        proof {
            lemma_list_notice_recorded(self.notices@, ListNotice::Add(event), delivered);
        }
        self.notices = Ghost(self.notices@.push((ListNotice::Add(event), delivered)));
        self.notify_count();
        proof {
            assert(self.notices() =~= old(self).notices() + seq![
                (ListNotice::Add(event), old(self).add_subscribers()),
                (ListNotice::CountChanged(ListCountChanged { count: (old(self).items().len() + 1) as usize }),
                    old(self).count_subscribers()),
            ]);
        }
    }

    /// Removes and returns the element at `index`, if there is one;
    /// notifies the removal, then the new count. Out of range, nothing
    /// changes and nobody is notified.
    pub fn remove_at(&mut self, index: usize) -> (r: Option<T>)
        requires
            old(self).wf(),
        ensures
            final(self).wf(),
            final(self).same_subscribers(&old(self)),
            index < old(self).items().len() ==> {
                &&& r == Some(old(self).items()[index as int])
                &&& final(self).items() == old(self).items().remove(index as int)
                &&& exists|copy: T| cloned::<T>(old(self).items()[index as int], copy)
                    && final(self).notices() == old(self).notices() + seq![
                        (ListNotice::Remove(ListRemove { index, value: copy }), old(self).remove_subscribers()),
                        (ListNotice::CountChanged(ListCountChanged { count: (old(self).items().len() - 1) as usize }),
                            old(self).count_subscribers()),
                    ]
                    && final(self).last_remove_receipts() == old(self).remove_receipts_for(ListRemove { index, value: copy })
                &&& final(self).last_count_receipts()
                    == old(self).count_receipts_for(ListCountChanged { count: (old(self).items().len() - 1) as usize })
                &&& final(self).last_add_receipts() == old(self).last_add_receipts()
                &&& final(self).last_clear_receipts() == old(self).last_clear_receipts()
                &&& final(self).remove_calls() == old(self).remove_calls().push(old(self).remove_subscribers())
                &&& final(self).count_calls() == old(self).count_calls().push(old(self).count_subscribers())
                &&& final(self).add_calls() == old(self).add_calls()
                &&& final(self).clear_calls() == old(self).clear_calls()
            },
            index >= old(self).items().len() ==> {
                &&& r is None
                &&& final(self).items() == old(self).items()
                &&& final(self).notices() == old(self).notices()
                &&& final(self).same_receipts(&old(self))
                &&& final(self).same_calls(&old(self))
            },
    {
        if index < self.items.len() {
            let value = self.items.remove(index);
            let event = ListRemove { index, value: value.clone() };
            assert(cloned::<T>(value, event.value));
            self.remove_receipts = self.on_remove.send(&event);
            proof {
                assert(self.remove_receipts@ =~= old(self).remove_receipts_for(event));
            }
            let ghost delivered = self.on_remove.ids();
            proof {
                lemma_list_notice_recorded(self.notices@, ListNotice::Remove(event), delivered);
            }
            self.notices = Ghost(self.notices@.push((ListNotice::Remove(event), delivered)));
            self.notify_count();
            proof {
                assert(self.notices() =~= old(self).notices() + seq![
                    (ListNotice::Remove(event), old(self).remove_subscribers()),
                    (ListNotice::CountChanged(ListCountChanged { count: (old(self).items().len() - 1) as usize }),
                        old(self).count_subscribers()),
                ]);
            }
            Some(value)
        } else {
            None
        }
    }

    /// Removes every element; notifies the clearing, then the new count.
    /// On an empty list nothing happens and nobody is notified.
    pub fn clear(&mut self)
        requires
            old(self).wf(),
        ensures
            final(self).wf(),
            final(self).items() == Seq::<T>::empty(),
            final(self).same_subscribers(&old(self)),
            old(self).items().len() == 0 ==> final(self).notices() == old(self).notices()
                && final(self).same_receipts(&old(self)),
            old(self).items().len() > 0 ==> final(self).notices() == old(self).notices() + seq![
                (ListNotice::Clear(ListClear), old(self).clear_subscribers()),
                (ListNotice::CountChanged(ListCountChanged { count: 0 }), old(self).count_subscribers()),
            ] && final(self).last_clear_receipts() == old(self).clear_receipts_for(ListClear)
                && final(self).last_count_receipts() == old(self).count_receipts_for(ListCountChanged { count: 0 })
                && final(self).last_add_receipts() == old(self).last_add_receipts()
                && final(self).last_remove_receipts() == old(self).last_remove_receipts(),
    {
        if self.items.len() == 0 {
            proof {
                assert(self.items() =~= Seq::<T>::empty());
            }
            return;
        }
        self.items.clear();
        self.clear_receipts = self.on_clear.send(&ListClear);
        proof {
            assert(self.clear_receipts@ =~= old(self).clear_receipts_for(ListClear));
        }
        let ghost delivered = self.on_clear.ids();
        proof {
            lemma_list_notice_recorded(self.notices@, ListNotice::Clear(ListClear), delivered);
        }
        self.notices = Ghost(self.notices@.push((ListNotice::Clear(ListClear), delivered)));
        self.notify_count();
        proof {
            assert(self.notices() =~= old(self).notices() + seq![
                (ListNotice::Clear(ListClear), old(self).clear_subscribers()),
                (ListNotice::CountChanged(ListCountChanged { count: 0 }), old(self).count_subscribers()),
            ]);
        }
    }
}

impl<T, H> Default for BindableList<T, H>
    where H: IEventHandler<ListAdd<T>> + IEventHandler<ListRemove<T>> + IEventHandler<ListClear> + IEventHandler<ListCountChanged>,
{
    /// An empty list without subscribers.
    fn default() -> (r: BindableList<T, H>)
        ensures
            r.wf(),
            r.items() == Seq::<T>::empty(),
            r.add_subscribers() == Seq::<u64>::empty(),
            r.remove_subscribers() == Seq::<u64>::empty(),
            r.clear_subscribers() == Seq::<u64>::empty(),
            r.count_subscribers() == Seq::<u64>::empty(),
            r.next_id() == 0,
            r.notices() == Seq::<(ListNotice<T>, Seq<u64>)>::empty(),
    {
        BindableList::new()
    }
}

impl<T, H> ISubscriptionOwner for BindableList<T, H>
    where H: IEventHandler<ListAdd<T>> + IEventHandler<ListRemove<T>> + IEventHandler<ListClear> + IEventHandler<ListCountChanged>,
{
    open spec fn live_ids(&self) -> Set<u64> {
        self.add_subscribers().to_set() + self.remove_subscribers().to_set()
            + self.clear_subscribers().to_set() + self.count_subscribers().to_set()
    }

    open spec fn owner_wf(&self) -> bool {
        self.wf()
    }

    open spec fn same_apart_from_subscriptions(&self, other: &Self) -> bool {
        &&& self.items() == other.items()
        &&& self.notices() == other.notices()
        &&& self.next_id() == other.next_id()
        &&& self.same_receipts(other)
        &&& self.add_subscribers() == other.add_subscribers().filter(in_set(self.live_ids()))
        &&& self.remove_subscribers() == other.remove_subscribers().filter(in_set(self.live_ids()))
        &&& self.clear_subscribers() == other.clear_subscribers().filter(in_set(self.live_ids()))
        &&& self.count_subscribers() == other.count_subscribers().filter(in_set(self.live_ids()))
    }

    proof fn lemma_same_apart_from_subscriptions(a: &Self, b: &Self, c: &Self) {
        assert forall|i: int| 0 <= i < a.add_subscribers().len() implies a.live_ids().contains(#[trigger] a.add_subscribers()[i]) by {
            assert(a.add_subscribers().contains(a.add_subscribers()[i]));
        }
        lemma_restrict_refl(a.add_subscribers(), a.live_ids());
        assert forall|i: int| 0 <= i < a.remove_subscribers().len() implies a.live_ids().contains(#[trigger] a.remove_subscribers()[i]) by {
            assert(a.remove_subscribers().contains(a.remove_subscribers()[i]));
        }
        lemma_restrict_refl(a.remove_subscribers(), a.live_ids());
        assert forall|i: int| 0 <= i < a.clear_subscribers().len() implies a.live_ids().contains(#[trigger] a.clear_subscribers()[i]) by {
            assert(a.clear_subscribers().contains(a.clear_subscribers()[i]));
        }
        lemma_restrict_refl(a.clear_subscribers(), a.live_ids());
        assert forall|i: int| 0 <= i < a.count_subscribers().len() implies a.live_ids().contains(#[trigger] a.count_subscribers()[i]) by {
            assert(a.count_subscribers().contains(a.count_subscribers()[i]));
        }
        lemma_restrict_refl(a.count_subscribers(), a.live_ids());
        if a.same_apart_from_subscriptions(b) && b.same_apart_from_subscriptions(c) {
            lemma_restrict_subset(a.add_subscribers(), b.add_subscribers(), a.live_ids());
            lemma_restrict_subset(a.remove_subscribers(), b.remove_subscribers(), a.live_ids());
            lemma_restrict_subset(a.clear_subscribers(), b.clear_subscribers(), a.live_ids());
            lemma_restrict_subset(a.count_subscribers(), b.count_subscribers(), a.live_ids());
            assert(a.live_ids().subset_of(b.live_ids()));
            lemma_restrict_trans(a.add_subscribers(), b.add_subscribers(), c.add_subscribers(), a.live_ids(), b.live_ids());
            lemma_restrict_trans(a.remove_subscribers(), b.remove_subscribers(), c.remove_subscribers(), a.live_ids(), b.live_ids());
            lemma_restrict_trans(a.clear_subscribers(), b.clear_subscribers(), c.clear_subscribers(), a.live_ids(), b.live_ids());
            lemma_restrict_trans(a.count_subscribers(), b.count_subscribers(), c.count_subscribers(), a.live_ids(), b.live_ids());
        }
    }

    fn unregister_id(&mut self, id: u64) {
        self.on_add.unregister_by_id(id);
        self.on_remove.unregister_by_id(id);
        self.on_clear.unregister_by_id(id);
        self.on_count_changed.unregister_by_id(id);
        proof {
            lemma_filter_out_to_set(old(self).add_subscribers(), id);
            lemma_filter_out_to_set(old(self).remove_subscribers(), id);
            lemma_filter_out_to_set(old(self).clear_subscribers(), id);
            lemma_filter_out_to_set(old(self).count_subscribers(), id);
            assert(self.live_ids() =~= old(self).live_ids().remove(id));
            let o_add = old(self).add_subscribers();
            assert forall|i: int| 0 <= i < o_add.len() implies old(self).live_ids().contains(#[trigger] o_add[i]) by {
                assert(o_add.contains(o_add[i]));
            }
            lemma_restrict_remove(o_add, old(self).live_ids(), id);
            let o_remove = old(self).remove_subscribers();
            assert forall|i: int| 0 <= i < o_remove.len() implies old(self).live_ids().contains(#[trigger] o_remove[i]) by {
                assert(o_remove.contains(o_remove[i]));
            }
            lemma_restrict_remove(o_remove, old(self).live_ids(), id);
            let o_clear = old(self).clear_subscribers();
            assert forall|i: int| 0 <= i < o_clear.len() implies old(self).live_ids().contains(#[trigger] o_clear[i]) by {
                assert(o_clear.contains(o_clear[i]));
            }
            lemma_restrict_remove(o_clear, old(self).live_ids(), id);
            let o_count = old(self).count_subscribers();
            assert forall|i: int| 0 <= i < o_count.len() implies old(self).live_ids().contains(#[trigger] o_count[i]) by {
                assert(o_count.contains(o_count[i]));
            }
            lemma_restrict_remove(o_count, old(self).live_ids(), id);
        }
    }
}

// ---------------------------------------------------------------------------
// BindableDictionary
// ---------------------------------------------------------------------------

/// An entry was added to a dictionary.
#[derive(Clone, Copy, Debug, PartialEq, Eq)]
pub struct DictAdd<K, V> {
    /// The key added.
    pub key: K,
    /// Its value.
    pub value: V,
}

/// An entry was removed from a dictionary.
#[derive(Clone, Copy, Debug, PartialEq, Eq)]
pub struct DictRemove<K, V> {
    /// The key removed.
    pub key: K,
    /// The value it held.
    pub value: V,
}

/// The value of a key was replaced.
#[derive(Clone, Copy, Debug, PartialEq, Eq)]
pub struct DictReplace<K, V> {
    /// The key.
    pub key: K,
    /// The value it held.
    pub previous: V,
    /// The value it holds now.
    pub current: V,
}

/// A dictionary was emptied.
#[derive(Clone, Copy, Debug, PartialEq, Eq)]
pub struct DictClear;

/// The number of entries of a dictionary changed.
#[derive(Clone, Copy, Debug, PartialEq, Eq)]
pub struct DictCountChanged {
    /// The number of entries after the change.
    pub count: usize,
}

/// A notification of a dictionary.
pub enum DictNotice<K, V> {
    Add(DictAdd<K, V>),
    Remove(DictRemove<K, V>),
    Replace(DictReplace<K, V>),
    Clear(DictClear),
    CountChanged(DictCountChanged),
}

/// The dictionary notices of additions.
pub open spec fn is_dict_add<K, V>() -> spec_fn(DictNotice<K, V>) -> bool {
    |n: DictNotice<K, V>| n is Add
}

/// The dictionary notices of removals.
pub open spec fn is_dict_remove<K, V>() -> spec_fn(DictNotice<K, V>) -> bool {
    |n: DictNotice<K, V>| n is Remove
}

/// The dictionary notices of replacements.
pub open spec fn is_dict_replace<K, V>() -> spec_fn(DictNotice<K, V>) -> bool {
    |n: DictNotice<K, V>| n is Replace
}

/// The dictionary notices of clearing.
pub open spec fn is_dict_clear<K, V>() -> spec_fn(DictNotice<K, V>) -> bool {
    |n: DictNotice<K, V>| n is Clear
}

/// The dictionary notices of count changes.
pub open spec fn is_dict_count<K, V>() -> spec_fn(DictNotice<K, V>) -> bool {
    |n: DictNotice<K, V>| n is CountChanged
}

/// Recording a dictionary notice adds its subscribers to the deliveries of
/// its own kind only.
proof fn lemma_dict_notice_recorded<K, V>(notices: Seq<(DictNotice<K, V>, Seq<u64>)>, n: DictNotice<K, V>, ids: Seq<u64>)
    ensures
        deliveries_of(notices.push((n, ids)), is_dict_add()) == (if n is Add {
            deliveries_of(notices, is_dict_add()).push(ids)
        } else {
            deliveries_of(notices, is_dict_add())
        }),
        deliveries_of(notices.push((n, ids)), is_dict_remove()) == (if n is Remove {
            deliveries_of(notices, is_dict_remove()).push(ids)
        } else {
            deliveries_of(notices, is_dict_remove())
        }),
        deliveries_of(notices.push((n, ids)), is_dict_replace()) == (if n is Replace {
            deliveries_of(notices, is_dict_replace()).push(ids)
        } else {
            deliveries_of(notices, is_dict_replace())
        }),
        deliveries_of(notices.push((n, ids)), is_dict_clear()) == (if n is Clear {
            deliveries_of(notices, is_dict_clear()).push(ids)
        } else {
            deliveries_of(notices, is_dict_clear())
        }),
        deliveries_of(notices.push((n, ids)), is_dict_count()) == (if n is CountChanged {
            deliveries_of(notices, is_dict_count()).push(ids)
        } else {
            deliveries_of(notices, is_dict_count())
        }),
{
    lemma_deliveries_push(notices, n, ids, is_dict_add());
    lemma_deliveries_push(notices, n, ids, is_dict_remove());
    lemma_deliveries_push(notices, n, ids, is_dict_replace());
    lemma_deliveries_push(notices, n, ids, is_dict_clear());
    lemma_deliveries_push(notices, n, ids, is_dict_count());
}

/// An observable dictionary.
///
/// The operations that look keys up are stated for key types whose `Hash`
/// and `Eq` agree with equality of values (`obeys_key_model`). vstd
/// establishes this for `bool` and the integer types; for other key types,
/// strings among them, it is not known, and those operations cannot be
/// called from verified code.
pub struct BindableDictionary<K, V, H>
    where H: IEventHandler<DictAdd<K, V>> + IEventHandler<DictRemove<K, V>> + IEventHandler<DictReplace<K, V>> + IEventHandler<DictClear> + IEventHandler<DictCountChanged>,
{
    entries: HashMap<K, V>,
    on_add: RecordedEvent<H>,
    on_remove: RecordedEvent<H>,
    on_replace: RecordedEvent<H>,
    on_clear: RecordedEvent<H>,
    on_count_changed: RecordedEvent<H>,
    next_id: u64,
    add_receipts: Vec<<H as IEventHandler<DictAdd<K, V>>>::Receipt>,
    remove_receipts: Vec<<H as IEventHandler<DictRemove<K, V>>>::Receipt>,
    replace_receipts: Vec<<H as IEventHandler<DictReplace<K, V>>>::Receipt>,
    clear_receipts: Vec<<H as IEventHandler<DictClear>>::Receipt>,
    count_receipts: Vec<<H as IEventHandler<DictCountChanged>>::Receipt>,
    notices: Ghost<Seq<(DictNotice<K, V>, Seq<u64>)>>,
}

impl<K, V, H> BindableDictionary<K, V, H>
    where H: IEventHandler<DictAdd<K, V>> + IEventHandler<DictRemove<K, V>> + IEventHandler<DictReplace<K, V>> + IEventHandler<DictClear> + IEventHandler<DictCountChanged>,
{
    /// Every subscriber ever added to the add channel, by its id.
    pub closed spec fn add_handlers(&self) -> Map<u64, H> {
        self.on_add.handler_map()
    }

    /// What the add subscribers gave back for the latest add notification,
    /// in call order.
    pub closed spec fn last_add_receipts(&self) -> Seq<<H as IEventHandler<DictAdd<K, V>>>::Receipt> {
        self.add_receipts@
    }

    /// What the current add subscribers give back, in subscription order,
    /// when notified with `event`.
    pub open spec fn add_receipts_for(&self, event: DictAdd<K, V>) -> Seq<<H as IEventHandler<DictAdd<K, V>>>::Receipt> {
        self.add_subscribers().map_values(|id: u64| self.add_handlers()[id].receipt(&event))
    }

    /// Every subscriber ever added to the remove channel, by its id.
    pub closed spec fn remove_handlers(&self) -> Map<u64, H> {
        self.on_remove.handler_map()
    }

    /// What the remove subscribers gave back for the latest remove notification,
    /// in call order.
    pub closed spec fn last_remove_receipts(&self) -> Seq<<H as IEventHandler<DictRemove<K, V>>>::Receipt> {
        self.remove_receipts@
    }

    /// What the current remove subscribers give back, in subscription order,
    /// when notified with `event`.
    pub open spec fn remove_receipts_for(&self, event: DictRemove<K, V>) -> Seq<<H as IEventHandler<DictRemove<K, V>>>::Receipt> {
        self.remove_subscribers().map_values(|id: u64| self.remove_handlers()[id].receipt(&event))
    }

    /// Every subscriber ever added to the replace channel, by its id.
    pub closed spec fn replace_handlers(&self) -> Map<u64, H> {
        self.on_replace.handler_map()
    }

    /// What the replace subscribers gave back for the latest replace notification,
    /// in call order.
    pub closed spec fn last_replace_receipts(&self) -> Seq<<H as IEventHandler<DictReplace<K, V>>>::Receipt> {
        self.replace_receipts@
    }

    /// What the current replace subscribers give back, in subscription order,
    /// when notified with `event`.
    pub open spec fn replace_receipts_for(&self, event: DictReplace<K, V>) -> Seq<<H as IEventHandler<DictReplace<K, V>>>::Receipt> {
        self.replace_subscribers().map_values(|id: u64| self.replace_handlers()[id].receipt(&event))
    }

    /// Every subscriber ever added to the clear channel, by its id.
    pub closed spec fn clear_handlers(&self) -> Map<u64, H> {
        self.on_clear.handler_map()
    }

    /// What the clear subscribers gave back for the latest clear notification,
    /// in call order.
    pub closed spec fn last_clear_receipts(&self) -> Seq<<H as IEventHandler<DictClear>>::Receipt> {
        self.clear_receipts@
    }

    /// What the current clear subscribers give back, in subscription order,
    /// when notified with `event`.
    pub open spec fn clear_receipts_for(&self, event: DictClear) -> Seq<<H as IEventHandler<DictClear>>::Receipt> {
        self.clear_subscribers().map_values(|id: u64| self.clear_handlers()[id].receipt(&event))
    }

    /// Every subscriber ever added to the count channel, by its id.
    pub closed spec fn count_handlers(&self) -> Map<u64, H> {
        self.on_count_changed.handler_map()
    }

    /// What the count subscribers gave back for the latest count notification,
    /// in call order.
    pub closed spec fn last_count_receipts(&self) -> Seq<<H as IEventHandler<DictCountChanged>>::Receipt> {
        self.count_receipts@
    }

    /// What the current count subscribers give back, in subscription order,
    /// when notified with `event`.
    pub open spec fn count_receipts_for(&self, event: DictCountChanged) -> Seq<<H as IEventHandler<DictCountChanged>>::Receipt> {
        self.count_subscribers().map_values(|id: u64| self.count_handlers()[id].receipt(&event))
    }

    /// What writing `key` to `before` notified, with `k` and `v` the copies
    /// of the key and the value that the notifications carry: a replacement
    /// of an existing key, or an addition followed by the new count, each
    /// with the receipts of the subscribers called.
    pub open spec fn insert_notified(&self, before: &Self, key: K, k: K, v: V) -> bool {
        &&& self.notices() == before.notices() + (if before.entries().contains_key(key) {
            seq![(DictNotice::Replace(DictReplace { key: k, previous: before.entries()[key], current: v }),
                before.replace_subscribers())]
        } else {
            seq![
                (DictNotice::Add(DictAdd { key: k, value: v }), before.add_subscribers()),
                (DictNotice::CountChanged(DictCountChanged { count: (before.entries().len() + 1) as usize }),
                    before.count_subscribers()),
            ]
        })
        &&& before.entries().contains_key(key) ==> self.last_replace_receipts()
            == before.replace_receipts_for(DictReplace { key: k, previous: before.entries()[key], current: v })
        &&& !before.entries().contains_key(key) ==> self.last_add_receipts()
            == before.add_receipts_for(DictAdd { key: k, value: v })
    }

    /// The receipts of the latest notifications, but for replacements, are
    /// the same in `self` and `other`.
    pub open spec fn same_receipts_but_replace(&self, other: &Self) -> bool {
        &&& self.last_add_receipts() == other.last_add_receipts()
        &&& self.last_remove_receipts() == other.last_remove_receipts()
        &&& self.last_clear_receipts() == other.last_clear_receipts()
        &&& self.last_count_receipts() == other.last_count_receipts()
    }

    /// The receipts of the latest notifications are the same in `self` and
    /// `other`.
    pub open spec fn same_receipts(&self, other: &Self) -> bool {
        &&& self.last_add_receipts() == other.last_add_receipts()
        &&& self.last_remove_receipts() == other.last_remove_receipts()
        &&& self.last_replace_receipts() == other.last_replace_receipts()
        &&& self.last_clear_receipts() == other.last_clear_receipts()
        &&& self.last_count_receipts() == other.last_count_receipts()
    }

    /// Every notification sent so far, in order, with the ids of the
    /// subscribers called with it, in call order.
    pub closed spec fn notices(&self) -> Seq<(DictNotice<K, V>, Seq<u64>)> {
        self.notices@
    }

    /// The entries.
    pub closed spec fn entries(&self) -> Map<K, V> {
        self.entries@
    }

    /// The entries are the view of the table.
    pub proof fn lemma_entries_are_table(&self)
        ensures
            self.entries() == self.table()@,
    {
    }

    /// The table that holds the entries.
    pub closed spec fn table(&self) -> HashMap<K, V> {
        self.entries
    }

    /// Ids of the subscribers to additions.
    pub closed spec fn add_subscribers(&self) -> Seq<u64> {
        self.on_add.ids()
    }

    /// Ids of the subscribers to removals.
    pub closed spec fn remove_subscribers(&self) -> Seq<u64> {
        self.on_remove.ids()
    }

    /// Ids of the subscribers to replacements.
    pub closed spec fn replace_subscribers(&self) -> Seq<u64> {
        self.on_replace.ids()
    }

    /// Ids of the subscribers to clearing.
    pub closed spec fn clear_subscribers(&self) -> Seq<u64> {
        self.on_clear.ids()
    }

    /// Ids of the subscribers to count changes.
    pub closed spec fn count_subscribers(&self) -> Seq<u64> {
        self.on_count_changed.ids()
    }

    /// The id the next subscription, of any kind, will get.
    pub closed spec fn next_id(&self) -> u64 {
        self.next_id
    }

    /// For every send on the add channel so far, in order, the ids of the
    /// subscribers it called.
    pub closed spec fn add_calls(&self) -> Seq<Seq<u64>> {
        self.on_add.sent()
    }

    /// For every send on the remove channel so far, in order, the ids of the
    /// subscribers it called.
    pub closed spec fn remove_calls(&self) -> Seq<Seq<u64>> {
        self.on_remove.sent()
    }

    /// For every send on the replace channel so far, in order, the ids of the
    /// subscribers it called.
    pub closed spec fn replace_calls(&self) -> Seq<Seq<u64>> {
        self.on_replace.sent()
    }

    /// For every send on the clear channel so far, in order, the ids of the
    /// subscribers it called.
    pub closed spec fn clear_calls(&self) -> Seq<Seq<u64>> {
        self.on_clear.sent()
    }

    /// For every send on the count channel so far, in order, the ids of the
    /// subscribers it called.
    pub closed spec fn count_calls(&self) -> Seq<Seq<u64>> {
        self.on_count_changed.sent()
    }

    /// Every subscriber list is consistent and below the shared id counter,
    /// and each channel has called exactly the subscribers that the
    /// notices of its kind record.
    pub closed spec fn wf(&self) -> bool {
        &&& self.on_add.wf() && self.on_add.next_id() <= self.next_id
        &&& self.on_remove.wf() && self.on_remove.next_id() <= self.next_id
        &&& self.on_replace.wf() && self.on_replace.next_id() <= self.next_id
        &&& self.on_clear.wf() && self.on_clear.next_id() <= self.next_id
        &&& self.on_count_changed.wf() && self.on_count_changed.next_id() <= self.next_id
        &&& self.on_add.sent() == deliveries_of(self.notices@, is_dict_add())
        &&& self.on_remove.sent() == deliveries_of(self.notices@, is_dict_remove())
        &&& self.on_replace.sent() == deliveries_of(self.notices@, is_dict_replace())
        &&& self.on_clear.sent() == deliveries_of(self.notices@, is_dict_clear())
        &&& self.on_count_changed.sent() == deliveries_of(self.notices@, is_dict_count())
    }

    /// Every call a dictionary has made to a subscriber is one of its
    /// recorded notices: on each channel, the sends so far called exactly
    /// the subscribers that the notices of that channel's kind record, in
    /// the same order, and no send went out without such a notice.
    pub proof fn law_dict_calls_are_the_notices(&self)
        requires
            self.wf(),
        ensures
            self.add_calls() == deliveries_of(self.notices(), is_dict_add()),
            self.remove_calls() == deliveries_of(self.notices(), is_dict_remove()),
            self.replace_calls() == deliveries_of(self.notices(), is_dict_replace()),
            self.clear_calls() == deliveries_of(self.notices(), is_dict_clear()),
            self.count_calls() == deliveries_of(self.notices(), is_dict_count()),
    {
    }

    /// The channels have made the same calls in `self` and `other`.
    pub open spec fn same_calls(&self, other: &Self) -> bool {
        &&& self.add_calls() == other.add_calls()
        &&& self.remove_calls() == other.remove_calls()
        &&& self.replace_calls() == other.replace_calls()
        &&& self.clear_calls() == other.clear_calls()
        &&& self.count_calls() == other.count_calls()
    }

    /// The subscriptions are unchanged between `self` and `other`.
    pub open spec fn same_subscribers(&self, other: &Self) -> bool {
        &&& self.add_subscribers() == other.add_subscribers()
        &&& self.remove_subscribers() == other.remove_subscribers()
        &&& self.replace_subscribers() == other.replace_subscribers()
        &&& self.clear_subscribers() == other.clear_subscribers()
        &&& self.count_subscribers() == other.count_subscribers()
        &&& self.next_id() == other.next_id()
        &&& self.add_handlers() == other.add_handlers()
        &&& self.remove_handlers() == other.remove_handlers()
        &&& self.replace_handlers() == other.replace_handlers()
        &&& self.clear_handlers() == other.clear_handlers()
        &&& self.count_handlers() == other.count_handlers()
    }

    /// An empty dictionary without subscribers.
    pub fn new() -> (r: BindableDictionary<K, V, H>)
        ensures
            r.wf(),
            r.entries() == Map::<K, V>::empty(),
            r.add_subscribers() == Seq::<u64>::empty(),
            r.remove_subscribers() == Seq::<u64>::empty(),
            r.replace_subscribers() == Seq::<u64>::empty(),
            r.clear_subscribers() == Seq::<u64>::empty(),
            r.count_subscribers() == Seq::<u64>::empty(),
            r.next_id() == 0,
            r.notices() == Seq::<(DictNotice<K, V>, Seq<u64>)>::empty(),
    {
        proof {
            lemma_deliveries_empty(is_dict_add::<K, V>());
            lemma_deliveries_empty(is_dict_remove::<K, V>());
            lemma_deliveries_empty(is_dict_replace::<K, V>());
            lemma_deliveries_empty(is_dict_clear::<K, V>());
            lemma_deliveries_empty(is_dict_count::<K, V>());
        }
        BindableDictionary {
            entries: HashMap::new(),
            on_add: RecordedEvent::new(),
            on_remove: RecordedEvent::new(),
            on_replace: RecordedEvent::new(),
            on_clear: RecordedEvent::new(),
            on_count_changed: RecordedEvent::new(),
            next_id: 0,
            add_receipts: Vec::new(),
            remove_receipts: Vec::new(),
            replace_receipts: Vec::new(),
            clear_receipts: Vec::new(),
            count_receipts: Vec::new(),
            notices: Ghost(Seq::empty()),
        }
    }

    /// Number of entries.
    pub fn len(&self) -> (r: usize)
        requires
            obeys_key_model::<K>(),
        ensures
            r == self.entries().len(),
    {
        self.entries.len()
    }

    /// Whether the dictionary has no entry.
    pub fn is_empty(&self) -> (r: bool)
        ensures
            r == (self.entries().len() == 0),
    {
        let r = self.entries.is_empty();
        proof {
            if self.entries().len() == 0 {
                assert(self.entries().dom() =~= Set::<K>::empty());
                assert(self.entries() =~= Map::<K, V>::empty());
            }
        }
        r
    }

    /// Calls `f` on the entries without copying them.
    pub fn with_entries<R, F: FnOnce(&HashMap<K, V>) -> R>(&self, f: F) -> (r: R)
        requires
            call_requires(f, (&self.table(),)),
        ensures
            call_ensures(f, (&self.table(),), r),
    {
        f(&self.entries)
    }

    /// Subscribes `handler` to additions.
    pub fn on_add(&mut self, handler: H) -> (r: IUnRegister)
        requires
            old(self).wf(),
            old(self).next_id() < u64::MAX,
        ensures
            final(self).wf(),
            final(self).entries() == old(self).entries(),
            final(self).notices() == old(self).notices(),
            final(self).add_subscribers() == old(self).add_subscribers().push(old(self).next_id()),
            final(self).remove_subscribers() == old(self).remove_subscribers(),
            final(self).replace_subscribers() == old(self).replace_subscribers(),
            final(self).clear_subscribers() == old(self).clear_subscribers(),
            final(self).count_subscribers() == old(self).count_subscribers(),
            final(self).next_id() == old(self).next_id() + 1,
            final(self).add_handlers() == old(self).add_handlers().insert(old(self).next_id(), handler),
            final(self).remove_handlers() == old(self).remove_handlers(),
            final(self).replace_handlers() == old(self).replace_handlers(),
            final(self).clear_handlers() == old(self).clear_handlers(),
            final(self).count_handlers() == old(self).count_handlers(),
            final(self).same_receipts(&old(self)),
            r.target() == Some(old(self).next_id()),
    {
        let id = self.next_id;
        self.on_add.register_as(id, handler);
        self.next_id = id + 1;
        IUnRegister::new(id)
    }

    /// Subscribes `handler` to removals.
    pub fn on_remove(&mut self, handler: H) -> (r: IUnRegister)
        requires
            old(self).wf(),
            old(self).next_id() < u64::MAX,
        ensures
            final(self).wf(),
            final(self).entries() == old(self).entries(),
            final(self).notices() == old(self).notices(),
            final(self).add_subscribers() == old(self).add_subscribers(),
            final(self).remove_subscribers() == old(self).remove_subscribers().push(old(self).next_id()),
            final(self).replace_subscribers() == old(self).replace_subscribers(),
            final(self).clear_subscribers() == old(self).clear_subscribers(),
            final(self).count_subscribers() == old(self).count_subscribers(),
            final(self).next_id() == old(self).next_id() + 1,
            final(self).remove_handlers() == old(self).remove_handlers().insert(old(self).next_id(), handler),
            final(self).add_handlers() == old(self).add_handlers(),
            final(self).replace_handlers() == old(self).replace_handlers(),
            final(self).clear_handlers() == old(self).clear_handlers(),
            final(self).count_handlers() == old(self).count_handlers(),
            final(self).same_receipts(&old(self)),
            r.target() == Some(old(self).next_id()),
    {
        let id = self.next_id;
        self.on_remove.register_as(id, handler);
        self.next_id = id + 1;
        IUnRegister::new(id)
    }

    /// Subscribes `handler` to replacements.
    pub fn on_replace(&mut self, handler: H) -> (r: IUnRegister)
        requires
            old(self).wf(),
            old(self).next_id() < u64::MAX,
        ensures
            final(self).wf(),
            final(self).entries() == old(self).entries(),
            final(self).notices() == old(self).notices(),
            final(self).add_subscribers() == old(self).add_subscribers(),
            final(self).remove_subscribers() == old(self).remove_subscribers(),
            final(self).replace_subscribers() == old(self).replace_subscribers().push(old(self).next_id()),
            final(self).clear_subscribers() == old(self).clear_subscribers(),
            final(self).count_subscribers() == old(self).count_subscribers(),
            final(self).next_id() == old(self).next_id() + 1,
            final(self).replace_handlers() == old(self).replace_handlers().insert(old(self).next_id(), handler),
            final(self).add_handlers() == old(self).add_handlers(),
            final(self).remove_handlers() == old(self).remove_handlers(),
            final(self).clear_handlers() == old(self).clear_handlers(),
            final(self).count_handlers() == old(self).count_handlers(),
            final(self).same_receipts(&old(self)),
            r.target() == Some(old(self).next_id()),
    {
        let id = self.next_id;
        self.on_replace.register_as(id, handler);
        self.next_id = id + 1;
        IUnRegister::new(id)
    }

    /// Subscribes `handler` to clearing.
    pub fn on_clear(&mut self, handler: H) -> (r: IUnRegister)
        requires
            old(self).wf(),
            old(self).next_id() < u64::MAX,
        ensures
            final(self).wf(),
            final(self).entries() == old(self).entries(),
            final(self).notices() == old(self).notices(),
            final(self).add_subscribers() == old(self).add_subscribers(),
            final(self).remove_subscribers() == old(self).remove_subscribers(),
            final(self).replace_subscribers() == old(self).replace_subscribers(),
            final(self).clear_subscribers() == old(self).clear_subscribers().push(old(self).next_id()),
            final(self).count_subscribers() == old(self).count_subscribers(),
            final(self).next_id() == old(self).next_id() + 1,
            final(self).clear_handlers() == old(self).clear_handlers().insert(old(self).next_id(), handler),
            final(self).add_handlers() == old(self).add_handlers(),
            final(self).remove_handlers() == old(self).remove_handlers(),
            final(self).replace_handlers() == old(self).replace_handlers(),
            final(self).count_handlers() == old(self).count_handlers(),
            final(self).same_receipts(&old(self)),
            r.target() == Some(old(self).next_id()),
    {
        let id = self.next_id;
        self.on_clear.register_as(id, handler);
        self.next_id = id + 1;
        IUnRegister::new(id)
    }

    /// Subscribes `handler` to count changes.
    pub fn on_count_changed(&mut self, handler: H) -> (r: IUnRegister)
        requires
            old(self).wf(),
            old(self).next_id() < u64::MAX,
        ensures
            final(self).wf(),
            final(self).entries() == old(self).entries(),
            final(self).notices() == old(self).notices(),
            final(self).add_subscribers() == old(self).add_subscribers(),
            final(self).remove_subscribers() == old(self).remove_subscribers(),
            final(self).replace_subscribers() == old(self).replace_subscribers(),
            final(self).clear_subscribers() == old(self).clear_subscribers(),
            final(self).count_subscribers() == old(self).count_subscribers().push(old(self).next_id()),
            final(self).next_id() == old(self).next_id() + 1,
            final(self).count_handlers() == old(self).count_handlers().insert(old(self).next_id(), handler),
            final(self).add_handlers() == old(self).add_handlers(),
            final(self).remove_handlers() == old(self).remove_handlers(),
            final(self).replace_handlers() == old(self).replace_handlers(),
            final(self).clear_handlers() == old(self).clear_handlers(),
            final(self).same_receipts(&old(self)),
            r.target() == Some(old(self).next_id()),
    {
        let id = self.next_id;
        self.on_count_changed.register_as(id, handler);
        self.next_id = id + 1;
        IUnRegister::new(id)
    }
}

impl<K: Clone + Eq + Hash, V: Clone, H> BindableDictionary<K, V, H>
    where H: IEventHandler<DictAdd<K, V>> + IEventHandler<DictRemove<K, V>> + IEventHandler<DictReplace<K, V>> + IEventHandler<DictClear> + IEventHandler<DictCountChanged>,
{
    /// Whether `key` has an entry.
    pub fn contains_key(&self, key: &K) -> (r: bool)
        requires
            obeys_key_model::<K>(),
        ensures
            r == self.entries().contains_key(*key),
    {
        self.entries.contains_key(key)
    }

    /// A copy of the value of `key`, if it has one.
    pub fn get(&self, key: &K) -> (r: Option<V>)
        requires
            obeys_key_model::<K>(),
        ensures
            match r {
                Some(v) => self.entries().contains_key(*key) && cloned::<V>(self.entries()[*key], v),
                None => !self.entries().contains_key(*key),
            },
    {
        match self.entries.get(key) {
            Some(v) => Some(v.clone()),
            None => None,
        }
    }

    /// A copy of all entries.
    pub fn snapshot(&self) -> (r: HashMap<K, V>)
        ensures
            r@ == self.entries(),
    {
        self.entries.clone()
    }

    /// Notifies the count subscribers that there are `count` entries.
    fn notify_count(&mut self, count: usize)
        requires
            old(self).wf(),
        ensures
            final(self).wf(),
            final(self).entries() == old(self).entries(),
            final(self).same_subscribers(&old(self)),
            final(self).notices() == old(self).notices().push((
                DictNotice::CountChanged(DictCountChanged { count }),
                old(self).count_subscribers(),
            )),
            final(self).last_count_receipts() == old(self).count_receipts_for(DictCountChanged { count }),
            final(self).last_add_receipts() == old(self).last_add_receipts(),
            final(self).last_remove_receipts() == old(self).last_remove_receipts(),
            final(self).last_replace_receipts() == old(self).last_replace_receipts(),
            final(self).last_clear_receipts() == old(self).last_clear_receipts(),
            final(self).count_calls() == old(self).count_calls().push(old(self).count_subscribers()),
            final(self).add_calls() == old(self).add_calls(),
            final(self).remove_calls() == old(self).remove_calls(),
            final(self).replace_calls() == old(self).replace_calls(),
            final(self).clear_calls() == old(self).clear_calls(),
    {
        self.count_receipts = self.on_count_changed.send(&DictCountChanged { count });
        proof {
            assert(self.count_receipts@ =~= old(self).count_receipts_for(DictCountChanged { count }));
        }
        let ghost delivered = self.on_count_changed.ids();
        proof {
            lemma_dict_notice_recorded(self.notices@, DictNotice::CountChanged(DictCountChanged { count }), delivered);
        }
        self.notices = Ghost(self.notices@.push((DictNotice::CountChanged(DictCountChanged { count }), delivered)));
    }
}

impl<K: Clone + Eq + Hash, V: Clone, H> BindableDictionary<K, V, H>
    where H: IEventHandler<DictAdd<K, V>> + IEventHandler<DictRemove<K, V>> + IEventHandler<DictReplace<K, V>> + IEventHandler<DictClear> + IEventHandler<DictCountChanged>,
{
    /// Sets the value of `key`. A new key notifies the addition and then
    /// the new count; an existing key notifies the replacement with its
    /// previous value, and the count is unchanged.
    pub fn insert(&mut self, key: K, value: V)
        requires
            old(self).wf(),
            obeys_key_model::<K>(),
        ensures
            final(self).wf(),
            final(self).entries() == old(self).entries().insert(key, value),
            final(self).same_subscribers(&old(self)),
            exists|k: K, v: V| #![trigger cloned::<K>(key, k), cloned::<V>(value, v)]
                cloned::<K>(key, k) && cloned::<V>(value, v) && final(self).insert_notified(&old(self), key, k, v),
            old(self).entries().contains_key(key) ==> final(self).same_receipts_but_replace(&old(self)),
            !old(self).entries().contains_key(key) ==> {
                &&& final(self).last_count_receipts()
                    == old(self).count_receipts_for(DictCountChanged { count: (old(self).entries().len() + 1) as usize })
                &&& final(self).last_remove_receipts() == old(self).last_remove_receipts()
                &&& final(self).last_replace_receipts() == old(self).last_replace_receipts()
                &&& final(self).last_clear_receipts() == old(self).last_clear_receipts()
            },
    {
        let ghost (k0, v0) = (key, value);
        let event_key = key.clone();
        let event_value = value.clone();
        assert(cloned::<K>(k0, event_key) && cloned::<V>(v0, event_value));
        proof {
            crate::laws::law_insert_counts(old(self).entries(), key, value);
        }
        match self.entries.insert(key, value) {
            Some(previous) => {
                let event = DictReplace { key: event_key, previous, current: event_value };
                self.replace_receipts = self.on_replace.send(&event);
                proof {
                    assert(self.replace_receipts@ =~= old(self).replace_receipts_for(event));
                }
                let ghost delivered = self.on_replace.ids();
                proof {
                    lemma_dict_notice_recorded(self.notices@, DictNotice::Replace(event), delivered);
                }
                self.notices = Ghost(self.notices@.push((DictNotice::Replace(event), delivered)));
                proof {
                    assert(old(self).entries().contains_key(k0));
                    assert(previous == old(self).entries()[k0]);
                    assert(self.notices() =~= old(self).notices() + seq![
                        (DictNotice::Replace(event), old(self).replace_subscribers())]);
                    assert(self.insert_notified(&old(self), k0, event.key, event.current));
                }
            },
            None => {
                let event = DictAdd { key: event_key, value: event_value };
                self.add_receipts = self.on_add.send(&event);
                proof {
                    assert(self.add_receipts@ =~= old(self).add_receipts_for(event));
                }
                let ghost delivered = self.on_add.ids();
                proof {
                    lemma_dict_notice_recorded(self.notices@, DictNotice::Add(event), delivered);
                }
                self.notices = Ghost(self.notices@.push((DictNotice::Add(event), delivered)));
                let count = self.entries.len();
                self.notify_count(count);
                proof {
                    assert(!old(self).entries().contains_key(k0));
                    assert(self.notices() =~= old(self).notices() + seq![
                        (DictNotice::Add(event), old(self).add_subscribers()),
                        (DictNotice::CountChanged(DictCountChanged { count: (old(self).entries().len() + 1) as usize }),
                            old(self).count_subscribers()),
                    ]);
                    assert(self.insert_notified(&old(self), k0, event.key, event.value));
                }
            },
        }
    }

    /// Removes the entry of `key` and returns its value, if it has one;
    /// notifies the removal, then the new count. Without an entry nothing
    /// changes and nobody is notified.
    pub fn remove(&mut self, key: &K) -> (r: Option<V>)
        requires
            old(self).wf(),
            obeys_key_model::<K>(),
        ensures
            final(self).wf(),
            final(self).same_subscribers(&old(self)),
            final(self).entries() == old(self).entries().remove(*key),
            r == (if old(self).entries().contains_key(*key) {
                Some(old(self).entries()[*key])
            } else {
                None
            }),
            !old(self).entries().contains_key(*key) ==> final(self).notices() == old(self).notices(),
            old(self).entries().contains_key(*key) ==> exists|k: K, v: V|
                cloned::<K>(*key, k) && cloned::<V>(old(self).entries()[*key], v)
                && final(self).notices() == old(self).notices() + seq![
                    (DictNotice::Remove(DictRemove { key: k, value: v }), old(self).remove_subscribers()),
                    (DictNotice::CountChanged(DictCountChanged { count: (old(self).entries().len() - 1) as usize }),
                        old(self).count_subscribers()),
                ]
                && final(self).last_remove_receipts() == old(self).remove_receipts_for(DictRemove { key: k, value: v }),
            !old(self).entries().contains_key(*key) ==> final(self).same_receipts(&old(self)),
            !old(self).entries().contains_key(*key) ==> final(self).same_calls(&old(self)),
            old(self).entries().contains_key(*key) ==> {
                &&& final(self).last_count_receipts()
                    == old(self).count_receipts_for(DictCountChanged { count: (old(self).entries().len() - 1) as usize })
                &&& final(self).last_add_receipts() == old(self).last_add_receipts()
                &&& final(self).last_replace_receipts() == old(self).last_replace_receipts()
                &&& final(self).last_clear_receipts() == old(self).last_clear_receipts()
                &&& final(self).remove_calls() == old(self).remove_calls().push(old(self).remove_subscribers())
                &&& final(self).count_calls() == old(self).count_calls().push(old(self).count_subscribers())
                &&& final(self).add_calls() == old(self).add_calls()
                &&& final(self).replace_calls() == old(self).replace_calls()
                &&& final(self).clear_calls() == old(self).clear_calls()
            },
    {
        match self.entries.remove(key) {
            Some(value) => {
                let event = DictRemove { key: key.clone(), value: value.clone() };
                assert(cloned::<K>(*key, event.key) && cloned::<V>(value, event.value));
                self.remove_receipts = self.on_remove.send(&event);
                proof {
                    assert(self.remove_receipts@ =~= old(self).remove_receipts_for(event));
                }
                let ghost delivered = self.on_remove.ids();
                proof {
                    lemma_dict_notice_recorded(self.notices@, DictNotice::Remove(event), delivered);
                }
                self.notices = Ghost(self.notices@.push((DictNotice::Remove(event), delivered)));
                let count = self.entries.len();
                proof {
                    assert(old(self).entries().remove(*key).dom() =~= old(self).entries().dom().remove(*key));
                }
                self.notify_count(count);
                proof {
                    assert(self.notices() =~= old(self).notices() + seq![
                        (DictNotice::Remove(event), old(self).remove_subscribers()),
                        (DictNotice::CountChanged(DictCountChanged { count: (old(self).entries().len() - 1) as usize }),
                            old(self).count_subscribers()),
                    ]);
                }
                Some(value)
            },
            None => None,
        }
    }

    /// Removes every entry; notifies the clearing, then the new count.
    /// On an empty dictionary nothing happens and nobody is notified.
    pub fn clear(&mut self)
        requires
            old(self).wf(),
        ensures
            final(self).wf(),
            final(self).entries() == Map::<K, V>::empty(),
            final(self).same_subscribers(&old(self)),
            old(self).entries().len() == 0 ==> final(self).notices() == old(self).notices()
                && final(self).same_receipts(&old(self)),
            old(self).entries().len() > 0 ==> final(self).notices() == old(self).notices() + seq![
                (DictNotice::Clear(DictClear), old(self).clear_subscribers()),
                (DictNotice::CountChanged(DictCountChanged { count: 0 }), old(self).count_subscribers()),
            ] && final(self).last_clear_receipts() == old(self).clear_receipts_for(DictClear)
                && final(self).last_count_receipts() == old(self).count_receipts_for(DictCountChanged { count: 0 })
                && final(self).last_add_receipts() == old(self).last_add_receipts()
                && final(self).last_remove_receipts() == old(self).last_remove_receipts()
                && final(self).last_replace_receipts() == old(self).last_replace_receipts(),
    {
        if self.entries.is_empty() {
            proof {
                assert(self.entries().dom() =~= Set::<K>::empty());
                assert(self.entries() =~= Map::<K, V>::empty());
            }
            return;
        }
        proof {
            if old(self).entries().len() == 0 {
                assert(old(self).entries().dom() =~= Set::<K>::empty());
            }
        }
        self.entries.clear();
        self.clear_receipts = self.on_clear.send(&DictClear);
        proof {
            assert(self.clear_receipts@ =~= old(self).clear_receipts_for(DictClear));
        }
        let ghost delivered = self.on_clear.ids();
        proof {
            lemma_dict_notice_recorded(self.notices@, DictNotice::Clear(DictClear), delivered);
        }
        self.notices = Ghost(self.notices@.push((DictNotice::Clear(DictClear), delivered)));
        self.notify_count(0);
        proof {
            assert(self.notices() =~= old(self).notices() + seq![
                (DictNotice::Clear(DictClear), old(self).clear_subscribers()),
                (DictNotice::CountChanged(DictCountChanged { count: 0 }), old(self).count_subscribers()),
            ]);
        }
    }
}

impl<K, V, H> Default for BindableDictionary<K, V, H>
    where H: IEventHandler<DictAdd<K, V>> + IEventHandler<DictRemove<K, V>> + IEventHandler<DictReplace<K, V>> + IEventHandler<DictClear> + IEventHandler<DictCountChanged>,
{
    /// An empty dictionary without subscribers.
    fn default() -> (r: BindableDictionary<K, V, H>)
        ensures
            r.wf(),
            r.entries() == Map::<K, V>::empty(),
            r.add_subscribers() == Seq::<u64>::empty(),
            r.remove_subscribers() == Seq::<u64>::empty(),
            r.replace_subscribers() == Seq::<u64>::empty(),
            r.clear_subscribers() == Seq::<u64>::empty(),
            r.count_subscribers() == Seq::<u64>::empty(),
            r.next_id() == 0,
            r.notices() == Seq::<(DictNotice<K, V>, Seq<u64>)>::empty(),
    {
        BindableDictionary::new()
    }
}

impl<K, V, H> ISubscriptionOwner for BindableDictionary<K, V, H>
    where H: IEventHandler<DictAdd<K, V>> + IEventHandler<DictRemove<K, V>> + IEventHandler<DictReplace<K, V>> + IEventHandler<DictClear> + IEventHandler<DictCountChanged>,
{
    open spec fn live_ids(&self) -> Set<u64> {
        self.add_subscribers().to_set() + self.remove_subscribers().to_set()
            + self.replace_subscribers().to_set() + self.clear_subscribers().to_set()
            + self.count_subscribers().to_set()
    }

    open spec fn owner_wf(&self) -> bool {
        self.wf()
    }

    open spec fn same_apart_from_subscriptions(&self, other: &Self) -> bool {
        &&& self.entries() == other.entries()
        &&& self.notices() == other.notices()
        &&& self.next_id() == other.next_id()
        &&& self.same_receipts(other)
        &&& self.add_subscribers() == other.add_subscribers().filter(in_set(self.live_ids()))
        &&& self.remove_subscribers() == other.remove_subscribers().filter(in_set(self.live_ids()))
        &&& self.replace_subscribers() == other.replace_subscribers().filter(in_set(self.live_ids()))
        &&& self.clear_subscribers() == other.clear_subscribers().filter(in_set(self.live_ids()))
        &&& self.count_subscribers() == other.count_subscribers().filter(in_set(self.live_ids()))
    }

    proof fn lemma_same_apart_from_subscriptions(a: &Self, b: &Self, c: &Self) {
        assert forall|i: int| 0 <= i < a.add_subscribers().len() implies a.live_ids().contains(#[trigger] a.add_subscribers()[i]) by {
            assert(a.add_subscribers().contains(a.add_subscribers()[i]));
        }
        lemma_restrict_refl(a.add_subscribers(), a.live_ids());
        assert forall|i: int| 0 <= i < a.remove_subscribers().len() implies a.live_ids().contains(#[trigger] a.remove_subscribers()[i]) by {
            assert(a.remove_subscribers().contains(a.remove_subscribers()[i]));
        }
        lemma_restrict_refl(a.remove_subscribers(), a.live_ids());
        assert forall|i: int| 0 <= i < a.replace_subscribers().len() implies a.live_ids().contains(#[trigger] a.replace_subscribers()[i]) by {
            assert(a.replace_subscribers().contains(a.replace_subscribers()[i]));
        }
        lemma_restrict_refl(a.replace_subscribers(), a.live_ids());
        assert forall|i: int| 0 <= i < a.clear_subscribers().len() implies a.live_ids().contains(#[trigger] a.clear_subscribers()[i]) by {
            assert(a.clear_subscribers().contains(a.clear_subscribers()[i]));
        }
        lemma_restrict_refl(a.clear_subscribers(), a.live_ids());
        assert forall|i: int| 0 <= i < a.count_subscribers().len() implies a.live_ids().contains(#[trigger] a.count_subscribers()[i]) by {
            assert(a.count_subscribers().contains(a.count_subscribers()[i]));
        }
        lemma_restrict_refl(a.count_subscribers(), a.live_ids());
        if a.same_apart_from_subscriptions(b) && b.same_apart_from_subscriptions(c) {
            lemma_restrict_subset(a.add_subscribers(), b.add_subscribers(), a.live_ids());
            lemma_restrict_subset(a.remove_subscribers(), b.remove_subscribers(), a.live_ids());
            lemma_restrict_subset(a.replace_subscribers(), b.replace_subscribers(), a.live_ids());
            lemma_restrict_subset(a.clear_subscribers(), b.clear_subscribers(), a.live_ids());
            lemma_restrict_subset(a.count_subscribers(), b.count_subscribers(), a.live_ids());
            assert(a.live_ids().subset_of(b.live_ids()));
            lemma_restrict_trans(a.add_subscribers(), b.add_subscribers(), c.add_subscribers(), a.live_ids(), b.live_ids());
            lemma_restrict_trans(a.remove_subscribers(), b.remove_subscribers(), c.remove_subscribers(), a.live_ids(), b.live_ids());
            lemma_restrict_trans(a.replace_subscribers(), b.replace_subscribers(), c.replace_subscribers(), a.live_ids(), b.live_ids());
            lemma_restrict_trans(a.clear_subscribers(), b.clear_subscribers(), c.clear_subscribers(), a.live_ids(), b.live_ids());
            lemma_restrict_trans(a.count_subscribers(), b.count_subscribers(), c.count_subscribers(), a.live_ids(), b.live_ids());
        }
    }

    fn unregister_id(&mut self, id: u64) {
        self.on_add.unregister_by_id(id);
        self.on_remove.unregister_by_id(id);
        self.on_replace.unregister_by_id(id);
        self.on_clear.unregister_by_id(id);
        self.on_count_changed.unregister_by_id(id);
        proof {
            lemma_filter_out_to_set(old(self).add_subscribers(), id);
            lemma_filter_out_to_set(old(self).remove_subscribers(), id);
            lemma_filter_out_to_set(old(self).replace_subscribers(), id);
            lemma_filter_out_to_set(old(self).clear_subscribers(), id);
            lemma_filter_out_to_set(old(self).count_subscribers(), id);
            assert(self.live_ids() =~= old(self).live_ids().remove(id));
            let o_add = old(self).add_subscribers();
            assert forall|i: int| 0 <= i < o_add.len() implies old(self).live_ids().contains(#[trigger] o_add[i]) by {
                assert(o_add.contains(o_add[i]));
            }
            lemma_restrict_remove(o_add, old(self).live_ids(), id);
            let o_remove = old(self).remove_subscribers();
            assert forall|i: int| 0 <= i < o_remove.len() implies old(self).live_ids().contains(#[trigger] o_remove[i]) by {
                assert(o_remove.contains(o_remove[i]));
            }
            lemma_restrict_remove(o_remove, old(self).live_ids(), id);
            let o_replace = old(self).replace_subscribers();
            assert forall|i: int| 0 <= i < o_replace.len() implies old(self).live_ids().contains(#[trigger] o_replace[i]) by {
                assert(o_replace.contains(o_replace[i]));
            }
            lemma_restrict_remove(o_replace, old(self).live_ids(), id);
            let o_clear = old(self).clear_subscribers();
            assert forall|i: int| 0 <= i < o_clear.len() implies old(self).live_ids().contains(#[trigger] o_clear[i]) by {
                assert(o_clear.contains(o_clear[i]));
            }
            lemma_restrict_remove(o_clear, old(self).live_ids(), id);
            let o_count = old(self).count_subscribers();
            assert forall|i: int| 0 <= i < o_count.len() implies old(self).live_ids().contains(#[trigger] o_count[i]) by {
                assert(o_count.contains(o_count[i]));
            }
            lemma_restrict_remove(o_count, old(self).live_ids(), id);
        }
    }
}

} // verus!
