//! Properties that relate several operations of the library.
use std::any::TypeId;
use std::sync::Arc;
use vstd::prelude::*;

use crate::architecture::{
    Architecture, LifecycleCall, Registration, deinits, inits, model_batch, system_batch,
};
use crate::event::{TypeEventSystem, not_id, on_channel, other_channel, other_id};
use crate::seq_facts::{
    lemma_filter_all, lemma_filter_commute, lemma_filter_map, lemma_filter_none, lemma_filter_push, lemma_map_push,
};
use crate::layers::ILifecycle;
use crate::unregister::ISubscriptionOwner;

verus! {

/// Registering a second object under a key replaces the first one: the
/// container ends as if only the second had been registered, and it holds
/// the same number of keys either way.
pub proof fn law_reregistration_replaces<T: ?Sized + ILifecycle>(
    objects: Map<TypeId, Arc<T>>,
    key: TypeId,
    first: Arc<T>,
    second: Arc<T>,
)
    requires
        objects.dom().finite(),
    ensures
        objects.insert(key, first).insert(key, second) == objects.insert(key, second),
        objects.insert(key, first).len() == objects.insert(key, second).len(),
{
    assert(objects.insert(key, first).insert(key, second) =~= objects.insert(key, second));
    assert(objects.insert(key, first).dom() =~= objects.insert(key, second).dom());
}

/// Cancelling a subscription twice has the effect of cancelling it once.
pub proof fn law_unregister_is_idempotent<O: ISubscriptionOwner>(owner: O, id: u64)
    ensures
        owner.live_ids().remove(id).remove(id) == owner.live_ids().remove(id),
{
    assert(owner.live_ids().remove(id).remove(id) =~= owner.live_ids().remove(id));
}

/// A new subscription is called after the earlier subscribers of its
/// channel; the subscribers of the other channels are unaffected.
pub proof fn law_subscribers_are_called_in_subscription_order<H>(
    before: TypeEventSystem<H>,
    after: TypeEventSystem<H>,
    key: TypeId,
    id: u64,
    other: TypeId,
)
    requires
        after.entries() == before.entries().push((key, id)),
    ensures
        after.listeners(key) == before.listeners(key).push(id),
        other != key ==> after.listeners(other) == before.listeners(other),
{
    let f = |e: (TypeId, u64)| e.1;
    lemma_filter_push(before.entries(), (key, id), on_channel(key));
    lemma_map_push(before.entries().filter(on_channel(key)), (key, id), f);
    lemma_filter_push(before.entries(), (key, id), on_channel(other));
}

/// Removing every subscription of a channel silences that channel, and
/// every other channel keeps its subscribers in their order.
pub proof fn law_unregister_all_silences_channel<H>(
    before: TypeEventSystem<H>,
    after: TypeEventSystem<H>,
    key: TypeId,
    other: TypeId,
)
    requires
        after.entries() == before.entries().filter(other_channel(key)),
    ensures
        after.listeners(key) == Seq::<u64>::empty(),
        other != key ==> after.listeners(other) == before.listeners(other),
{
    let e = before.entries();
    lemma_filter_commute(e, other_channel(key), on_channel(key));
    let on_key = e.filter(on_channel(key));
    assert forall|i: int| 0 <= i < on_key.len() implies !other_channel(key)(#[trigger] on_key[i]) by {
        e.lemma_filter_pred(on_channel(key), i);
    }
    lemma_filter_none(on_key, other_channel(key));
    assert(after.listeners(key) =~= Seq::<u64>::empty());
    if other != key {
        lemma_filter_commute(e, other_channel(key), on_channel(other));
        let on_other = e.filter(on_channel(other));
        assert forall|i: int| 0 <= i < on_other.len() implies other_channel(key)(#[trigger] on_other[i]) by {
            e.lemma_filter_pred(on_channel(other), i);
        }
        lemma_filter_all(on_other, other_channel(key));
    }
}

/// Cancelling the subscription `id` means it is never called again: on
/// every channel, the subscribers called are the earlier ones but `id`, in
/// the same order.
pub proof fn law_cancelled_subscriber_is_not_called<H>(
    before: TypeEventSystem<H>,
    after: TypeEventSystem<H>,
    id: u64,
    key: TypeId,
)
    requires
        after.entries() == before.entries().filter(other_id(id)),
    ensures
        after.listeners(key) == before.listeners(key).filter(not_id(id)),
        !after.listeners(key).contains(id),
{
    let e = before.entries();
    let f = |entry: (TypeId, u64)| entry.1;
    let p = not_id(id);
    lemma_filter_commute(e, other_id(id), on_channel(key));
    assert(other_id(id) =~= (|a: (TypeId, u64)| p(f(a))));
    lemma_filter_map(e.filter(on_channel(key)), f, p);
    let l = after.listeners(key);
    if l.contains(id) {
        let i = choose|i: int| 0 <= i < l.len() && l[i] == id;
        e.filter(on_channel(key)).map_values(f).lemma_filter_pred(p, i);
    }
}

/// In the initialization a build runs, every model's `init` comes before
/// every system's and utility's, each batch in registration order.
pub proof fn law_models_init_before_systems<T: ?Sized + ILifecycle, P>(regs: Seq<Registration<T, P>>)
    ensures
        ({
            let hooks = inits(model_batch(regs)) + inits(system_batch(regs));
            let m = model_batch(regs).len();
            &&& hooks.len() == m + system_batch(regs).len()
            &&& forall|i: int| 0 <= i < m ==> #[trigger] hooks[i] == LifecycleCall::Init(model_batch(regs)[i])
            &&& forall|j: int| 0 <= j < system_batch(regs).len()
                ==> #[trigger] hooks[m + j] == LifecycleCall::Init(system_batch(regs)[j])
        }),
{
}

/// Once torn down, an architecture has nothing left to tear down: a second
/// teardown runs no hook.
pub proof fn law_second_deinit_runs_no_hook<T: ?Sized + ILifecycle, H>(torn_down: Architecture<T, H>)
    requires
        torn_down.model_deinit_queue() == Seq::<Arc<T>>::empty(),
        torn_down.system_deinit_queue() == Seq::<Arc<T>>::empty(),
    ensures
        torn_down.hooks() + deinits(torn_down.system_deinit_queue()) + deinits(torn_down.model_deinit_queue())
            == torn_down.hooks(),
{
    assert(deinits(torn_down.system_deinit_queue()) =~= Seq::<LifecycleCall<T>>::empty());
    assert(deinits(torn_down.model_deinit_queue()) =~= Seq::<LifecycleCall<T>>::empty());
    assert(torn_down.hooks() + Seq::<LifecycleCall<T>>::empty() + Seq::<LifecycleCall<T>>::empty()
        =~= torn_down.hooks());
}

/// Writing an existing key of a dictionary replaces its value and keeps the
/// number of entries; writing a new key adds one entry.
pub proof fn law_insert_counts<K, V>(entries: Map<K, V>, key: K, value: V)
    requires
        entries.dom().finite(),
    ensures
        entries.contains_key(key) ==> entries.insert(key, value).len() == entries.len(),
        !entries.contains_key(key) ==> entries.insert(key, value).len() == entries.len() + 1,
{
    if entries.contains_key(key) {
        assert(entries.insert(key, value).dom() =~= entries.dom());
    }
}

} // verus!
