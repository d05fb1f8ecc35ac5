//! The architecture: the hub that owns the layer objects, the event bus and
//! the two-phase lifecycle.
//!
//! Objects are registered under the [`TypeId`] of their type; a key holds
//! one object and registering it again replaces the object. Initialization
//! runs in two phases: every model first, then every system and utility,
//! each batch in registration order. Teardown runs the systems and
//! utilities first, then the models, and leaves the architecture empty.
use std::any::TypeId;
use std::sync::Arc;
use vstd::prelude::*;

use crate::command::ICommand;
use crate::context::{CommandContext, QueryContext};
use crate::event::{IEventHandler, TypeEventSystem};
use crate::ioc::IOCContainer;
use crate::layers::{HasArchRef, ILifecycle};
use crate::query::IQuery;
use crate::seq_facts::lemma_map_push;
use crate::unregister::{IUnRegister, ISubscriptionOwner};

verus! {

/// A lifecycle hook the architecture ran on an object.
pub enum LifecycleCall<T: ?Sized> {
    /// `init` ran on the object.
    Init(Arc<T>),
    /// `deinit` ran on the object.
    Deinit(Arc<T>),
}

/// The `init` calls for a batch of objects, in order.
pub open spec fn inits<T: ?Sized>(objects: Seq<Arc<T>>) -> Seq<LifecycleCall<T>> {
    objects.map_values(|o: Arc<T>| LifecycleCall::Init(o))
}

/// The `deinit` calls for a batch of objects, in order.
pub open spec fn deinits<T: ?Sized>(objects: Seq<Arc<T>>) -> Seq<LifecycleCall<T>> {
    objects.map_values(|o: Arc<T>| LifecycleCall::Deinit(o))
}

impl<T: ?Sized + ILifecycle> LifecycleCall<T> {
    /// What the hook gave back.
    pub open spec fn receipt(self) -> <T as ILifecycle>::HookReceipt {
        match self {
            LifecycleCall::Init(o) => o.init_receipt(),
            LifecycleCall::Deinit(o) => o.deinit_receipt(),
        }
    }
}

/// What a sequence of hook calls gave back, in order.
pub open spec fn receipts_of<T: ?Sized + ILifecycle>(calls: Seq<LifecycleCall<T>>) -> Seq<<T as ILifecycle>::HookReceipt> {
    calls.map_values(|c: LifecycleCall<T>| c.receipt())
}

/// The application architecture. `T` is the type its layer objects are
/// stored as, `H` the type of its event subscribers.
pub struct Architecture<T: ?Sized + ILifecycle, H> {
    name: &'static str,
    ioc: IOCContainer<T>,
    events: TypeEventSystem<H>,
    inited: bool,
    model_inits: Vec<Arc<T>>,
    system_inits: Vec<Arc<T>>,
    model_deinits: Vec<Arc<T>>,
    system_deinits: Vec<Arc<T>>,
    hook_log: Ghost<Seq<LifecycleCall<T>>>,
    hook_receipts: Vec<<T as ILifecycle>::HookReceipt>,
}

impl<T: ?Sized + ILifecycle, H> Architecture<T, H> {
    /// What the hooks the architecture has run gave back, in order.
    pub closed spec fn hook_receipts(&self) -> Seq<<T as ILifecycle>::HookReceipt> {
        self.hook_receipts@
    }

    /// Every hook in the log was run and gave back its receipt.
    pub proof fn lemma_hooks_ran(&self)
        requires
            self.wf(),
        ensures
            self.hook_receipts() == receipts_of(self.hooks()),
    {
    }

    /// The architecture's name.
    pub closed spec fn name_view(&self) -> Seq<char> {
        self.name@
    }

    /// The object registered under each key.
    pub closed spec fn objects(&self) -> Map<TypeId, Arc<T>> {
        self.ioc@
    }

    /// The object registered under `key`, if any.
    pub open spec fn lookup(&self, key: TypeId) -> Option<Arc<T>> {
        if self.objects().contains_key(key) {
            Some(self.objects()[key])
        } else {
            None
        }
    }

    /// Whether both phases of initialization have run.
    pub closed spec fn inited(&self) -> bool {
        self.inited
    }

    /// Models waiting for `init`, in registration order.
    pub closed spec fn pending_model_inits(&self) -> Seq<Arc<T>> {
        self.model_inits@
    }

    /// Systems and utilities waiting for `init`, in registration order.
    pub closed spec fn pending_system_inits(&self) -> Seq<Arc<T>> {
        self.system_inits@
    }

    /// Models that `deinit` will tear down, in registration order.
    pub closed spec fn model_deinit_queue(&self) -> Seq<Arc<T>> {
        self.model_deinits@
    }

    /// Systems and utilities that `deinit` will tear down, in registration
    /// order.
    pub closed spec fn system_deinit_queue(&self) -> Seq<Arc<T>> {
        self.system_deinits@
    }

    /// Every lifecycle hook the architecture has run, in order.
    pub closed spec fn hooks(&self) -> Seq<LifecycleCall<T>> {
        self.hook_log@
    }

    /// The event subscriptions as (channel, id), in subscription order: those
    /// of the event bus.
    pub open spec fn subscriptions(&self) -> Seq<(TypeId, u64)> {
        self.bus().entries()
    }

    /// The id the next event subscription will get on the event bus.
    pub open spec fn next_subscription_id(&self) -> u64 {
        self.bus().next_id()
    }

    /// The event bus.
    pub closed spec fn bus(&self) -> TypeEventSystem<H> {
        self.events
    }

    /// The container and the event bus are consistent, and nothing waits
    /// for `init` once initialization has run.
    pub closed spec fn wf(&self) -> bool {
        &&& self.ioc.wf()
        &&& self.events.wf()
        &&& self.inited ==> self.model_inits@.len() == 0 && self.system_inits@.len() == 0
        &&& self.hook_receipts@ == receipts_of(self.hook_log@)
    }

    /// Registration is still under way: nothing is initialized, no hook has
    /// run, and every object registered waits for its `init`.
    pub open spec fn in_registration(&self) -> bool {
        &&& !self.inited()
        &&& self.hooks() == Seq::<LifecycleCall<T>>::empty()
        &&& self.pending_model_inits() == self.model_deinit_queue()
        &&& self.pending_system_inits() == self.system_deinit_queue()
    }

    /// Everything but the event subscriptions is the same in `self` and
    /// `other`.
    pub open spec fn same_except_subscriptions(&self, other: &Self) -> bool {
        &&& self.name_view() == other.name_view()
        &&& self.objects() == other.objects()
        &&& self.inited() == other.inited()
        &&& self.pending_model_inits() == other.pending_model_inits()
        &&& self.pending_system_inits() == other.pending_system_inits()
        &&& self.model_deinit_queue() == other.model_deinit_queue()
        &&& self.system_deinit_queue() == other.system_deinit_queue()
        &&& self.hooks() == other.hooks()
    }

    /// An empty, uninitialized architecture named `name`.
    pub fn new(name: &'static str) -> (r: Architecture<T, H>)
        ensures
            r.wf(),
            r.name_view() == name@,
            r.objects() == Map::<TypeId, Arc<T>>::empty(),
            !r.inited(),
            r.pending_model_inits() == Seq::<Arc<T>>::empty(),
            r.pending_system_inits() == Seq::<Arc<T>>::empty(),
            r.model_deinit_queue() == Seq::<Arc<T>>::empty(),
            r.system_deinit_queue() == Seq::<Arc<T>>::empty(),
            r.hooks() == Seq::<LifecycleCall<T>>::empty(),
            r.subscriptions() == Seq::<(TypeId, u64)>::empty(),
            r.next_subscription_id() == 0,
    {
        let r = Architecture {
            name,
            ioc: IOCContainer::new(),
            events: TypeEventSystem::new(),
            inited: false,
            model_inits: Vec::new(),
            system_inits: Vec::new(),
            model_deinits: Vec::new(),
            system_deinits: Vec::new(),
            hook_log: Ghost(Seq::empty()),
            hook_receipts: Vec::new(),
        };
        proof {
            assert(receipts_of(r.hook_log@) =~= Seq::<<T as ILifecycle>::HookReceipt>::empty());
        }
        r
    }

    /// The architecture's name.
    pub fn name(&self) -> (r: &'static str)
        ensures
            r@ == self.name_view(),
    {
        self.name
    }

    /// Whether both phases of initialization have run.
    pub fn is_inited(&self) -> (r: bool)
        ensures
            r == self.inited(),
    {
        self.inited
    }

    /// The event bus.
    pub fn events(&self) -> (r: &TypeEventSystem<H>)
        ensures
            *r == self.bus(),
    {
        &self.events
    }

    /// A consistent architecture holds finitely many objects.
    pub proof fn lemma_objects_finite(&self)
        requires
            self.wf(),
        ensures
            self.objects().dom().finite(),
    {
        self.ioc.lemma_finite();
    }

    /// Number of keys that hold an object.
    pub fn registered_count(&self) -> (r: usize)
        requires
            self.wf(),
        ensures
            r == self.objects().len(),
    {
        self.ioc.len()
    }

    /// The model registered under `key`, which must be registered.
    pub fn get_model(&self, key: TypeId) -> (r: Arc<T>)
        requires
            self.wf(),
            self.objects().contains_key(key),
        ensures
            r == self.objects()[key],
    {
        self.ioc.expect(key)
    }

    /// The model registered under `key`, if any.
    pub fn try_get_model(&self, key: TypeId) -> (r: Option<Arc<T>>)
        requires
            self.wf(),
        ensures
            r == self.lookup(key),
    {
        self.ioc.get(key)
    }

    /// The system registered under `key`, which must be registered.
    pub fn get_system(&self, key: TypeId) -> (r: Arc<T>)
        requires
            self.wf(),
            self.objects().contains_key(key),
        ensures
            r == self.objects()[key],
    {
        self.ioc.expect(key)
    }

    /// The system registered under `key`, if any.
    pub fn try_get_system(&self, key: TypeId) -> (r: Option<Arc<T>>)
        requires
            self.wf(),
        ensures
            r == self.lookup(key),
    {
        self.ioc.get(key)
    }

    /// The utility registered under `key`, which must be registered.
    pub fn get_utility(&self, key: TypeId) -> (r: Arc<T>)
        requires
            self.wf(),
            self.objects().contains_key(key),
        ensures
            r == self.objects()[key],
    {
        self.ioc.expect(key)
    }

    /// The utility registered under `key`, if any.
    pub fn try_get_utility(&self, key: TypeId) -> (r: Option<Arc<T>>)
        requires
            self.wf(),
        ensures
            r == self.lookup(key),
    {
        self.ioc.get(key)
    }

    /// Binds a controller's architecture slot to `handle`, a handle of this
    /// architecture, unless the slot is bound already, and wraps the
    /// controller for sharing. Controllers are not stored in the container,
    /// and no hook runs.
    pub fn attach_controller<C: HasArchRef<A>, A>(&self, controller: C, handle: A) -> (r: Arc<C>)
        ensures
            (*r).arch_slot().bound() == (match controller.arch_slot().bound() {
                Some(a) => Some(a),
                None => Some(handle),
            }),
    {
        let mut controller = controller;
        controller.bind_arch(handle);
        Arc::new(controller)
    }

    /// Runs `command` on the calling thread, in a context on this
    /// architecture, and returns its output.
    pub fn send_command<C: ICommand<T, H>>(&self, command: C) -> (r: C::Output)
        requires
            self.wf(),
        ensures
            command.yields(*self, r),
    {
        let context = CommandContext::new(self);
        command.execute(&context)
    }

    /// Runs `query` in a context on this architecture and returns its
    /// result.
    pub fn send_query<Q: IQuery<T, H>>(&self, query: Q) -> (r: Q::Result)
        requires
            self.wf(),
        ensures
            query.answers(*self, r),
    {
        let context = QueryContext::new(self);
        query.do_query(&context)
    }

    /// Sends `event` to the subscribers of channel `key`, in subscription
    /// order, and returns what each gave back.
    pub fn send_event<E: ?Sized>(&self, key: TypeId, event: &E) -> (r: Vec<<H as IEventHandler<E>>::Receipt>)
        where H: IEventHandler<E>,
        requires
            self.wf(),
        ensures
            r@.len() == self.bus().listeners(key).len(),
            forall|i: int| 0 <= i < r@.len()
                ==> #[trigger] r@[i] == self.bus().handler_of(self.bus().listeners(key)[i]).receipt(event),
    {
        self.events.send(key, event)
    }

    /// Sends `E::default()` to the subscribers of channel `key`.
    pub fn send_event_default<E: Default>(&self, key: TypeId) -> (r: Vec<<H as IEventHandler<E>>::Receipt>)
        where H: IEventHandler<E>,
        requires
            self.wf(),
        ensures
            r@.len() == self.bus().listeners(key).len(),
            exists|e: E| call_ensures(E::default, (), e) && forall|i: int| 0 <= i < r@.len()
                ==> #[trigger] r@[i] == self.bus().handler_of(self.bus().listeners(key)[i]).receipt(&e),
    {
        self.events.send_default::<E>(key)
    }

    /// Whether another event subscription can be made: a fresh id is left.
    pub fn can_register_event(&self) -> (r: bool)
        ensures
            r == (self.next_subscription_id() < u64::MAX),
    {
        self.events.has_fresh_id()
    }

    /// Subscribes `handler` to channel `key`.
    pub fn register_event(&mut self, key: TypeId, handler: H) -> (r: IUnRegister)
        requires
            old(self).wf(),
            old(self).next_subscription_id() < u64::MAX,
        ensures
            final(self).wf(),
            final(self).subscriptions() == old(self).subscriptions().push(
                (key, old(self).next_subscription_id()),
            ),
            final(self).next_subscription_id() == old(self).next_subscription_id() + 1,
            final(self).same_except_subscriptions(old(self)),
            final(self).bus().handler_map() == old(self).bus().handler_map().insert(
                old(self).next_subscription_id(), handler),
            r.target() == Some(old(self).next_subscription_id()),
    {
        self.events.register(key, handler)
    }
}

impl<T: ?Sized + ILifecycle, H> Architecture<T, H> {
    /// Registers a model under `key`. Before initialization its `init` is
    /// queued with the models; after it, `init` runs at once. Its `deinit`
    /// is queued with the models either way.
    pub fn register_model(&mut self, key: TypeId, model: Arc<T>) -> (r: Arc<T>)
        requires
            old(self).wf(),
        ensures
            final(self).wf(),
            r == model,
            final(self).objects() == old(self).objects().insert(key, model),
            final(self).objects().len() == old(self).objects().len()
                + (if old(self).objects().contains_key(key) { 0int } else { 1int }),
            final(self).model_deinit_queue() == old(self).model_deinit_queue().push(model),
            final(self).system_deinit_queue() == old(self).system_deinit_queue(),
            final(self).pending_system_inits() == old(self).pending_system_inits(),
            old(self).inited() ==> {
                &&& final(self).pending_model_inits() == old(self).pending_model_inits()
                &&& final(self).hooks() == old(self).hooks().push(LifecycleCall::Init(model))
            },
            !old(self).inited() ==> {
                &&& final(self).pending_model_inits() == old(self).pending_model_inits().push(model)
                &&& final(self).hooks() == old(self).hooks()
            },
            final(self).inited() == old(self).inited(),
            final(self).name_view() == old(self).name_view(),
            final(self).subscriptions() == old(self).subscriptions(),
            final(self).next_subscription_id() == old(self).next_subscription_id(),
    {
        self.ioc.register_arc(key, model.clone());
        if self.inited {
            let receipt = model.init();
            self.hook_receipts.push(receipt);
            proof {
                lemma_map_push(self.hook_log@, LifecycleCall::Init(model), |c: LifecycleCall<T>| c.receipt());
            }
            self.hook_log = Ghost(self.hook_log@.push(LifecycleCall::Init(model)));
        } else {
            self.model_inits.push(model.clone());
        }
        self.model_deinits.push(model.clone());
        model
    }

    /// Registers a system under `key`; it joins the second initialization
    /// batch and the first teardown batch.
    pub fn register_system(&mut self, key: TypeId, system: Arc<T>) -> (r: Arc<T>)
        requires
            old(self).wf(),
        ensures
            final(self).wf(),
            r == system,
            final(self).objects() == old(self).objects().insert(key, system),
            final(self).objects().len() == old(self).objects().len()
                + (if old(self).objects().contains_key(key) { 0int } else { 1int }),
            final(self).system_deinit_queue() == old(self).system_deinit_queue().push(system),
            final(self).model_deinit_queue() == old(self).model_deinit_queue(),
            final(self).pending_model_inits() == old(self).pending_model_inits(),
            old(self).inited() ==> {
                &&& final(self).pending_system_inits() == old(self).pending_system_inits()
                &&& final(self).hooks() == old(self).hooks().push(LifecycleCall::Init(system))
            },
            !old(self).inited() ==> {
                &&& final(self).pending_system_inits() == old(self).pending_system_inits().push(system)
                &&& final(self).hooks() == old(self).hooks()
            },
            final(self).inited() == old(self).inited(),
            final(self).name_view() == old(self).name_view(),
            final(self).subscriptions() == old(self).subscriptions(),
            final(self).next_subscription_id() == old(self).next_subscription_id(),
    {
        self.register_second_batch(key, system)
    }

    /// Registers a utility under `key`; utilities share the systems'
    /// initialization and teardown batches.
    pub fn register_utility(&mut self, key: TypeId, utility: Arc<T>) -> (r: Arc<T>)
        requires
            old(self).wf(),
        ensures
            final(self).wf(),
            r == utility,
            final(self).objects() == old(self).objects().insert(key, utility),
            final(self).objects().len() == old(self).objects().len()
                + (if old(self).objects().contains_key(key) { 0int } else { 1int }),
            final(self).system_deinit_queue() == old(self).system_deinit_queue().push(utility),
            final(self).model_deinit_queue() == old(self).model_deinit_queue(),
            final(self).pending_model_inits() == old(self).pending_model_inits(),
            old(self).inited() ==> {
                &&& final(self).pending_system_inits() == old(self).pending_system_inits()
                &&& final(self).hooks() == old(self).hooks().push(LifecycleCall::Init(utility))
            },
            !old(self).inited() ==> {
                &&& final(self).pending_system_inits() == old(self).pending_system_inits().push(utility)
                &&& final(self).hooks() == old(self).hooks()
            },
            final(self).inited() == old(self).inited(),
            final(self).name_view() == old(self).name_view(),
            final(self).subscriptions() == old(self).subscriptions(),
            final(self).next_subscription_id() == old(self).next_subscription_id(),
    {
        self.register_second_batch(key, utility)
    }

    fn register_second_batch(&mut self, key: TypeId, object: Arc<T>) -> (r: Arc<T>)
        requires
            old(self).wf(),
        ensures
            final(self).wf(),
            r == object,
            final(self).objects() == old(self).objects().insert(key, object),
            final(self).objects().len() == old(self).objects().len()
                + (if old(self).objects().contains_key(key) { 0int } else { 1int }),
            final(self).system_deinit_queue() == old(self).system_deinit_queue().push(object),
            final(self).model_deinit_queue() == old(self).model_deinit_queue(),
            final(self).pending_model_inits() == old(self).pending_model_inits(),
            old(self).inited() ==> {
                &&& final(self).pending_system_inits() == old(self).pending_system_inits()
                &&& final(self).hooks() == old(self).hooks().push(LifecycleCall::Init(object))
            },
            !old(self).inited() ==> {
                &&& final(self).pending_system_inits() == old(self).pending_system_inits().push(object)
                &&& final(self).hooks() == old(self).hooks()
            },
            final(self).inited() == old(self).inited(),
            final(self).name_view() == old(self).name_view(),
            final(self).subscriptions() == old(self).subscriptions(),
            final(self).next_subscription_id() == old(self).next_subscription_id(),
    {
        self.ioc.register_arc(key, object.clone());
        if self.inited {
            let receipt = object.init();
            self.hook_receipts.push(receipt);
            proof {
                lemma_map_push(self.hook_log@, LifecycleCall::Init(object), |c: LifecycleCall<T>| c.receipt());
            }
            self.hook_log = Ghost(self.hook_log@.push(LifecycleCall::Init(object)));
        } else {
            self.system_inits.push(object.clone());
        }
        self.system_deinits.push(object.clone());
        object
    }

    /// Runs `init` on each object of `batch`, in order, and records the
    /// calls.
    fn run_inits(
        batch: &Vec<Arc<T>>,
        log: &mut Ghost<Seq<LifecycleCall<T>>>,
        receipts: &mut Vec<<T as ILifecycle>::HookReceipt>,
    )
        requires
            old(receipts)@ == receipts_of(old(log)@),
        ensures
            final(log)@ == old(log)@ + inits(batch@),
            final(receipts)@ == receipts_of(final(log)@),
    {
        let n = batch.len();
        let mut i: usize = 0;
        while i < n
            invariant
                n == batch.len(),
                i <= n,
                log@ == old(log)@ + inits(batch@.take(i as int)),
                receipts@ == receipts_of(log@),
            decreases n - i,
        {
            let receipt = batch[i].init();
            receipts.push(receipt);
            proof {
                lemma_map_push(log@, LifecycleCall::Init(batch@[i as int]), |c: LifecycleCall<T>| c.receipt());
            }
            proof {
                assert(batch@.take(i + 1) =~= batch@.take(i as int).push(batch@[i as int]));
                assert(inits(batch@.take(i + 1)) =~= inits(batch@.take(i as int)).push(
                    LifecycleCall::Init(batch@[i as int]),
                ));
            }
            *log = Ghost(log@.push(LifecycleCall::Init(batch@[i as int])));
            i += 1;
        }
        proof {
            assert(batch@.take(n as int) =~= batch@);
        }
    }

    /// Runs `deinit` on each object of `batch`, in order, and records the
    /// calls.
    fn run_deinits(
        batch: &Vec<Arc<T>>,
        log: &mut Ghost<Seq<LifecycleCall<T>>>,
        receipts: &mut Vec<<T as ILifecycle>::HookReceipt>,
    )
        requires
            old(receipts)@ == receipts_of(old(log)@),
        ensures
            final(log)@ == old(log)@ + deinits(batch@),
            final(receipts)@ == receipts_of(final(log)@),
    {
        let n = batch.len();
        let mut i: usize = 0;
        while i < n
            invariant
                n == batch.len(),
                i <= n,
                log@ == old(log)@ + deinits(batch@.take(i as int)),
                receipts@ == receipts_of(log@),
            decreases n - i,
        {
            let receipt = batch[i].deinit();
            receipts.push(receipt);
            proof {
                lemma_map_push(log@, LifecycleCall::Deinit(batch@[i as int]), |c: LifecycleCall<T>| c.receipt());
            }
            proof {
                assert(batch@.take(i + 1) =~= batch@.take(i as int).push(batch@[i as int]));
                assert(deinits(batch@.take(i + 1)) =~= deinits(batch@.take(i as int)).push(
                    LifecycleCall::Deinit(batch@[i as int]),
                ));
            }
            *log = Ghost(log@.push(LifecycleCall::Deinit(batch@[i as int])));
            i += 1;
        }
        proof {
            assert(batch@.take(n as int) =~= batch@);
        }
    }

    /// Second phase of initialization: `init` on every pending model, then
    /// on every pending system and utility, each in registration order.
    /// Does nothing when already initialized.
    pub fn init(&mut self)
        requires
            old(self).wf(),
        ensures
            final(self).wf(),
            final(self).inited(),
            old(self).inited() ==> *final(self) == *old(self),
            final(self).hooks() == old(self).hooks() + inits(old(self).pending_model_inits())
                + inits(old(self).pending_system_inits()),
            final(self).pending_model_inits() == Seq::<Arc<T>>::empty(),
            final(self).pending_system_inits() == Seq::<Arc<T>>::empty(),
            final(self).objects() == old(self).objects(),
            final(self).model_deinit_queue() == old(self).model_deinit_queue(),
            final(self).system_deinit_queue() == old(self).system_deinit_queue(),
            final(self).name_view() == old(self).name_view(),
            final(self).subscriptions() == old(self).subscriptions(),
            final(self).next_subscription_id() == old(self).next_subscription_id(),
    {
        if self.inited {
            proof {
                assert(self.pending_model_inits() =~= Seq::<Arc<T>>::empty());
                assert(self.pending_system_inits() =~= Seq::<Arc<T>>::empty());
                assert(inits(self.pending_model_inits()) =~= Seq::<LifecycleCall<T>>::empty());
                assert(inits(self.pending_system_inits()) =~= Seq::<LifecycleCall<T>>::empty());
                assert(self.hooks() + Seq::<LifecycleCall<T>>::empty() + Seq::<LifecycleCall<T>>::empty() =~= self.hooks());
            }
            return;
        }
        self.inited = true;
        Self::run_inits(&self.model_inits, &mut self.hook_log, &mut self.hook_receipts);
        self.model_inits.clear();
        Self::run_inits(&self.system_inits, &mut self.hook_log, &mut self.hook_receipts);
        self.system_inits.clear();
        proof {
            assert(self.hooks() =~= old(self).hooks() + inits(old(self).pending_model_inits())
                + inits(old(self).pending_system_inits()));
        }
    }

    /// Teardown: `deinit` on every system and utility, then on every model,
    /// each in registration order; then the container and the event bus are
    /// emptied and the architecture counts as uninitialized. A second call
    /// runs no hook.
    pub fn deinit(&mut self)
        requires
            old(self).wf(),
        ensures
            final(self).wf(),
            !final(self).inited(),
            final(self).hooks() == old(self).hooks() + deinits(old(self).system_deinit_queue())
                + deinits(old(self).model_deinit_queue()),
            final(self).model_deinit_queue() == Seq::<Arc<T>>::empty(),
            final(self).system_deinit_queue() == Seq::<Arc<T>>::empty(),
            final(self).objects() == Map::<TypeId, Arc<T>>::empty(),
            final(self).subscriptions() == Seq::<(TypeId, u64)>::empty(),
            final(self).next_subscription_id() == old(self).next_subscription_id(),
            final(self).pending_model_inits() == old(self).pending_model_inits(),
            final(self).pending_system_inits() == old(self).pending_system_inits(),
            final(self).name_view() == old(self).name_view(),
    {
        Self::run_deinits(&self.system_deinits, &mut self.hook_log, &mut self.hook_receipts);
        self.system_deinits.clear();
        Self::run_deinits(&self.model_deinits, &mut self.hook_log, &mut self.hook_receipts);
        self.model_deinits.clear();
        self.ioc.clear();
        self.events.clear();
        self.inited = false;
        proof {
            assert(self.hooks() =~= old(self).hooks() + deinits(old(self).system_deinit_queue())
                + deinits(old(self).model_deinit_queue()));
        }
    }
}

impl<T: ?Sized + ILifecycle, H> ISubscriptionOwner for Architecture<T, H> {
    open spec fn live_ids(&self) -> Set<u64> {
        self.bus().live_ids()
    }

    open spec fn owner_wf(&self) -> bool {
        self.wf()
    }

    open spec fn same_apart_from_subscriptions(&self, other: &Self) -> bool {
        &&& self.same_except_subscriptions(other)
        &&& self.bus().same_apart_from_subscriptions(&other.bus())
    }

    proof fn lemma_same_apart_from_subscriptions(a: &Self, b: &Self, c: &Self) {
        TypeEventSystem::<H>::lemma_same_apart_from_subscriptions(&a.bus(), &b.bus(), &c.bus());
    }

    fn unregister_id(&mut self, id: u64) {
        self.events.unregister_id(id);
    }
}

/// Custom registration code that a builder runs after every model, system
/// and utility registration and before initialization. It is handed an
/// uninitialized architecture that has run no hook yet, and leaves it so:
/// it may register further objects and subscribe to events, but it keeps
/// the objects already registered.
pub trait IPatch<T: ?Sized + ILifecycle, H> {
    /// What applying the patch to `before` leaves in `after`, as far as
    /// the patch describes its effect; one that describes nothing more than
    /// the contract of `apply` leaves it open.
    open spec fn applied(&self, before: Architecture<T, H>, after: Architecture<T, H>) -> bool {
        true
    }

    /// Applies the patch to `architecture`.
    fn apply(&self, architecture: &mut Architecture<T, H>)
        requires
            old(architecture).wf(),
            old(architecture).in_registration(),
        ensures
            self.applied(*old(architecture), *final(architecture)),
            final(architecture).wf(),
            final(architecture).in_registration(),
            final(architecture).name_view() == old(architecture).name_view(),
            old(architecture).objects().dom().subset_of(final(architecture).objects().dom()),
            old(architecture).model_deinit_queue().is_prefix_of(final(architecture).model_deinit_queue()),
            old(architecture).system_deinit_queue().is_prefix_of(final(architecture).system_deinit_queue()),
    ;
}

/// The patch type of a builder that is given no patch; applying it changes
/// nothing.
pub struct NoPatch;

impl<T: ?Sized + ILifecycle, H> IPatch<T, H> for NoPatch {
    fn apply(&self, architecture: &mut Architecture<T, H>) {
        proof {
            assert(architecture.model_deinit_queue().subrange(0, architecture.model_deinit_queue().len() as int)
                =~= architecture.model_deinit_queue());
            assert(architecture.system_deinit_queue().subrange(0, architecture.system_deinit_queue().len() as int)
                =~= architecture.system_deinit_queue());
        }
    }
}

/// One registration recorded by the builder.
pub enum Registration<T: ?Sized, P> {
    /// A model under its key.
    Model(TypeId, Arc<T>),
    /// A system under its key.
    System(TypeId, Arc<T>),
    /// A utility under its key.
    Utility(TypeId, Arc<T>),
    /// Custom registration code.
    Patch(P),
}

/// Whether any of the registrations is a patch.
pub open spec fn has_patch<T: ?Sized, P>(regs: Seq<Registration<T, P>>) -> bool {
    exists|i: int| 0 <= i < regs.len() && regs[i] is Patch
}

/// The object each key holds after the registrations, in order.
pub open spec fn registered_objects<T: ?Sized, P>(regs: Seq<Registration<T, P>>) -> Map<TypeId, Arc<T>>
    decreases regs.len(),
{
    if regs.len() == 0 {
        Map::empty()
    } else {
        let before = registered_objects(regs.drop_last());
        match regs.last() {
            Registration::Model(k, o) => before.insert(k, o),
            Registration::System(k, o) => before.insert(k, o),
            Registration::Utility(k, o) => before.insert(k, o),
            Registration::Patch(_) => before,
        }
    }
}

/// The models among the registrations, in order.
pub open spec fn model_batch<T: ?Sized, P>(regs: Seq<Registration<T, P>>) -> Seq<Arc<T>>
    decreases regs.len(),
{
    if regs.len() == 0 {
        Seq::empty()
    } else {
        let before = model_batch(regs.drop_last());
        match regs.last() {
            Registration::Model(_, o) => before.push(o),
            _ => before,
        }
    }
}

/// The systems and utilities among the registrations, in order.
pub open spec fn system_batch<T: ?Sized, P>(regs: Seq<Registration<T, P>>) -> Seq<Arc<T>>
    decreases regs.len(),
{
    if regs.len() == 0 {
        Seq::empty()
    } else {
        let before = system_batch(regs.drop_last());
        match regs.last() {
            Registration::System(_, o) => before.push(o),
            Registration::Utility(_, o) => before.push(o),
            _ => before,
        }
    }
}

/// The patches among the registrations, in order.
pub open spec fn patches_of<T: ?Sized, P>(regs: Seq<Registration<T, P>>) -> Seq<P>
    decreases regs.len(),
{
    if regs.len() == 0 {
        Seq::empty()
    } else {
        let before = patches_of(regs.drop_last());
        match regs.last() {
            Registration::Patch(p) => before.push(p),
            _ => before,
        }
    }
}

/// `states` are the architectures that applying `patches` one after the
/// other, in order, passes through: `states[k + 1]` is what `patches[k]`
/// left of `states[k]`. Each step keeps the objects' keys and extends both
/// deinit queues at their end, so the final queues are the first ones
/// followed by what each patch added, patch by patch.
pub open spec fn applied_in_order<T: ?Sized + ILifecycle, H, P: IPatch<T, H>>(
    patches: Seq<P>,
    states: Seq<Architecture<T, H>>,
) -> bool {
    &&& states.len() == patches.len() + 1
    &&& forall|k: int| 0 <= k < patches.len() ==> {
        &&& #[trigger] patches[k].applied(states[k], states[k + 1])
        &&& states[k + 1].wf()
        &&& states[k + 1].in_registration()
        &&& states[k].objects().dom().subset_of(states[k + 1].objects().dom())
        &&& states[k].model_deinit_queue().is_prefix_of(states[k + 1].model_deinit_queue())
        &&& states[k].system_deinit_queue().is_prefix_of(states[k + 1].system_deinit_queue())
    }
}

/// Records the objects of an architecture and builds it.
pub struct ArchitectureBuilder<T: ?Sized, P> {
    name: &'static str,
    registrations: Vec<Registration<T, P>>,
}

impl<T: ?Sized, P> ArchitectureBuilder<T, P> {
    /// The name the architecture will have.
    pub closed spec fn name_view(&self) -> Seq<char> {
        self.name@
    }

    /// The registrations, in the order they will run.
    pub closed spec fn registrations(&self) -> Seq<Registration<T, P>> {
        self.registrations@
    }

    /// A builder for an architecture named `name`, with no registration.
    pub fn new(name: &'static str) -> (r: ArchitectureBuilder<T, P>)
        ensures
            r.name_view() == name@,
            r.registrations() == Seq::<Registration<T, P>>::empty(),
    {
        ArchitectureBuilder { name, registrations: Vec::new() }
    }

    /// Adds a model under `key`.
    pub fn model(self, key: TypeId, model: Arc<T>) -> (r: ArchitectureBuilder<T, P>)
        ensures
            r.name_view() == self.name_view(),
            r.registrations() == self.registrations().push(Registration::Model(key, model)),
    {
        let mut b = self;
        b.registrations.push(Registration::Model(key, model));
        b
    }

    /// Adds a system under `key`.
    pub fn system(self, key: TypeId, system: Arc<T>) -> (r: ArchitectureBuilder<T, P>)
        ensures
            r.name_view() == self.name_view(),
            r.registrations() == self.registrations().push(Registration::System(key, system)),
    {
        let mut b = self;
        b.registrations.push(Registration::System(key, system));
        b
    }

    /// Adds a utility under `key`.
    pub fn utility(self, key: TypeId, utility: Arc<T>) -> (r: ArchitectureBuilder<T, P>)
        ensures
            r.name_view() == self.name_view(),
            r.registrations() == self.registrations().push(Registration::Utility(key, utility)),
    {
        let mut b = self;
        b.registrations.push(Registration::Utility(key, utility));
        b
    }

    /// Adds custom registration code; it runs after the registrations added
    /// before it and before initialization.
    pub fn patch(self, patch: P) -> (r: ArchitectureBuilder<T, P>)
        ensures
            r.name_view() == self.name_view(),
            r.registrations() == self.registrations().push(Registration::Patch(patch)),
    {
        let mut b = self;
        b.registrations.push(Registration::Patch(patch));
        b
    }
}

impl<T: ?Sized + ILifecycle, P> ArchitectureBuilder<T, P> {
    /// Creates the architecture, runs the model, system and utility
    /// registrations in order, then the patches in order, then both phases
    /// of initialization: `init` on every model, then on every system and
    /// utility, each in registration order. Without patches, the result
    /// holds exactly the registered objects. What the patches register
    /// comes after every registered object in both batches, since the
    /// patches run after the registrations.
    pub fn build<H>(self) -> (r: Architecture<T, H>)
        where P: IPatch<T, H>,
        ensures
            r.wf(),
            r.inited(),
            r.name_view() == self.name_view(),
            r.pending_model_inits() == Seq::<Arc<T>>::empty(),
            r.pending_system_inits() == Seq::<Arc<T>>::empty(),
            r.hooks() == inits(r.model_deinit_queue()) + inits(r.system_deinit_queue()),
            model_batch(self.registrations()).is_prefix_of(r.model_deinit_queue()),
            system_batch(self.registrations()).is_prefix_of(r.system_deinit_queue()),
            registered_objects(self.registrations()).dom().subset_of(r.objects().dom()),
            exists|states: Seq<Architecture<T, H>>| {
                &&& applied_in_order(patches_of(self.registrations()), states)
                &&& states[0].wf()
                &&& states[0].in_registration()
                &&& states[0].name_view() == self.name_view()
                &&& states[0].objects() == registered_objects(self.registrations())
                &&& states[0].model_deinit_queue() == model_batch(self.registrations())
                &&& states[0].system_deinit_queue() == system_batch(self.registrations())
                &&& states[0].subscriptions() == Seq::<(TypeId, u64)>::empty()
                &&& states[0].next_subscription_id() == 0
                &&& states.last().objects() == r.objects()
                &&& states.last().model_deinit_queue() == r.model_deinit_queue()
                &&& states.last().system_deinit_queue() == r.system_deinit_queue()
                &&& states.last().subscriptions() == r.subscriptions()
                &&& states.last().next_subscription_id() == r.next_subscription_id()
            },
            !has_patch(self.registrations()) ==> {
                &&& r.objects() == registered_objects(self.registrations())
                &&& r.model_deinit_queue() == model_batch(self.registrations())
                &&& r.system_deinit_queue() == system_batch(self.registrations())
                &&& r.subscriptions() == Seq::<(TypeId, u64)>::empty()
                &&& r.next_subscription_id() == 0
            },
    {
        let mut architecture: Architecture<T, H> = Architecture::new(self.name);
        let regs = &self.registrations;
        let n = regs.len();
        let mut i: usize = 0;
        while i < n
            invariant
                n == regs@.len(),
                regs@ == self.registrations(),
                i <= n,
                architecture.wf(),
                architecture.name_view() == self.name_view(),
                architecture.in_registration(),
                architecture.objects() == registered_objects(regs@.take(i as int)),
                architecture.model_deinit_queue() == model_batch(regs@.take(i as int)),
                architecture.system_deinit_queue() == system_batch(regs@.take(i as int)),
                architecture.subscriptions() == Seq::<(TypeId, u64)>::empty(),
                architecture.next_subscription_id() == 0,
            decreases n - i,
        {
            proof {
                let t = regs@.take(i + 1);
                assert(t.drop_last() =~= regs@.take(i as int));
                assert(t.last() == regs@[i as int]);
            }
            match &regs[i] {
                Registration::Model(key, model) => {
                    architecture.register_model(*key, model.clone());
                },
                Registration::System(key, system) => {
                    architecture.register_system(*key, system.clone());
                },
                Registration::Utility(key, utility) => {
                    architecture.register_utility(*key, utility.clone());
                },
                Registration::Patch(_) => {},
            }
            i += 1;
        }
        proof {
            assert(regs@.take(n as int) =~= regs@);
            let m = architecture.model_deinit_queue();
            let q = architecture.system_deinit_queue();
            assert(m.subrange(0, m.len() as int) =~= m);
            assert(q.subrange(0, q.len() as int) =~= q);
        }
        let ghost registered = architecture.objects();
        let ghost start = architecture;
        let ghost mut states: Seq<Architecture<T, H>> = seq![architecture];
        let mut j: usize = 0;
        while j < n
            invariant
                n == regs@.len(),
                regs@ == self.registrations(),
                j <= n,
                start.wf(),
                start.in_registration(),
                start.name_view() == self.name_view(),
                start.objects() == registered_objects(regs@),
                start.model_deinit_queue() == model_batch(regs@),
                start.system_deinit_queue() == system_batch(regs@),
                start.subscriptions() == Seq::<(TypeId, u64)>::empty(),
                start.next_subscription_id() == 0,
                applied_in_order(patches_of(regs@.take(j as int)), states),
                states[0] == start,
                states.last() == architecture,
                architecture.wf(),
                architecture.name_view() == self.name_view(),
                architecture.in_registration(),
                registered == registered_objects(regs@),
                registered.dom().subset_of(architecture.objects().dom()),
                model_batch(regs@).is_prefix_of(architecture.model_deinit_queue()),
                system_batch(regs@).is_prefix_of(architecture.system_deinit_queue()),
                !has_patch(regs@) ==> {
                    &&& architecture.objects() == registered_objects(regs@)
                    &&& architecture.model_deinit_queue() == model_batch(regs@)
                    &&& architecture.system_deinit_queue() == system_batch(regs@)
                    &&& architecture.subscriptions() == Seq::<(TypeId, u64)>::empty()
                    &&& architecture.next_subscription_id() == 0
                },
            decreases n - j,
        {
            proof {
                let t = regs@.take(j + 1);
                assert(t.drop_last() =~= regs@.take(j as int));
                assert(t.last() == regs@[j as int]);
            }
            match &regs[j] {
                Registration::Patch(patch) => {
                    proof {
                        assert(regs@[j as int] is Patch);
                    }
                    let ghost before = architecture;
                    let ghost done = patches_of(regs@.take(j as int));
                    patch.apply(&mut architecture);
                    proof {
                        lemma_prefix_trans(model_batch(regs@), before.model_deinit_queue(), architecture.model_deinit_queue());
                        lemma_prefix_trans(system_batch(regs@), before.system_deinit_queue(), architecture.system_deinit_queue());
                        let next = states.push(architecture);
                        let all = done.push(*patch);
                        assert(patches_of(regs@.take(j + 1)) == all);
                        assert forall|k: int| 0 <= k < all.len() implies {
                            &&& #[trigger] all[k].applied(next[k], next[k + 1])
                            &&& next[k + 1].wf()
                            &&& next[k + 1].in_registration()
                            &&& next[k].objects().dom().subset_of(next[k + 1].objects().dom())
                            &&& next[k].model_deinit_queue().is_prefix_of(next[k + 1].model_deinit_queue())
                            &&& next[k].system_deinit_queue().is_prefix_of(next[k + 1].system_deinit_queue())
                        } by {
                            if k < done.len() {
                                assert(all[k] == done[k]);
                                assert(next[k] == states[k]);
                                assert(next[k + 1] == states[k + 1]);
                            } else {
                                assert(all[k] == *patch);
                                assert(next[k] == before);
                                assert(next[k + 1] == architecture);
                            }
                        }
                        states = next;
                    }
                },
                _ => {
                    proof {
                        assert(patches_of(regs@.take(j + 1)) == patches_of(regs@.take(j as int)));
                    }
                },
            }
            j += 1;
        }
        proof {
            assert(regs@.take(n as int) =~= regs@);
        }
        architecture.init();
        proof {
            assert(Seq::<LifecycleCall<T>>::empty() + inits(architecture.model_deinit_queue())
                =~= inits(architecture.model_deinit_queue()));
        }
        architecture
    }
}

/// Along patches applied in order, what an earlier patch left stays at the
/// front of what every later one leaves: the keys stay registered, and
/// both deinit queues only grow at their end, so what patch `k` added
/// comes before what patch `k + 1` added.
pub proof fn law_patches_extend_in_order<T: ?Sized + ILifecycle, H, P: IPatch<T, H>>(
    patches: Seq<P>,
    states: Seq<Architecture<T, H>>,
    k: int,
    l: int,
)
    requires
        applied_in_order(patches, states),
        0 <= k <= l < states.len(),
    ensures
        states[k].objects().dom().subset_of(states[l].objects().dom()),
        states[k].model_deinit_queue().is_prefix_of(states[l].model_deinit_queue()),
        states[k].system_deinit_queue().is_prefix_of(states[l].system_deinit_queue()),
    decreases l - k,
{
    if k == l {
        let m = states[k].model_deinit_queue();
        let q = states[k].system_deinit_queue();
        assert(m.subrange(0, m.len() as int) =~= m);
        assert(q.subrange(0, q.len() as int) =~= q);
    } else {
        law_patches_extend_in_order(patches, states, k, l - 1);
        assert(patches[l - 1].applied(states[l - 1], states[l - 1 + 1]));
        lemma_prefix_trans(states[k].model_deinit_queue(), states[l - 1].model_deinit_queue(), states[l].model_deinit_queue());
        lemma_prefix_trans(states[k].system_deinit_queue(), states[l - 1].system_deinit_queue(), states[l].system_deinit_queue());
    }
}

/// A prefix of a prefix is a prefix.
proof fn lemma_prefix_trans<A>(a: Seq<A>, b: Seq<A>, c: Seq<A>)
    requires
        a.is_prefix_of(b),
        b.is_prefix_of(c),
    ensures
        a.is_prefix_of(c),
{
    assert forall|k: int| 0 <= k < a.len() implies #[trigger] c[k] == a[k] by {
        assert(a[k] == b.subrange(0, a.len() as int)[k]);
        assert(b[k] == c.subrange(0, b.len() as int)[k]);
    }
    assert(c.subrange(0, a.len() as int) =~= a);
}

} // verus!
