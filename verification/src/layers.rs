//! The four layers and the capabilities each of them has.
//!
//! Which object may do what is a matter of which capability traits it
//! implements: a model can use utilities and send events; a system can also
//! read models and systems and subscribe to events; a controller can read
//! models and systems, send commands and queries and subscribe to events; a
//! utility can do none of these. The capability methods act on the
//! architecture the caller hands them.
use std::any::TypeId;
use std::sync::Arc;
use vstd::prelude::*;

use crate::architecture::Architecture;
use crate::command::ICommand;
use crate::event::IEventHandler;
use crate::query::IQuery;
use crate::unregister::IUnRegister;

verus! {

/// A slot that is bound to an architecture handle at most once: the first
/// binding wins and later ones are ignored.
#[derive(Clone)]
pub struct ArchRef<A> {
    slot: Option<A>,
}

impl<A> ArchRef<A> {
    /// The handle bound, if any.
    pub closed spec fn bound(&self) -> Option<A> {
        self.slot
    }

    /// An unbound slot.
    pub fn new() -> (r: ArchRef<A>)
        ensures
            r.bound() is None,
    {
        ArchRef { slot: None }
    }

    /// Binds the slot to `architecture` unless it is bound already.
    pub fn set(&mut self, architecture: A)
        ensures
            final(self).bound() == (match old(self).bound() {
                Some(a) => Some(a),
                None => Some(architecture),
            }),
    {
        if self.slot.is_none() {
            self.slot = Some(architecture);
        }
    }

    /// The bound handle; the slot must be bound.
    pub fn get(&self) -> (r: &A)
        requires
            self.bound() is Some,
        ensures
            Some(*r) == self.bound(),
    {
        self.slot.as_ref().unwrap()
    }

    /// The bound handle, if any.
    pub fn try_get(&self) -> (r: Option<&A>)
        ensures
            match r {
                Some(a) => self.bound() == Some(*a),
                None => self.bound() is None,
            },
    {
        match &self.slot {
            Some(a) => Some(a),
            None => None,
        }
    }

    /// Whether the slot is bound.
    pub fn is_bound(&self) -> (r: bool)
        ensures
            r == (self.bound() is Some),
    {
        self.slot.is_some()
    }
}

impl<A> Default for ArchRef<A> {
    /// An unbound slot.
    fn default() -> (r: ArchRef<A>)
        ensures
            r.bound() is None,
    {
        ArchRef::new()
    }
}

/// Gives access to an object's [`ArchRef`].
pub trait HasArchRef<A> {
    /// The object's slot.
    spec fn arch_slot(&self) -> ArchRef<A>;

    /// The slot that holds the object's architecture handle.
    fn arch_ref(&self) -> (r: &ArchRef<A>)
        ensures
            *r == self.arch_slot(),
    ;

    /// Binds the object's slot to `handle`, unless it is bound already.
    fn bind_arch(&mut self, handle: A)
        ensures
            final(self).arch_slot().bound() == (match old(self).arch_slot().bound() {
                Some(a) => Some(a),
                None => Some(handle),
            }),
    ;
}

/// The lifecycle hooks every layer object has. Each hook gives back a
/// receipt, so that whoever runs the hooks can show that it did.
pub trait ILifecycle {
    /// What running a hook gives back.
    type HookReceipt;

    /// What `init` gives back.
    spec fn init_receipt(&self) -> Self::HookReceipt;

    /// What `deinit` gives back.
    spec fn deinit_receipt(&self) -> Self::HookReceipt;

    /// Called when the architecture initializes the object.
    fn init(&self) -> (r: Self::HookReceipt)
        ensures
            r == self.init_receipt(),
    ;

    /// Called when the architecture tears the object down.
    fn deinit(&self) -> (r: Self::HookReceipt)
        ensures
            r == self.deinit_receipt(),
    ;
}

/// Holds an architecture it can hand out.
pub trait ICanGetArchitecture<T: ?Sized + ILifecycle, H> {
    /// The architecture held.
    spec fn held(&self) -> Architecture<T, H>;

    /// The architecture held.
    fn architecture(&self) -> (r: &Architecture<T, H>)
        ensures
            *r == self.held(),
    ;
}

/// May read models.
pub trait ICanGetModel {
    /// The model registered under `key`, which must be registered.
    fn get_model<T: ?Sized + ILifecycle, H>(&self, architecture: &Architecture<T, H>, key: TypeId) -> (r: Arc<T>)
        requires
            architecture.wf(),
            architecture.objects().contains_key(key),
        ensures
            r == architecture.objects()[key],
    {
        architecture.get_model(key)
    }

    /// The model registered under `key`, if any.
    fn try_get_model<T: ?Sized + ILifecycle, H>(&self, architecture: &Architecture<T, H>, key: TypeId) -> (r: Option<Arc<T>>)
        requires
            architecture.wf(),
        ensures
            r == architecture.lookup(key),
    {
        architecture.try_get_model(key)
    }
}

/// May read systems.
pub trait ICanGetSystem {
    /// The system registered under `key`, which must be registered.
    fn get_system<T: ?Sized + ILifecycle, H>(&self, architecture: &Architecture<T, H>, key: TypeId) -> (r: Arc<T>)
        requires
            architecture.wf(),
            architecture.objects().contains_key(key),
        ensures
            r == architecture.objects()[key],
    {
        architecture.get_system(key)
    }
}

/// May read utilities.
pub trait ICanGetUtility {
    /// The utility registered under `key`, which must be registered.
    fn get_utility<T: ?Sized + ILifecycle, H>(&self, architecture: &Architecture<T, H>, key: TypeId) -> (r: Arc<T>)
        requires
            architecture.wf(),
            architecture.objects().contains_key(key),
        ensures
            r == architecture.objects()[key],
    {
        architecture.get_utility(key)
    }
}

/// May send commands.
pub trait ICanSendCommand {
    /// Runs `command` against `architecture` and returns its output.
    fn send_command<T: ?Sized + ILifecycle, H, C: ICommand<T, H>>(&self, architecture: &Architecture<T, H>, command: C) -> (r: C::Output)
        requires
            architecture.wf(),
        ensures
            command.yields(*architecture, r),
    {
        architecture.send_command(command)
    }
}

/// May send queries.
pub trait ICanSendQuery {
    /// Runs `query` against `architecture` and returns its result.
    fn send_query<T: ?Sized + ILifecycle, H, Q: IQuery<T, H>>(&self, architecture: &Architecture<T, H>, query: Q) -> (r: Q::Result)
        requires
            architecture.wf(),
        ensures
            query.answers(*architecture, r),
    {
        architecture.send_query(query)
    }
}

/// May send events.
pub trait ICanSendEvent {
    /// Sends `event` on channel `key` of `architecture` and returns what
    /// each subscriber gave back.
    fn send_event<T: ?Sized + ILifecycle, H: IEventHandler<E>, E: ?Sized>(&self, architecture: &Architecture<T, H>, key: TypeId, event: &E) -> (r: Vec<<H as IEventHandler<E>>::Receipt>)
        requires
            architecture.wf(),
        ensures
            r@.len() == architecture.bus().listeners(key).len(),
            forall|i: int| 0 <= i < r@.len() ==> #[trigger] r@[i]
                == architecture.bus().handler_of(architecture.bus().listeners(key)[i]).receipt(event),
    {
        architecture.send_event(key, event)
    }

    /// Sends `E::default()` on channel `key` of `architecture`.
    fn send_event_default<T: ?Sized + ILifecycle, H: IEventHandler<E>, E: Default>(&self, architecture: &Architecture<T, H>, key: TypeId) -> (r: Vec<<H as IEventHandler<E>>::Receipt>)
        requires
            architecture.wf(),
        ensures
            r@.len() == architecture.bus().listeners(key).len(),
            exists|e: E| call_ensures(E::default, (), e) && forall|i: int| 0 <= i < r@.len()
                ==> #[trigger] r@[i] == architecture.bus().handler_of(architecture.bus().listeners(key)[i]).receipt(&e),
    {
        architecture.send_event_default::<E>(key)
    }
}

/// May subscribe to events.
pub trait ICanRegisterEvent {
    /// Subscribes `handler` to channel `key` of `architecture`.
    fn register_event<T: ?Sized + ILifecycle, H>(&self, architecture: &mut Architecture<T, H>, key: TypeId, handler: H) -> (r: IUnRegister)
        requires
            old(architecture).wf(),
            old(architecture).next_subscription_id() < u64::MAX,
        ensures
            final(architecture).wf(),
            final(architecture).subscriptions() == old(architecture).subscriptions().push(
                (key, old(architecture).next_subscription_id()),
            ),
            final(architecture).next_subscription_id() == old(architecture).next_subscription_id() + 1,
            final(architecture).same_except_subscriptions(old(architecture)),
            r.target() == Some(old(architecture).next_subscription_id()),
    {
        architecture.register_event(key, handler)
    }
}

/// The presentation layer: reads models and systems, sends commands and
/// queries, subscribes to events; it cannot send events.
pub trait IController: ILifecycle + ICanGetModel + ICanGetSystem + ICanSendCommand + ICanSendQuery + ICanRegisterEvent {
}

/// The logic layer: reads models, systems and utilities, sends and
/// subscribes to events.
pub trait ISystem: ILifecycle + ICanGetModel + ICanGetSystem + ICanGetUtility + ICanSendEvent + ICanRegisterEvent {
}

/// The data layer: uses utilities and sends events.
pub trait IModel: ILifecycle + ICanGetUtility + ICanSendEvent {
}

/// The infrastructure layer: has no access to the architecture.
pub trait IUtility: ILifecycle {
}

} // verus!
