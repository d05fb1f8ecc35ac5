//! A layered application framework: an architecture that owns typed layer
//! objects, a type-keyed event bus, observable containers and command/query
//! dispatch, each with its contract stated and proved.
//!
//! Event subscribers, lifecycle hooks and controller updates give back a
//! receipt for every call: the senders return the receipts, and the
//! architecture, the controllers and the observable containers keep them,
//! so the contracts say which calls were made, in which order.
//!
//! The architecture owns its objects and is changed through `&mut`; objects
//! are stored as shared handles of one type `T` (for instance a trait
//! object), keyed by the `TypeId` of their concrete type, and event
//! subscribers are values of one handler type `H`.
use vstd::prelude::*;

pub mod architecture;
pub mod bindable;
pub mod bridge;
pub mod command;
pub mod context;
pub mod controller;
pub mod event;
pub mod ioc;
pub mod layer;
pub mod laws;
pub mod layers;
pub mod query;
pub mod seq_facts;
pub mod unregister;

pub use architecture::{Architecture, ArchitectureBuilder, IPatch, LifecycleCall, NoPatch, Registration};
pub use bindable::{
    BindableDictionary, BindableList, BindableProperty, DictAdd, DictClear, DictCountChanged,
    DictRemove, DictReplace, ListAdd, ListClear, ListCountChanged, ListRemove,
};
pub use bridge::QEventBridge;
pub use command::ICommand;
pub use context::{CommandContext, QueryContext};
pub use controller::{QControllerUpdate, QControllers};
pub use event::{EasyEvent, IEventHandler, TypeEventSystem};
pub use ioc::IOCContainer;
pub use layer::Layer;
pub use layers::{
    ArchRef, HasArchRef, ICanGetArchitecture, ICanGetModel, ICanGetSystem, ICanGetUtility,
    ICanRegisterEvent, ICanSendCommand, ICanSendEvent, ICanSendQuery, IController, ILifecycle,
    IModel, ISystem, IUtility,
};
pub use query::IQuery;
pub use unregister::{ISubscriptionOwner, IUnRegister, IUnRegisterList};

verus! {
}
