//! The contexts commands and queries run in.
//!
//! A command may read models and systems, send events and send further
//! commands; it cannot subscribe to events or read utilities. A query may
//! read models, systems and utilities and nothing else.
use vstd::prelude::*;

use crate::architecture::Architecture;
use crate::layers::{
    ICanGetArchitecture, ILifecycle, ICanGetModel, ICanGetSystem, ICanGetUtility, ICanSendCommand,
    ICanSendEvent,
};

verus! {

/// What a command runs in.
pub struct CommandContext<'a, T: ?Sized + ILifecycle, H> {
    architecture: &'a Architecture<T, H>,
}

impl<'a, T: ?Sized + ILifecycle, H> CommandContext<'a, T, H> {
    /// A context on `architecture`.
    pub fn new(architecture: &'a Architecture<T, H>) -> (r: CommandContext<'a, T, H>)
        ensures
            r.held() == *architecture,
    {
        CommandContext { architecture }
    }

    /// The architecture the command runs against.
    pub fn arch(&self) -> (r: &Architecture<T, H>)
        ensures
            *r == self.held(),
    {
        self.architecture
    }
}

impl<'a, T: ?Sized + ILifecycle, H> ICanGetArchitecture<T, H> for CommandContext<'a, T, H> {
    closed spec fn held(&self) -> Architecture<T, H> {
        *self.architecture
    }

    fn architecture(&self) -> (r: &Architecture<T, H>) {
        self.architecture
    }
}

impl<'a, T: ?Sized + ILifecycle, H> ICanGetModel for CommandContext<'a, T, H> {
}

impl<'a, T: ?Sized + ILifecycle, H> ICanGetSystem for CommandContext<'a, T, H> {
}

impl<'a, T: ?Sized + ILifecycle, H> ICanSendEvent for CommandContext<'a, T, H> {
}

impl<'a, T: ?Sized + ILifecycle, H> ICanSendCommand for CommandContext<'a, T, H> {
}

/// What a query runs in.
pub struct QueryContext<'a, T: ?Sized + ILifecycle, H> {
    architecture: &'a Architecture<T, H>,
}

impl<'a, T: ?Sized + ILifecycle, H> QueryContext<'a, T, H> {
    /// A context on `architecture`.
    pub fn new(architecture: &'a Architecture<T, H>) -> (r: QueryContext<'a, T, H>)
        ensures
            r.held() == *architecture,
    {
        QueryContext { architecture }
    }

    /// The architecture the query reads.
    pub fn arch(&self) -> (r: &Architecture<T, H>)
        ensures
            *r == self.held(),
    {
        self.architecture
    }
}

impl<'a, T: ?Sized + ILifecycle, H> ICanGetArchitecture<T, H> for QueryContext<'a, T, H> {
    closed spec fn held(&self) -> Architecture<T, H> {
        *self.architecture
    }

    fn architecture(&self) -> (r: &Architecture<T, H>) {
        self.architecture
    }
}

impl<'a, T: ?Sized + ILifecycle, H> ICanGetModel for QueryContext<'a, T, H> {
}

impl<'a, T: ?Sized + ILifecycle, H> ICanGetSystem for QueryContext<'a, T, H> {
}

impl<'a, T: ?Sized + ILifecycle, H> ICanGetUtility for QueryContext<'a, T, H> {
}

} // verus!
