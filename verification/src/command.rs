//! Commands: the place where application state changes.
use vstd::prelude::*;

use crate::architecture::Architecture;
use crate::context::CommandContext;
use crate::layers::{ICanGetArchitecture, ILifecycle};

verus! {

/// A command. It holds only its own arguments and does its work through the
/// [`CommandContext`] it is handed.
pub trait ICommand<T: ?Sized + ILifecycle, H> {
    /// What running the command yields.
    type Output;

    /// Whether `output` is what the command yields when it runs against
    /// `architecture`. A command states this of itself; one that does not
    /// promises nothing of its output.
    open spec fn yields(&self, architecture: Architecture<T, H>, output: Self::Output) -> bool {
        true
    }

    /// Runs the command; it is handed a context on a consistent
    /// architecture.
    fn execute(&self, context: &CommandContext<'_, T, H>) -> (r: Self::Output)
        requires
            context.held().wf(),
        ensures
            self.yields(context.held(), r),
    ;
}

} // verus!
