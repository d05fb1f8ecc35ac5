//! Queries: read-only access to application state.
use vstd::prelude::*;

use crate::architecture::Architecture;
use crate::context::QueryContext;
use crate::layers::{ICanGetArchitecture, ILifecycle};

verus! {

/// A query. It reads through the [`QueryContext`] it is handed and has no
/// side effects.
pub trait IQuery<T: ?Sized + ILifecycle, H> {
    /// What the query yields.
    type Result;

    /// Whether `result` is what the query yields when it reads
    /// `architecture`. A query states this of itself; one that does not
    /// promises nothing of its result.
    open spec fn answers(&self, architecture: Architecture<T, H>, result: Self::Result) -> bool {
        true
    }

    /// Runs the query; it is handed a context on a consistent
    /// architecture.
    fn do_query(&self, context: &QueryContext<'_, T, H>) -> (r: Self::Result)
        requires
            context.held().wf(),
        ensures
            self.answers(context.held(), r),
    ;
}

} // verus!
