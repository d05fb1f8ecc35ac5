//! Controllers driven once per frame.
use std::sync::Arc;
use std::time::Duration;
use vstd::prelude::*;

use crate::architecture::{LifecycleCall, deinits, receipts_of};
use crate::layers::ILifecycle;
use crate::seq_facts::lemma_map_push;

verus! {

/// A controller that runs once per frame. Each update gives back a
/// receipt, so that whoever drives the controllers can show that it did.
pub trait QControllerUpdate {
    /// What an update gives back.
    type UpdateReceipt;

    /// What an update with `delta` gives back.
    spec fn update_receipt(&self, delta: Duration) -> Self::UpdateReceipt;

    /// Called once per frame with the time the frame took.
    fn update(&self, delta: Duration) -> (r: Self::UpdateReceipt)
        ensures
            r == self.update_receipt(delta),
    ;
}

/// The `update` calls of one frame: every controller, in order, with the
/// frame's duration.
pub open spec fn frame_updates<C: ?Sized>(controllers: Seq<Arc<C>>, delta: Duration) -> Seq<(Arc<C>, Duration)> {
    controllers.map_values(|c: Arc<C>| (c, delta))
}

/// What a sequence of `update` calls gave back, in order.
pub open spec fn update_receipts_of<C: ?Sized + QControllerUpdate>(
    updates: Seq<(Arc<C>, Duration)>,
) -> Seq<<C as QControllerUpdate>::UpdateReceipt> {
    updates.map_values(|u: (Arc<C>, Duration)| u.0.update_receipt(u.1))
}

/// The registered controllers, in registration order.
pub struct QControllers<C: ?Sized + ILifecycle + QControllerUpdate> {
    entries: Vec<Arc<C>>,
    hook_log: Ghost<Seq<LifecycleCall<C>>>,
    update_log: Ghost<Seq<(Arc<C>, Duration)>>,
    hook_receipts: Vec<<C as ILifecycle>::HookReceipt>,
    update_receipts: Vec<<C as QControllerUpdate>::UpdateReceipt>,
}

impl<C: ?Sized + ILifecycle + QControllerUpdate> QControllers<C> {
    /// The controllers, in registration order.
    pub closed spec fn controllers(&self) -> Seq<Arc<C>> {
        self.entries@
    }

    /// Every lifecycle hook run on the controllers, in order.
    pub closed spec fn hooks(&self) -> Seq<LifecycleCall<C>> {
        self.hook_log@
    }

    /// Every `update` call made on the controllers, in order, with the
    /// duration it was given.
    pub closed spec fn updates(&self) -> Seq<(Arc<C>, Duration)> {
        self.update_log@
    }

    /// What the hooks run gave back, in order.
    pub closed spec fn hook_receipts(&self) -> Seq<<C as ILifecycle>::HookReceipt> {
        self.hook_receipts@
    }

    /// What the updates made gave back, in order.
    pub closed spec fn update_receipts(&self) -> Seq<<C as QControllerUpdate>::UpdateReceipt> {
        self.update_receipts@
    }

    /// Every hook and update in the logs was run and gave back its receipt.
    pub closed spec fn wf(&self) -> bool {
        &&& self.hook_receipts@ == receipts_of(self.hook_log@)
        &&& self.update_receipts@ == update_receipts_of(self.update_log@)
    }

    /// Every hook and update in the logs was run and gave back its receipt.
    pub proof fn lemma_calls_ran(&self)
        requires
            self.wf(),
        ensures
            self.hook_receipts() == receipts_of(self.hooks()),
            self.update_receipts() == update_receipts_of(self.updates()),
    {
    }

    /// No controller.
    pub fn new() -> (r: QControllers<C>)
        ensures
            r.wf(),
            r.controllers() == Seq::<Arc<C>>::empty(),
            r.hooks() == Seq::<LifecycleCall<C>>::empty(),
            r.updates() == Seq::<(Arc<C>, Duration)>::empty(),
    {
        let r = QControllers {
            entries: Vec::new(),
            hook_log: Ghost(Seq::empty()),
            update_log: Ghost(Seq::empty()),
            hook_receipts: Vec::new(),
            update_receipts: Vec::new(),
        };
        proof {
            assert(receipts_of(r.hook_log@) =~= r.hook_receipts@);
            assert(update_receipts_of(r.update_log@) =~= r.update_receipts@);
        }
        r
    }

    /// Number of controllers.
    pub fn len(&self) -> (r: usize)
        ensures
            r == self.controllers().len(),
    {
        self.entries.len()
    }

    /// Whether there is no controller.
    pub fn is_empty(&self) -> (r: bool)
        ensures
            r == (self.controllers().len() == 0),
    {
        self.entries.len() == 0
    }

    /// The controllers, in registration order.
    pub fn iter(&self) -> (r: &[Arc<C>])
        ensures
            r@ == self.controllers(),
    {
        self.entries.as_slice()
    }

    /// Forgets every controller without running `deinit`.
    pub fn clear(&mut self)
        requires
            old(self).wf(),
        ensures
            final(self).wf(),
            final(self).controllers() == Seq::<Arc<C>>::empty(),
            final(self).hooks() == old(self).hooks(),
            final(self).updates() == old(self).updates(),
    {
        self.entries.clear();
    }

    /// Runs `init` on `controller` and adds it after the others.
    pub fn add(&mut self, controller: Arc<C>)
        requires
            old(self).wf(),
        ensures
            final(self).wf(),
            final(self).controllers() == old(self).controllers().push(controller),
            final(self).hooks() == old(self).hooks().push(LifecycleCall::Init(controller)),
            final(self).updates() == old(self).updates(),
    {
        let receipt = controller.init();
        self.hook_receipts.push(receipt);
        proof {
            lemma_map_push(self.hook_log@, LifecycleCall::Init(controller), |c: LifecycleCall<C>| c.receipt());
        }
        self.hook_log = Ghost(self.hook_log@.push(LifecycleCall::Init(controller)));
        self.entries.push(controller);
    }

    /// Runs `deinit` on every controller, in registration order; the
    /// controllers stay registered.
    pub fn deinit_all(&mut self)
        requires
            old(self).wf(),
        ensures
            final(self).wf(),
            final(self).controllers() == old(self).controllers(),
            final(self).hooks() == old(self).hooks() + deinits(old(self).controllers()),
            final(self).updates() == old(self).updates(),
    {
        let n = self.entries.len();
        let mut i: usize = 0;
        while i < n
            invariant
                self.wf(),
                n == self.entries@.len(),
                i <= n,
                self.entries@ == old(self).entries@,
                self.update_log@ == old(self).update_log@,
                self.hook_log@ == old(self).hook_log@ + deinits(self.entries@.take(i as int)),
            decreases n - i,
        {
            let receipt = self.entries[i].deinit();
            self.hook_receipts.push(receipt);
            proof {
                assert(self.entries@.take(i + 1) =~= self.entries@.take(i as int).push(self.entries@[i as int]));
                assert(deinits(self.entries@.take(i + 1)) =~= deinits(self.entries@.take(i as int)).push(
                    LifecycleCall::Deinit(self.entries@[i as int]),
                ));
                lemma_map_push(self.hook_log@, LifecycleCall::Deinit(self.entries@[i as int]), |c: LifecycleCall<C>| c.receipt());
            }
            self.hook_log = Ghost(self.hook_log@.push(LifecycleCall::Deinit(self.entries@[i as int])));
            i += 1;
        }
        proof {
            assert(self.entries@.take(n as int) =~= self.entries@);
        }
    }

    /// Runs `update` on every controller, in registration order, with the
    /// frame's duration.
    pub fn update_all(&mut self, delta: Duration)
        requires
            old(self).wf(),
        ensures
            final(self).wf(),
            final(self).controllers() == old(self).controllers(),
            final(self).hooks() == old(self).hooks(),
            final(self).updates() == old(self).updates() + frame_updates(old(self).controllers(), delta),
    {
        let n = self.entries.len();
        let mut i: usize = 0;
        while i < n
            invariant
                self.wf(),
                n == self.entries@.len(),
                i <= n,
                self.entries@ == old(self).entries@,
                self.hook_log@ == old(self).hook_log@,
                self.update_log@ == old(self).update_log@ + frame_updates(self.entries@.take(i as int), delta),
            decreases n - i,
        {
            let receipt = self.entries[i].update(delta);
            self.update_receipts.push(receipt);
            proof {
                assert(self.entries@.take(i + 1) =~= self.entries@.take(i as int).push(self.entries@[i as int]));
                assert(frame_updates(self.entries@.take(i + 1), delta) =~= frame_updates(self.entries@.take(i as int), delta).push(
                    (self.entries@[i as int], delta),
                ));
                lemma_map_push(self.update_log@, (self.entries@[i as int], delta),
                    |u: (Arc<C>, Duration)| u.0.update_receipt(u.1));
            }
            self.update_log = Ghost(self.update_log@.push((self.entries@[i as int], delta)));
            i += 1;
        }
        proof {
            assert(self.entries@.take(n as int) =~= self.entries@);
        }
    }
}

impl<C: ?Sized + ILifecycle + QControllerUpdate> Default for QControllers<C> {
    /// No controller.
    fn default() -> (r: QControllers<C>)
        ensures
            r.wf(),
            r.controllers() == Seq::<Arc<C>>::empty(),
            r.hooks() == Seq::<LifecycleCall<C>>::empty(),
            r.updates() == Seq::<(Arc<C>, Duration)>::empty(),
    {
        QControllers::new()
    }
}

} // verus!
