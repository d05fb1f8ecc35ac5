//! Unsubscription handles.
//!
//! Every subscription (to an event channel or to an observable container)
//! yields an [`IUnRegister`] that names the subscription by its id. Handing
//! the handle back to the owner of the subscription removes it; doing so more
//! than once is harmless.
use vstd::prelude::*;

verus! {

/// Something that holds subscriptions identified by `u64` ids.
pub trait ISubscriptionOwner {
    /// The ids of the subscriptions that are currently live.
    spec fn live_ids(&self) -> Set<u64>;

    /// Whether the owner is in a consistent state.
    spec fn owner_wf(&self) -> bool;

    /// `self` and `other` agree on everything but which subscriptions are
    /// live: the data, the notifications sent so far and the ids to come.
    spec fn same_apart_from_subscriptions(&self, other: &Self) -> bool;

    /// Agreeing apart from subscriptions is reflexive and transitive.
    proof fn lemma_same_apart_from_subscriptions(a: &Self, b: &Self, c: &Self)
        ensures
            a.same_apart_from_subscriptions(a),
            a.same_apart_from_subscriptions(b) && b.same_apart_from_subscriptions(c)
                ==> a.same_apart_from_subscriptions(c),
    ;

    /// Removes the subscription with id `id`, if there is one; nothing else
    /// changes.
    fn unregister_id(&mut self, id: u64)
        requires
            old(self).owner_wf(),
        ensures
            final(self).owner_wf(),
            final(self).live_ids() == old(self).live_ids().remove(id),
            final(self).same_apart_from_subscriptions(&old(self)),
    ;
}

/// A handle that cancels one subscription.
#[derive(Clone, Copy, Debug, PartialEq, Eq)]
pub struct IUnRegister {
    id: Option<u64>,
}

impl IUnRegister {
    /// The subscription this handle cancels (`None` for an empty handle).
    pub closed spec fn target(&self) -> Option<u64> {
        self.id
    }

    /// A handle for the subscription with id `id`.
    pub fn new(id: u64) -> (r: IUnRegister)
        ensures
            r.target() == Some(id),
    {
        IUnRegister { id: Some(id) }
    }

    /// A handle that cancels nothing.
    pub fn empty() -> (r: IUnRegister)
        ensures
            r.target() is None,
    {
        IUnRegister { id: None }
    }

    /// The id of the subscription, if any.
    pub fn id(&self) -> (r: Option<u64>)
        ensures
            r == self.target(),
    {
        self.id
    }

    /// Cancels the subscription at `owner`; nothing else changes.
    /// Idempotent.
    pub fn unregister<O: ISubscriptionOwner>(&self, owner: &mut O)
        requires
            old(owner).owner_wf(),
        ensures
            final(owner).owner_wf(),
            final(owner).live_ids() == match self.target() {
                Some(id) => old(owner).live_ids().remove(id),
                None => old(owner).live_ids(),
            },
            final(owner).same_apart_from_subscriptions(&old(owner)),
    {
        match self.id {
            Some(id) => owner.unregister_id(id),
            None => {
                proof {
                    O::lemma_same_apart_from_subscriptions(&*owner, &*owner, &*owner);
                }
            },
        }
    }
}

/// The ids that a sequence of handles cancels.
pub open spec fn handle_targets(items: Seq<IUnRegister>) -> Set<u64> {
    Set::new(|id: u64| exists|i: int| 0 <= i < items.len() && items[i].target() == Some(id))
}

/// A list of handles that are cancelled together.
#[derive(Debug)]
pub struct IUnRegisterList {
    items: Vec<IUnRegister>,
}

impl IUnRegisterList {
    /// The handles held, in the order they were added.
    pub closed spec fn handles(&self) -> Seq<IUnRegister> {
        self.items@
    }

    /// An empty list.
    pub fn new() -> (r: IUnRegisterList)
        ensures
            r.handles() == Seq::<IUnRegister>::empty(),
    {
        IUnRegisterList { items: Vec::new() }
    }

    /// Adds a handle at the end of the list.
    pub fn add(&mut self, unregister: IUnRegister)
        ensures
            final(self).handles() == old(self).handles().push(unregister),
    {
        self.items.push(unregister);
    }

    /// Cancels every handle at `owner` and empties the list; nothing else
    /// changes at `owner`.
    pub fn unregister_all<O: ISubscriptionOwner>(&mut self, owner: &mut O)
        requires
            old(owner).owner_wf(),
        ensures
            final(self).handles() == Seq::<IUnRegister>::empty(),
            final(owner).owner_wf(),
            final(owner).live_ids() == old(owner).live_ids().difference(
                handle_targets(old(self).handles()),
            ),
            final(owner).same_apart_from_subscriptions(&old(owner)),
    {
        proof {
            O::lemma_same_apart_from_subscriptions(&*owner, &*owner, &*owner);
        }
        let n = self.items.len();
        let mut i: usize = 0;
        while i < n
            invariant
                n == self.items.len(),
                self.items@ == old(self).items@,
                i <= n,
                owner.owner_wf(),
                owner.live_ids() == old(owner).live_ids().difference(
                    handle_targets(self.items@.take(i as int)),
                ),
                owner.same_apart_from_subscriptions(&old(owner)),
            decreases n - i,
        {
            let item = self.items[i];
            let ghost before = *owner;
            item.unregister(owner);
            proof {
                O::lemma_same_apart_from_subscriptions(&*owner, &before, &old(owner));
                let s = self.items@;
                assert(s.take(i + 1) =~= s.take(i as int).push(s[i as int]));
                assert(handle_targets(s.take(i + 1)) =~= match s[i as int].target() {
                    Some(id) => handle_targets(s.take(i as int)).insert(id),
                    None => handle_targets(s.take(i as int)),
                }) by {
                    let t = s.take(i + 1);
                    assert forall|id: u64| handle_targets(t).contains(id) implies
                        (match s[i as int].target() {
                            Some(x) => handle_targets(s.take(i as int)).insert(x),
                            None => handle_targets(s.take(i as int)),
                        }).contains(id) by {
                        let j = choose|j: int| 0 <= j < t.len() && t[j].target() == Some(id);
                        if j < i {
                            assert(s.take(i as int)[j] == t[j]);
                        }
                    }
                    assert forall|id: u64| (match s[i as int].target() {
                            Some(x) => handle_targets(s.take(i as int)).insert(x),
                            None => handle_targets(s.take(i as int)),
                        }).contains(id) implies handle_targets(t).contains(id) by {
                        if handle_targets(s.take(i as int)).contains(id) {
                            let j = choose|j: int| 0 <= j < i && s.take(i as int)[j].target() == Some(id);
                            assert(t[j] == s.take(i as int)[j]);
                        } else {
                            assert(t[i as int] == s[i as int]);
                        }
                    }
                }
            }
            i += 1;
        }
        proof {
            assert(self.items@.take(n as int) =~= self.items@);
        }
        self.items.clear();
    }

    /// Number of handles held.
    pub fn len(&self) -> (r: usize)
        ensures
            r == self.handles().len(),
    {
        self.items.len()
    }

    /// Whether the list holds no handle.
    pub fn is_empty(&self) -> (r: bool)
        ensures
            r == (self.handles().len() == 0),
    {
        self.items.len() == 0
    }
}

impl Default for IUnRegisterList {
    /// An empty list.
    fn default() -> (r: IUnRegisterList)
        ensures
            r.handles() == Seq::<IUnRegister>::empty(),
    {
        IUnRegisterList::new()
    }
}

} // verus!
