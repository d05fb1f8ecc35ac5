//! The type-keyed instance container.
//!
//! Instances are registered and resolved by the [`TypeId`] of their type.
//! Each key holds at most one instance: registering a key again replaces the
//! instance it held.
use std::any::TypeId;
use std::sync::Arc;
use vstd::prelude::*;

verus! {

/// `TypeId` identifies a Rust type; it is the key of the container and of
/// the event bus.
#[verifier::external_type_specification]
#[verifier::external_body]
pub struct ExTypeId(TypeId);

/// Compares two type ids with `TypeId`'s `==`.
///
/// Trusted: std documents `TypeId` as an opaque identifier that supports
/// comparison; two ids compare equal exactly when they are the same value.
#[verifier::external_body]
pub(crate) fn type_id_eq(a: &TypeId, b: &TypeId) -> (r: bool)
    ensures
        r == (*a == *b),
{
    a == b
}

/// A container of shared instances keyed by type.
pub struct IOCContainer<T: ?Sized> {
    instances: Vec<(TypeId, Arc<T>)>,
}

impl<T: ?Sized> View for IOCContainer<T> {
    type V = Map<TypeId, Arc<T>>;

    /// The instance registered under each key.
    closed spec fn view(&self) -> Map<TypeId, Arc<T>> {
        Map::new(
            |k: TypeId| self.keys().contains(k),
            |k: TypeId| self.instances@[self.index_of(k)].1,
        )
    }
}

impl<T: ?Sized> IOCContainer<T> {
    /// The keys in the order they were first registered.
    pub closed spec fn keys(&self) -> Seq<TypeId> {
        self.instances@.map_values(|e: (TypeId, Arc<T>)| e.0)
    }

    spec fn index_of(&self, k: TypeId) -> int {
        choose|i: int| 0 <= i < self.instances@.len() && self.instances@[i].0 == k
    }

    /// No key is stored twice.
    pub closed spec fn wf(&self) -> bool {
        self.keys().no_duplicates()
    }

    proof fn lemma_view_at(&self, i: int)
        requires
            self.wf(),
            0 <= i < self.instances@.len(),
        ensures
            self@.contains_key(self.instances@[i].0),
            self@[self.instances@[i].0] == self.instances@[i].1,
    {
        let k = self.instances@[i].0;
        assert(self.keys()[i] == k);
        let j = self.index_of(k);
        assert(self.keys()[j] == k);
    }

    /// A consistent container holds finitely many keys.
    pub proof fn lemma_finite(&self)
        requires
            self.wf(),
        ensures
            self@.dom().finite(),
    {
        self.lemma_len();
    }

    proof fn lemma_len(&self)
        requires
            self.wf(),
        ensures
            self@.dom().finite(),
            self@.dom().len() == self.instances@.len(),
    {
        assert(self@.dom() =~= self.keys().to_set());
        self.keys().unique_seq_to_set();
    }

    /// An empty container.
    pub fn new() -> (r: IOCContainer<T>)
        ensures
            r.wf(),
            r@ == Map::<TypeId, Arc<T>>::empty(),
    {
        let r = IOCContainer { instances: Vec::new() };
        proof {
            assert(r@ =~= Map::<TypeId, Arc<T>>::empty());
        }
        r
    }

    /// Position of `key`, if registered.
    fn find(&self, key: &TypeId) -> (r: Option<usize>)
        requires
            self.wf(),
        ensures
            match r {
                Some(i) => i < self.instances@.len() && self.instances@[i as int].0 == *key,
                None => !self@.contains_key(*key),
            },
    {
        let n = self.instances.len();
        let mut i: usize = 0;
        while i < n
            invariant
                n == self.instances.len(),
                i <= n,
                forall|j: int| 0 <= j < i ==> #[trigger] self.keys()[j] != *key,
            decreases n - i,
        {
            if type_id_eq(&self.instances[i].0, key) {
                return Some(i);
            }
            assert(self.keys()[i as int] != *key);
            i += 1;
        }
        None
    }

    /// Registers a shared instance under `key`, replacing any instance the
    /// key held.
    pub fn register_arc(&mut self, key: TypeId, instance: Arc<T>)
        requires
            old(self).wf(),
        ensures
            final(self).wf(),
            final(self)@ == old(self)@.insert(key, instance),
            final(self)@.len() == old(self)@.len() + (if old(self)@.contains_key(key) { 0int } else { 1int }),
    {
        proof {
            old(self).lemma_len();
        }
        match self.find(&key) {
            Some(i) => {
                self.instances.set(i, (key, instance));
                proof {
                    assert(self.keys() =~= old(self).keys().update(i as int, key));
                    assert(old(self).keys()[i as int] == key);
                    assert(self.keys() =~= old(self).keys());
                    let m = old(self)@.insert(key, instance);
                    assert forall|k: TypeId| self@.contains_key(k) <==> m.contains_key(k) by {
                        assert(old(self).keys().contains(key));
                    }
                    assert forall|k: TypeId| #[trigger] self@.contains_key(k) implies self@[k] == m[k] by {
                        let j = choose|j: int| 0 <= j < self.keys().len() && self.keys()[j] == k;
                        self.lemma_view_at(j);
                        if j != i {
                            old(self).lemma_view_at(j);
                            assert(self.instances@[j] == old(self).instances@[j]);
                        } else {
                            assert(self.instances@[j] == (key, instance));
                        }
                    }
                    assert(self@ =~= m);
                    self.lemma_len();
                }
            },
            None => {
                self.instances.push((key, instance));
                proof {
                    assert(self.keys() =~= old(self).keys().push(key));
                    assert(!old(self).keys().contains(key));
                    let m = old(self)@.insert(key, instance);
                    assert forall|k: TypeId| self@.contains_key(k) <==> m.contains_key(k) by {
                        if old(self).keys().contains(k) {
                            let j = choose|j: int| 0 <= j < old(self).keys().len() && old(self).keys()[j] == k;
                            assert(self.keys()[j] == k);
                        }
                        if self.keys().contains(k) && k != key {
                            let j = choose|j: int| 0 <= j < self.keys().len() && self.keys()[j] == k;
                            assert(old(self).keys()[j] == k);
                        }
                        assert(self.keys()[old(self).keys().len() as int] == key);
                    }
                    assert forall|k: TypeId| #[trigger] self@.contains_key(k) implies self@[k] == m[k] by {
                        let j = choose|j: int| 0 <= j < self.keys().len() && self.keys()[j] == k;
                        self.lemma_view_at(j);
                        if j < old(self).instances@.len() {
                            old(self).lemma_view_at(j);
                            assert(self.instances@[j] == old(self).instances@[j]);
                            assert(old(self).keys()[j] == k);
                        } else {
                            assert(self.instances@[j] == (key, instance));
                        }
                    }
                    assert(self@ =~= m);
                    self.lemma_len();
                }
            },
        }
    }

    /// The instance registered under `key`, if any.
    pub fn get(&self, key: TypeId) -> (r: Option<Arc<T>>)
        requires
            self.wf(),
        ensures
            r == (if self@.contains_key(key) { Some(self@[key]) } else { None }),
    {
        match self.find(&key) {
            Some(i) => {
                proof {
                    self.lemma_view_at(i as int);
                }
                Some(self.instances[i].1.clone())
            },
            None => None,
        }
    }

    /// The instance registered under `key`, which must be registered.
    pub fn expect(&self, key: TypeId) -> (r: Arc<T>)
        requires
            self.wf(),
            self@.contains_key(key),
        ensures
            r == self@[key],
    {
        match self.get(key) {
            Some(r) => r,
            None => {
                proof {
                    assert(false);
                }
                self.instances[0].1.clone()
            },
        }
    }

    /// Whether `key` holds an instance.
    pub fn contains(&self, key: TypeId) -> (r: bool)
        requires
            self.wf(),
        ensures
            r == self@.contains_key(key),
    {
        match self.find(&key) {
            Some(i) => {
                proof {
                    self.lemma_view_at(i as int);
                }
                true
            },
            None => false,
        }
    }

    /// Number of keys that hold an instance.
    pub fn len(&self) -> (r: usize)
        requires
            self.wf(),
        ensures
            r == self@.len(),
    {
        proof {
            self.lemma_len();
        }
        self.instances.len()
    }

    /// Whether no key holds an instance.
    pub fn is_empty(&self) -> (r: bool)
        requires
            self.wf(),
        ensures
            r == (self@.len() == 0),
    {
        proof {
            self.lemma_len();
        }
        self.instances.len() == 0
    }

    /// Removes every instance.
    pub fn clear(&mut self)
        ensures
            final(self).wf(),
            final(self)@ == Map::<TypeId, Arc<T>>::empty(),
    {
        self.instances.clear();
        proof {
            assert(self@ =~= Map::<TypeId, Arc<T>>::empty());
        }
    }
}

impl<T: ?Sized> Default for IOCContainer<T> {
    /// An empty container.
    fn default() -> (r: IOCContainer<T>)
        ensures
            r.wf(),
            r@ == Map::<TypeId, Arc<T>>::empty(),
    {
        IOCContainer::new()
    }
}

impl<T> IOCContainer<T> {
    /// Registers `instance` under `key`, replacing any instance the key held.
    pub fn register(&mut self, key: TypeId, instance: T)
        requires
            old(self).wf(),
        ensures
            final(self).wf(),
            final(self)@.dom() == old(self)@.dom().insert(key),
            *final(self)@[key] == instance,
            forall|k: TypeId| k != key && #[trigger] old(self)@.contains_key(k) ==> final(self)@[k] == old(self)@[k],
            final(self)@.len() == old(self)@.len() + (if old(self)@.contains_key(key) { 0int } else { 1int }),
    {
        self.register_arc(key, Arc::new(instance));
    }
}

} // verus!
