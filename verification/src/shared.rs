//! The factory's shared storage: std's locks, weak references and
//! type-erased maps, which Verus cannot look into. Each item here is
//! trusted; what it claims is stated on it.

use std::any::{Any, TypeId};
use std::collections::HashMap;
use std::hash::Hash;
use std::sync::{Arc, Mutex, MutexGuard, PoisonError, Weak};
use vstd::prelude::*;

use crate::factory::Inner;
use crate::keymap::KeyMap;

verus! {

#[verifier::external_type_specification]
#[verifier::external_body]
#[verifier::reject_recursive_types(T)]
pub struct ExMutex<T: ?Sized>(Mutex<T>);

#[verifier::external_type_specification]
#[verifier::external_body]
#[verifier::reject_recursive_types(T)]
pub struct ExMutexGuard<'a, T: ?Sized + 'a>(MutexGuard<'a, T>);

/// `std::sync::Mutex::new`: claims nothing of the new lock, which Verus
/// cannot look into.
pub assume_specification<T>[ Mutex::<T>::new ](t: T) -> Mutex<T>;

/// Locks `mutex` through `std::sync::Mutex::lock`, waiting for other
/// holders. Claims nothing of the guard. A lock that a panicking holder
/// left poisoned is taken all the same, through `PoisonError::into_inner`:
/// code of the crate's users (`Hash`, `Eq` and `Drop` of keys and values)
/// runs while the lock is held and may panic.
#[verifier::external_body]
pub(crate) fn lock<T>(mutex: &Mutex<T>) -> MutexGuard<'_, T> {
    mutex.lock().unwrap_or_else(PoisonError::into_inner)
}

/// The value that `guard` holds locked, through `DerefMut` of
/// `std::sync::MutexGuard`. Claims nothing of it: other handles may have
/// changed it since this crate last saw it.
#[verifier::external_body]
pub(crate) fn guarded<'a, 'b, T>(guard: &'a mut MutexGuard<'b, T>) -> &'a mut T {
    &mut **guard
}

/// One factory's caches, one per pair of key and value type, each stored in
/// a `std::collections::HashMap` under the `TypeId` of its own type and
/// erased to `dyn Any`. Verus cannot hold a trait object, so the map is
/// hidden in this struct.
#[verifier::external_body]
pub(crate) struct TypeMap {
    maps: HashMap<TypeId, Box<dyn Any + Send + Sync>>,
}

/// An empty `TypeMap`, through `HashMap::new`.
#[verifier::external_body]
pub(crate) fn type_map_new() -> TypeMap {
    TypeMap { maps: HashMap::new() }
}

/// The cache for keys `K` and values `V` in `types`, created empty on first
/// use, through `HashMap::entry`, `or_insert_with` and `downcast_mut`. The
/// downcast cannot fail: each entry is stored under the `TypeId` of its own
/// type. Claims nothing of the cache's contents, which earlier calls left.
#[verifier::external_body]
pub(crate) fn key_map_for<K, V>(types: &mut TypeMap) -> &mut KeyMap<K, V> where
    K: Eq + Hash + Send + Sync + 'static,
    V: Send + Sync + 'static,
 {
    types.maps.entry(TypeId::of::<KeyMap<K, V>>()).or_insert_with(
        || Box::new(KeyMap::<K, V>::new()),
    ).downcast_mut::<KeyMap<K, V>>().expect("each cache is stored under its own TypeId")
}

/// A `std::sync::Weak` reference to a factory's storage. Verus cannot
/// declare `Weak`, whose allocator parameter it does not take, so the
/// reference is hidden in this struct.
#[verifier::external_body]
pub(crate) struct WeakInner {
    inner: Weak<Inner>,
}

/// A weak reference to `inner`, through `Arc::downgrade`.
#[verifier::external_body]
pub(crate) fn downgrade(inner: &Arc<Inner>) -> WeakInner {
    WeakInner { inner: Arc::downgrade(inner) }
}

/// The storage, if its owning factory still holds it, through
/// `Weak::upgrade`. Claims nothing of the outcome, which depends on whether
/// the owner has been dropped.
#[verifier::external_body]
pub(crate) fn upgrade(weak: &WeakInner) -> Option<Arc<Inner>> {
    weak.inner.upgrade()
}

/// Another weak reference to the same storage, through `Weak::clone`.
#[verifier::external_body]
pub(crate) fn clone_weak(weak: &WeakInner) -> WeakInner {
    WeakInner { inner: weak.inner.clone() }
}

} // verus!
