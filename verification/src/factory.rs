//! The factory, its handles, and the resolution of resources.

use std::hash::Hash;
use std::sync::{Arc, Mutex};
use vstd::prelude::*;

use crate::error::{BuildError, CycleError, ErrorCause};
use crate::keymap::Begin;
use crate::shared::{
    clone_weak, downgrade, guarded, key_map_for, lock, type_map_new, upgrade, TypeMap, WeakInner,
};

verus! {

/// A resource with one instance per type, built from its dependencies on
/// first request.
pub trait Singleton: Sized + Send + Sync + 'static {
    /// Build the instance, resolving dependencies through `factory`.
    fn build(factory: &DependencyFactoryHandle) -> Result<Self, BuildError>;

    /// The name that error chains and cycle paths give this resource.
    fn name() -> (name: &'static str)
        default_ensures
            name@ == "unnamed resource"@,
    {
        "unnamed resource"
    }
}

/// A resource with many instances per type, one for each value of a key.
/// The key type implements this trait; its `Output` is the resource.
pub trait Query: Hash + Eq + Clone + Send + Sync + 'static {
    /// The resource that the key names.
    type Output: Send + Sync + 'static;

    /// Build the resource for this key, resolving dependencies through
    /// `factory`.
    fn build(&self, factory: &DependencyFactoryHandle) -> Result<Self::Output, BuildError>;

    /// The name that error chains and cycle paths give the resource that
    /// this key type names.
    fn name() -> (name: &'static str)
        default_ensures
            name@ == "unnamed resource"@,
    {
        "unnamed resource"
    }
}

/// The key under which a singleton is cached in the cache of its type: one
/// key, since a singleton type has one instance. An integer, so that the
/// cache's contracts, which hold for keys whose `Hash` and `Eq` agree with
/// equality, reach every singleton.
pub const SINGLETON_KEY: u8 = 0;

/// Everything one factory holds: a cache per pair of key and value type,
/// and the number of the next build context. Singletons are cached under
/// [`SINGLETON_KEY`].
pub(crate) struct Store {
    types: TypeMap,
    next_context: u64,
}

/// A factory's storage, shared by the factory and its handles.
pub(crate) struct Inner {
    store: Mutex<Store>,
}

/// The chain of requests that a build runs in: a number that tells it apart
/// from builds that run at the same time, and the names of the
/// resources being built, outermost first.
pub struct BuildContext {
    id: u64,
    trail: Vec<&'static str>,
}

/// The owning factory. Holds the storage alive; dropping it tears the
/// factory down. Most code should pass [`DependencyFactoryHandle`] around
/// instead, and reach for `DependencyFactory` only at the application's
/// top level where ownership lives.
pub struct DependencyFactory {
    inner: Arc<Inner>,
}

/// A cheap-to-clone handle to a [`DependencyFactory`]. Holds a weak
/// reference internally, so storing one inside a resource is always safe
/// and never creates a reference cycle. Operations return
/// [`BuildError::factory_dropped`] if the owning [`DependencyFactory`]
/// has been dropped.
///
/// The handle that a `build` receives also carries the chain of requests
/// that the build runs in, so that a resource that depends on itself is
/// reported as a cycle.
pub struct DependencyFactoryHandle {
    inner: WeakInner,
    context: Option<BuildContext>,
}

/// What a build request finds before anything is built.
pub enum Start<V> {
    /// The request is answered: from the cache, or with a cycle.
    Answered(Result<Arc<V>, BuildError>),
    /// The resource has to be built, in this context.
    Build(BuildContext),
}

impl BuildContext {
    /// The number of the context.
    pub closed spec fn id_view(&self) -> u64 {
        self.id
    }

    /// The names of the resources being built, outermost first.
    pub closed spec fn trail_view(&self) -> Seq<&'static str> {
        self.trail@
    }

    /// The context of a build of `frame` that runs inside this one.
    pub fn child(&self, frame: &'static str) -> (inner: BuildContext)
        ensures
            inner.id_view() == self.id_view(),
            inner.trail_view() == self.trail_view().push(frame),
    {
        let mut trail = self.trail.clone();
        assert(trail@ =~= self.trail@);
        trail.push(frame);
        BuildContext { id: self.id, trail }
    }

    /// A copy of this context.
    fn copy(&self) -> (copy: BuildContext)
        ensures
            copy.id_view() == self.id_view(),
            copy.trail_view() == self.trail_view(),
    {
        let trail = self.trail.clone();
        assert(trail@ =~= self.trail@);
        BuildContext { id: self.id, trail }
    }
}

/// The number that the `n`-th request from outside any build gets, counted
/// from 0, from a store whose counter of contexts stands at `start`: the
/// numbers run on by one, wrapping after `u64::MAX`.
pub open spec fn context_after(start: u64, n: nat) -> u64 {
    ((start as nat + n) % 0x1_0000_0000_0000_0000) as u64
}

/// The numbers that one store hands out to requests from outside any
/// build are pairwise distinct: the `i`-th and the `j`-th differ for any
/// two of the next `2^64`. So a request never finds another request's
/// claims under its own context.
pub proof fn law_issued_contexts_differ(start: u64, i: nat, j: nat)
    requires
        i < j < 0x1_0000_0000_0000_0000,
    ensures
        context_after(start, i) != context_after(start, j),
{
    let m: int = 0x1_0000_0000_0000_0000;
    let a: int = start as int + i;
    let b: int = start as int + j;
    assert(0 < b - a < m);
    if a % m == b % m {
        vstd::arithmetic::div_mod::lemma_fundamental_div_mod(a, m);
        vstd::arithmetic::div_mod::lemma_fundamental_div_mod(b, m);
        let k: int = b / m - a / m;
        assert(b - a == m * k) by (nonlinear_arith)
            requires
                a == m * (a / m) + a % m,
                b == m * (b / m) + b % m,
                a % m == b % m,
                k == b / m - a / m,
        ;
        assert(false) by (nonlinear_arith)
            requires
                0 < m * k < m,
                m > 0,
        ;
    }
}

/// The counter after one more request is the count after `n` requests
/// moved on by one: handing out a number and then another gives the
/// numbers in order.
pub proof fn law_context_counter_steps(start: u64, n: nat)
    ensures
        context_after(context_after(start, n), 1) == context_after(start, n + 1),
{
    let m: int = 0x1_0000_0000_0000_0000;
    let a: int = start as int + n;
    assert(((a % m) + 1) % m == (a + 1) % m) by (nonlinear_arith)
        requires
            m > 0,
    ;
}

impl Store {
    /// A number for a new build context: the counter as it stood, which
    /// then moves on by one.
    fn issue_context(&mut self) -> (id: u64)
        ensures
            id == old(self).next_context,
            final(self).next_context == context_after(old(self).next_context, 1),
    {
        let id = self.next_context;
        self.next_context = id.wrapping_add(1);
        id
    }
}

impl Inner {
    fn new() -> Self {
        Inner { store: Mutex::new(Store { types: type_map_new(), next_context: 0 }) }
    }

    /// Cache `value` for `key`, replacing what was cached, and return it.
    fn insert_keyed<K, V>(&self, key: K, value: V) -> (shared: Arc<V>) where
        K: Eq + Hash + Send + Sync + 'static,
        V: Send + Sync + 'static,

        ensures
            *shared == value,
    {
        let mut guard = lock(&self.store);
        let store = guarded(&mut guard);
        let map = key_map_for::<K, V>(&mut store.types);
        map.insert(key, value)
    }

    /// The value cached for `key`.
    fn get_keyed<K, V>(&self, key: &K) -> Option<Arc<V>> where
        K: Eq + Hash + Send + Sync + 'static,
        V: Send + Sync + 'static,
     {
        let mut guard = lock(&self.store);
        let store = guarded(&mut guard);
        let map = key_map_for::<K, V>(&mut store.types);
        map.get(key)
    }

    /// A number for a new build context.
    fn new_context(&self) -> u64 {
        let mut guard = lock(&self.store);
        let store = guarded(&mut guard);
        store.issue_context()
    }

    /// Ask the cache to build `key` in `context`, whose trail holds `depth`
    /// frames.
    fn begin_keyed<K, V>(&self, key: K, context: u64, depth: usize) -> Begin<V> where
        K: Eq + Hash + Send + Sync + 'static,
        V: Send + Sync + 'static,
     {
        let mut guard = lock(&self.store);
        let store = guarded(&mut guard);
        let map = key_map_for::<K, V>(&mut store.types);
        map.begin(key, context, depth)
    }

    /// End the build of `key` in `context` with the value it produced.
    fn finish_keyed<K, V>(&self, key: K, context: u64, value: V) -> Arc<V> where
        K: Eq + Hash + Send + Sync + 'static,
        V: Send + Sync + 'static,
     {
        let mut guard = lock(&self.store);
        let store = guarded(&mut guard);
        let map = key_map_for::<K, V>(&mut store.types);
        map.finish(key, context, value)
    }

    /// End the build of `key` in `context`, which failed.
    fn abandon_keyed<K, V>(&self, key: K, context: u64) where
        K: Eq + Hash + Send + Sync + 'static,
        V: Send + Sync + 'static,
     {
        let mut guard = lock(&self.store);
        let store = guarded(&mut guard);
        let map = key_map_for::<K, V>(&mut store.types);
        map.abandon(key, context)
    }

    /// The first half of a request to build the resource `frame` for `key`,
    /// made in `context` (none for a request from outside any build): the
    /// cached value, a cycle if the context is already building the key, or
    /// the context in which to build it.
    fn start<K, V>(&self, context: &Option<BuildContext>, key: K, frame: &'static str) -> (start:
        Start<V>) where
        K: Eq + Hash + Send + Sync + 'static,
        V: Send + Sync + 'static,

        ensures
            start matches Start::Answered(Err(e)) ==> context_cycle(context, e, frame),
            start matches Start::Build(inner) ==> child_of(context, inner, frame),
    {
        let outer = match context {
            Some(c) => c.copy(),
            None => BuildContext { id: self.new_context(), trail: Vec::new() },
        };
        assert(outer.trail_view() =~= trail_of(context));
        let depth = outer.trail.len();
        let found = self.begin_keyed::<K, V>(key, outer.id, depth);
        answer(found, outer, frame)
    }

    /// The second half of a build request: end the build of `key` in
    /// `context`, which produced `built`. A value is cached unless one was
    /// cached meanwhile, and the cached value is returned; an error goes out
    /// with `frame` pushed.
    fn end<K, V>(&self, key: K, context: u64, frame: &'static str, built: Result<V, BuildError>) -> (result:
        Result<Arc<V>, BuildError>) where
        K: Eq + Hash + Send + Sync + 'static,
        V: Send + Sync + 'static,

        ensures
            built is Ok <==> result is Ok,
            built matches Err(e) ==> result matches Err(out) && framed(e, out, frame),
    {
        match built {
            Ok(value) => Ok(self.finish_keyed(key, context, value)),
            Err(e) => {
                self.abandon_keyed::<K, V>(key, context);
                Err(e.with_frame(frame))
            },
        }
    }
}

/// What a request for the resource `frame`, made in the build context
/// `outer`, does with what the cache `found`: a cached value answers it; a
/// claim of the same context on the key answers it with the cycle that
/// runs from the depth at which that claim began (at most the trail's
/// length) to `frame`; otherwise the resource is to be built one frame
/// deeper in the same context.
pub fn answer<V>(found: Begin<V>, outer: BuildContext, frame: &'static str) -> (start: Start<V>)
    ensures
        match found {
            Begin::Cached(value) => start matches Start::Answered(Ok(v)) && v == value,
            Begin::Cycle(d) => start matches Start::Answered(Err(e)) && cycle_through(
                e,
                outer.trail_view().skip(
                    if d <= outer.trail_view().len() {
                        d as int
                    } else {
                        outer.trail_view().len() as int
                    },
                ).push(frame),
            ),
            Begin::Claimed => start matches Start::Build(inner) && inner.id_view() == outer.id_view()
                && inner.trail_view() == outer.trail_view().push(frame),
        },
{
    match found {
        Begin::Cached(value) => Start::Answered(Ok(value)),
        Begin::Cycle(depth) => {
            // A claim of this context belongs to one of its builds that is
            // still running, which began at a depth within the trail.
            let depth = if depth <= outer.trail.len() {
                depth
            } else {
                outer.trail.len()
            };
            let cycle = CycleError::closing(&outer.trail, depth, frame);
            Start::Answered(Err(BuildError::cycle(cycle)))
        },
        Begin::Claimed => Start::Build(outer.child(frame)),
    }
}

/// `e` is a dependency cycle through `path`, with no frame yet.
pub open spec fn cycle_through(e: BuildError, path: Seq<&'static str>) -> bool {
    &&& e.frames().len() == 0
    &&& match e.cause_view() {
        ErrorCause::Cycle(c) => c.path_view() == path,
        _ => false,
    }
}

/// `out` is `e` seen from one build further out, the build of `frame`.
pub open spec fn framed(e: BuildError, out: BuildError, frame: &'static str) -> bool {
    &&& out.frames() == e.frames().push(frame)
    &&& out.cause_view() == e.cause_view()
}

/// The names of the resources that `context` is building, outermost
/// first: none for a request from outside any build.
pub open spec fn trail_of(context: &Option<BuildContext>) -> Seq<&'static str> {
    match context {
        Some(c) => c.trail_view(),
        None => Seq::empty(),
    }
}

/// `e` is the cycle that closes when `frame` is requested again in
/// `context`: no frame yet, and a path made of the end of the context's
/// trail and then `frame`.
pub open spec fn context_cycle(
    context: &Option<BuildContext>,
    e: BuildError,
    frame: &'static str,
) -> bool {
    &&& e.frames().len() == 0
    &&& match e.cause_view() {
        ErrorCause::Cycle(c) => exists|depth: int|
            0 <= depth <= trail_of(context).len() && c.path_view() == trail_of(context).skip(
                depth,
            ).push(frame),
        _ => false,
    }
}

/// `inner` is the context of a build of `frame` requested in `context`: the
/// same context one frame deeper, or a new one for a request from outside
/// any build.
pub open spec fn child_of(
    context: &Option<BuildContext>,
    inner: BuildContext,
    frame: &'static str,
) -> bool {
    match context {
        Some(c) => inner.id_view() == c.id_view() && inner.trail_view() == c.trail_view().push(
            frame,
        ),
        None => inner.trail_view() == seq![frame],
    }
}

/// What a build request can end in: the resource, a dependency cycle
/// closed by `frame`, or an error of the build of `frame` or of one of its
/// dependencies, with `frame` as its outermost frame.
pub open spec fn build_outcome<V>(
    context: &Option<BuildContext>,
    result: Result<Arc<V>, BuildError>,
    frame: &'static str,
) -> bool {
    result matches Err(e) ==> {
        ||| context_cycle(context, e, frame)
        ||| e.frames().len() > 0 && e.frames().last() == frame
    }
}

/// `frame` is a name that `R::name` gives: the frame that a build of the
/// singleton `R` pushes.
pub open spec fn singleton_name<R: Singleton>(frame: &'static str) -> bool {
    call_ensures(R::name, (), frame)
}

/// `frame` is a name that `Q::name` gives: the frame that a build of a
/// resource of the query type `Q` pushes.
pub open spec fn query_name<Q: Query>(frame: &'static str) -> bool {
    call_ensures(Q::name, (), frame)
}

/// Resolve `key` through `inner`: the cached value, or one built by the
/// key's `build` and then cached, with `context` the chain of requests
/// that this one is made in.
fn resolve_query<Q: Query>(inner: &Arc<Inner>, context: &Option<BuildContext>, key: Q) -> (result:
    Result<Arc<Q::Output>, BuildError>)
    ensures
        exists|frame: &'static str|
            query_name::<Q>(frame) && #[trigger] build_outcome(context, result, frame),
{
    let name_of = Q::name;
    let frame = name_of();
    match inner.start::<Q, Q::Output>(context, key.clone(), frame) {
        Start::Answered(result) => {
            assert(build_outcome(context, result, frame));
            result
        },
        Start::Build(child) => {
            let id = child.id;
            let handle = DependencyFactoryHandle { inner: downgrade(inner), context: Some(child) };
            let built = key.build(&handle);
            let result = inner.end::<Q, Q::Output>(key, id, frame, built);
            assert(build_outcome(context, result, frame));
            result
        },
    }
}

/// Resolve the singleton `R` through `inner`: the cached instance, or one
/// built by `R::build` and then cached, with `context` the chain of
/// requests that this one is made in.
fn resolve_singleton<R: Singleton>(inner: &Arc<Inner>, context: &Option<BuildContext>) -> (result:
    Result<Arc<R>, BuildError>)
    ensures
        exists|frame: &'static str|
            singleton_name::<R>(frame) && #[trigger] build_outcome(context, result, frame),
{
    let name_of = R::name;
    let frame = name_of();
    match inner.start::<u8, R>(context, SINGLETON_KEY, frame) {
        Start::Answered(result) => {
            assert(build_outcome(context, result, frame));
            result
        },
        Start::Build(child) => {
            let id = child.id;
            let handle = DependencyFactoryHandle { inner: downgrade(inner), context: Some(child) };
            let built = R::build(&handle);
            let result = inner.end::<u8, R>(SINGLETON_KEY, id, frame, built);
            assert(build_outcome(context, result, frame));
            result
        },
    }
}

impl DependencyFactory {
    /// A new, empty factory.
    pub fn new() -> Self {
        DependencyFactory { inner: Arc::new(Inner::new()) }
    }

    /// A cheap-to-clone handle to this factory. Internally weak, so
    /// storing a handle inside a resource cannot keep the factory alive
    /// on its own and cannot create a reference cycle.
    pub fn handle(&self) -> (handle: DependencyFactoryHandle)
        ensures
            handle.context_view() is None,
    {
        DependencyFactoryHandle { inner: downgrade(&self.inner), context: None }
    }

    /// Pre-populate the singleton slot for type `R`. Overwrites any
    /// existing entry for `R`. Returns the cached `Arc<R>`.
    pub fn insert<R: Send + Sync + 'static>(&self, value: R) -> (shared: Arc<R>)
        ensures
            *shared == value,
    {
        self.inner.insert_keyed::<u8, R>(SINGLETON_KEY, value)
    }

    /// Return the cached singleton instance of `R`, if one is present.
    pub fn get<R: Send + Sync + 'static>(&self) -> Option<Arc<R>> {
        self.inner.get_keyed::<u8, R>(&SINGLETON_KEY)
    }

    /// Pre-populate the slot of `key`. Overwrites any existing entry for
    /// `key`. Returns the cached `Arc`.
    pub fn insert_for<Q: Query>(&self, key: Q, value: Q::Output) -> (shared: Arc<Q::Output>)
        ensures
            *shared == value,
    {
        self.inner.insert_keyed::<Q, Q::Output>(key, value)
    }

    /// Return the cached resource for `key`, if one is present.
    pub fn get_for<Q: Query>(&self, key: Q) -> Option<Arc<Q::Output>> {
        self.inner.get_keyed::<Q, Q::Output>(&key)
    }

    /// Return the cached resource for `key`, building it with
    /// [`Query::build`] and caching it if none is present.
    pub fn build_for<Q: Query>(&self, key: Q) -> (result: Result<Arc<Q::Output>, BuildError>)
        ensures
            exists|frame: &'static str|
                query_name::<Q>(frame) && #[trigger] build_outcome(&None, result, frame),
    {
        resolve_query(&self.inner, &None, key)
    }

    /// Return the cached singleton instance of `R`, building it with
    /// [`Singleton::build`] and caching it if none is present.
    pub fn build<R: Singleton>(&self) -> (result: Result<Arc<R>, BuildError>)
        ensures
            exists|frame: &'static str|
                singleton_name::<R>(frame) && #[trigger] build_outcome(&None, result, frame),
    {
        resolve_singleton::<R>(&self.inner, &None)
    }
}

impl DependencyFactoryHandle {
    /// The chain of requests that this handle's requests are made in: none
    /// for a handle taken from the factory, the build's for the handle that
    /// a build receives.
    pub closed spec fn context_view(&self) -> Option<BuildContext> {
        self.context
    }

    fn upgrade(&self) -> (inner: Result<Arc<Inner>, BuildError>)
        ensures
            inner matches Err(e) ==> e.is_factory_dropped(),
    {
        match upgrade(&self.inner) {
            Some(inner) => Ok(inner),
            None => Err(BuildError::factory_dropped()),
        }
    }

    /// Pre-populate the singleton slot for type `R`. Overwrites any
    /// existing entry for `R`. Returns the cached `Arc<R>`, or
    /// [`BuildError::factory_dropped`] if the owning factory is gone.
    pub fn insert<R: Send + Sync + 'static>(&self, value: R) -> (result: Result<Arc<R>, BuildError>)
        ensures
            result matches Ok(shared) ==> *shared == value,
            result matches Err(e) ==> e.is_factory_dropped(),
    {
        let inner = self.upgrade()?;
        Ok(inner.insert_keyed::<u8, R>(SINGLETON_KEY, value))
    }

    /// Return the cached singleton instance of `R`, if one is present.
    /// `Ok(None)` means the factory is alive but no instance is cached;
    /// `Err(_)` means the factory itself has been dropped.
    pub fn get<R: Send + Sync + 'static>(&self) -> (result: Result<Option<Arc<R>>, BuildError>)
        ensures
            result matches Err(e) ==> e.is_factory_dropped(),
    {
        let inner = self.upgrade()?;
        Ok(inner.get_keyed::<u8, R>(&SINGLETON_KEY))
    }

    /// Pre-populate the slot of `key`. Overwrites any existing entry for
    /// `key`. Returns the cached `Arc`, or
    /// [`BuildError::factory_dropped`] if the owning factory is gone.
    pub fn insert_for<Q: Query>(&self, key: Q, value: Q::Output) -> (result: Result<
        Arc<Q::Output>,
        BuildError,
    >)
        ensures
            result matches Ok(shared) ==> *shared == value,
            result matches Err(e) ==> e.is_factory_dropped(),
    {
        let inner = self.upgrade()?;
        Ok(inner.insert_keyed::<Q, Q::Output>(key, value))
    }

    /// Return the cached resource for `key`, if one is present; `Err(_)`
    /// if the factory has been dropped.
    pub fn get_for<Q: Query>(&self, key: Q) -> (result: Result<Option<Arc<Q::Output>>, BuildError>)
        ensures
            result matches Err(e) ==> e.is_factory_dropped(),
    {
        let inner = self.upgrade()?;
        Ok(inner.get_keyed::<Q, Q::Output>(&key))
    }

    /// Return the cached resource for `key`, building it with
    /// [`Query::build`] and caching it if none is present. A request for a
    /// key that the same chain of requests is already building is a
    /// dependency cycle.
    pub fn build_for<Q: Query>(&self, key: Q) -> (result: Result<Arc<Q::Output>, BuildError>)
        ensures
            result matches Err(e) ==> e.is_factory_dropped() || exists|frame: &'static str|
                query_name::<Q>(frame) && #[trigger] build_outcome(&self.context_view(), result, frame),
    {
        let inner = self.upgrade()?;
        resolve_query(&inner, &self.context, key)
    }

    /// Return the cached singleton instance of `R`, building it with
    /// [`Singleton::build`] and caching it if none is present. A request for
    /// a type that the same chain of requests is already building is a
    /// dependency cycle.
    pub fn build<R: Singleton>(&self) -> (result: Result<Arc<R>, BuildError>)
        ensures
            result matches Err(e) ==> e.is_factory_dropped() || exists|frame: &'static str|
                singleton_name::<R>(frame) && #[trigger] build_outcome(&self.context_view(), result, frame),
    {
        let inner = self.upgrade()?;
        resolve_singleton::<R>(&inner, &self.context)
    }
}

impl Default for DependencyFactory {
    fn default() -> Self {
        DependencyFactory::new()
    }
}

impl Clone for DependencyFactoryHandle {
    /// Another handle to the same factory, in the same chain of requests.
    fn clone(&self) -> (copy: Self)
        ensures
            match (copy.context_view(), self.context_view()) {
                (Some(a), Some(b)) => a.id_view() == b.id_view() && a.trail_view()
                    == b.trail_view(),
                (None, None) => true,
                _ => false,
            },
    {
        let context = match &self.context {
            Some(c) => Some(c.copy()),
            None => None,
        };
        DependencyFactoryHandle { inner: clone_weak(&self.inner), context }
    }
}

} // verus!
