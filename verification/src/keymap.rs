//! The cache of one query type: for each key the shared value that was
//! built or inserted for it, and the builds of that key now in progress.

use std::collections::HashMap;
use std::hash::Hash;
use std::sync::Arc;
use vstd::prelude::*;
use vstd::std_specs::hash::obeys_key_model;

verus! {

broadcast use vstd::std_specs::hash::group_hash_axioms;

/// A build of one key that has started and not yet ended: the build
/// context that runs it, and how many frames that context's trail held
/// when the build began.
#[derive(Clone, Copy)]
pub struct Claim {
    pub context: u64,
    pub depth: usize,
}

/// What a request to build a key finds in the cache.
pub enum Begin<V> {
    /// A value is cached for the key; nothing has to be built.
    Cached(Arc<V>),
    /// The same build context is already building this key: a cycle. The
    /// number is the trail depth at which that earlier build began.
    Cycle(usize),
    /// The caller now holds a claim on the key and has to build it.
    Claimed,
}

/// The depth recorded by the first claim of `context` in `claims`, if
/// there is one.
pub open spec fn claimed_depth(claims: Seq<Claim>, context: u64) -> Option<usize>
    decreases claims.len(),
{
    if claims.len() == 0 {
        None
    } else if claims[0].context == context {
        Some(claims[0].depth)
    } else {
        claimed_depth(claims.drop_first(), context)
    }
}

/// `claims` with every claim of `context` taken out, the others in order.
pub open spec fn release(claims: Seq<Claim>, context: u64) -> Seq<Claim>
    decreases claims.len(),
{
    if claims.len() == 0 {
        claims
    } else if claims.last().context == context {
        release(claims.drop_last(), context)
    } else {
        release(claims.drop_last(), context).push(claims.last())
    }
}

/// The value that `values` holds for `key`, if any.
pub open spec fn lookup<K, V>(values: Map<K, V>, key: K) -> Option<V> {
    if values.contains_key(key) {
        Some(values[key])
    } else {
        None
    }
}

/// What the cache holds for one key: the value, once there is one, and
/// the builds of the key in progress.
struct Slot<V> {
    value: Option<Arc<V>>,
    claims: Vec<Claim>,
}

/// Keyed storage of shared values, with the builds in progress per key.
///
/// The contracts speak of the key type's `Hash` and `Eq` through vstd's
/// model of `HashMap`: they hold for every key type whose `Hash` and `Eq`
/// agree with equality of values (`obeys_key_model`).
pub struct KeyMap<K, V> {
    slots: HashMap<K, Slot<V>>,
}

impl<K, V> KeyMap<K, V> {
    /// The value cached for each key.
    pub closed spec fn values(&self) -> Map<K, Arc<V>> {
        Map::new(
            |k: K| self.slots@.contains_key(k) && self.slots@[k].value is Some,
            |k: K| self.slots@[k].value->0,
        )
    }

    /// The builds of `key` in progress, oldest first.
    pub closed spec fn claims_of(&self, key: K) -> Seq<Claim> {
        if self.slots@.contains_key(key) {
            self.slots@[key].claims@
        } else {
            Seq::empty()
        }
    }

    /// No build of any key is in progress.
    pub open spec fn idle(&self) -> bool {
        forall|key: K| #[trigger] self.claims_of(key).len() == 0
    }
}

impl<K: Eq + Hash, V> KeyMap<K, V> {
    /// An empty cache with no build in progress.
    pub fn new() -> (map: Self)
        ensures
            map.values() == Map::<K, Arc<V>>::empty(),
            map.idle(),
    {
        let map = KeyMap { slots: HashMap::new() };
        assert(map.values() =~= Map::<K, Arc<V>>::empty());
        map
    }

    /// Take the slot of `key` out of the map.
    fn take_slot(&mut self, key: &K) -> (slot: Slot<V>)
        ensures
            obeys_key_model::<K>() ==> {
                &&& slot.value == lookup(old(self).values(), *key)
                &&& slot.claims@ == old(self).claims_of(*key)
                &&& final(self).slots@ == old(self).slots@.remove(*key)
            },
    {
        match self.slots.remove(key) {
            Some(slot) => slot,
            None => Slot { value: None, claims: Vec::new() },
        }
    }

    /// Put `slot` back as the slot of `key`.
    fn put_slot(&mut self, key: K, slot: Slot<V>)
        requires
            obeys_key_model::<K>() ==> !old(self).slots@.contains_key(key),
        ensures
            obeys_key_model::<K>() ==> {
                &&& lookup(final(self).values(), key) == slot.value
                &&& final(self).claims_of(key) == slot.claims@
                &&& forall|k: K|
                    k != key ==> #[trigger] lookup(final(self).values(), k) == lookup(
                        old(self).values(),
                        k,
                    )
                &&& forall|k: K|
                    k != key ==> #[trigger] final(self).claims_of(k) == old(self).claims_of(k)
            },
    {
        if slot.value.is_some() || slot.claims.len() > 0 {
            self.slots.insert(key, slot);
        } else {
            assert(slot.claims@ =~= Seq::<Claim>::empty());
        }
    }

    /// The value cached for `key`, shared with the cache.
    pub fn get(&self, key: &K) -> (found: Option<Arc<V>>)
        ensures
            obeys_key_model::<K>() ==> found == lookup(self.values(), *key),
    {
        match self.slots.get(key) {
            Some(slot) => match &slot.value {
                Some(value) => Some(value.clone()),
                None => None,
            },
            None => None,
        }
    }

    /// Cache `value` for `key`, replacing what was cached for it, and return
    /// the shared value.
    pub fn insert(&mut self, key: K, value: V) -> (shared: Arc<V>)
        ensures
            *shared == value,
            obeys_key_model::<K>() ==> final(self).values() == old(self).values().insert(
                key,
                shared,
            ),
            obeys_key_model::<K>() ==> forall|k: K| #[trigger]
                final(self).claims_of(k) == old(self).claims_of(k),
    {
        let shared = Arc::new(value);
        let mut slot = self.take_slot(&key);
        slot.value = Some(shared.clone());
        self.put_slot(key, slot);
        proof {
            if obeys_key_model::<K>() {
                lemma_lookup_ext(self.values(), old(self).values().insert(key, shared));
            }
        }
        shared
    }

    /// The depth of the claim that `context` holds on `key`, if it holds one.
    fn claim_depth(&self, key: &K, context: u64) -> (depth: Option<usize>)
        ensures
            obeys_key_model::<K>() ==> depth == claimed_depth(self.claims_of(*key), context),
    {
        match self.slots.get(key) {
            None => None,
            Some(slot) => first_claim_depth(&slot.claims, context),
        }
    }

    /// Ask to build `key` in build context `context`, whose trail holds
    /// `depth` frames: a cached value is handed back; a claim that this
    /// context already holds on the key is a cycle; otherwise the context
    /// claims the key.
    pub fn begin(&mut self, key: K, context: u64, depth: usize) -> (found: Begin<V>)
        ensures
            obeys_key_model::<K>() ==> final(self).values() == old(self).values(),
            obeys_key_model::<K>() ==> match found {
                Begin::Cached(value) => {
                    &&& lookup(old(self).values(), key) == Some(value)
                    &&& forall|k: K| #[trigger] final(self).claims_of(k) == old(self).claims_of(k)
                },
                Begin::Cycle(d) => {
                    &&& lookup(old(self).values(), key) is None
                    &&& claimed_depth(old(self).claims_of(key), context) == Some(d)
                    &&& forall|k: K| #[trigger] final(self).claims_of(k) == old(self).claims_of(k)
                },
                Begin::Claimed => {
                    &&& lookup(old(self).values(), key) is None
                    &&& claimed_depth(old(self).claims_of(key), context) is None
                    &&& final(self).claims_of(key) == old(self).claims_of(key).push(
                        Claim { context, depth },
                    )
                    &&& forall|k: K|
                        k != key ==> #[trigger] final(self).claims_of(k) == old(self).claims_of(k)
                },
            },
    {
        if let Some(value) = self.get(&key) {
            return Begin::Cached(value);
        }
        if let Some(d) = self.claim_depth(&key, context) {
            return Begin::Cycle(d);
        }
        let mut slot = self.take_slot(&key);
        slot.claims.push(Claim { context, depth });
        self.put_slot(key, slot);
        proof {
            if obeys_key_model::<K>() {
                lemma_lookup_ext(self.values(), old(self).values());
            }
        }
        Begin::Claimed
    }

    /// End a build of `key` in `context` that produced no value: the
    /// context's claims on the key go, and nothing else changes.
    pub fn abandon(&mut self, key: K, context: u64)
        ensures
            obeys_key_model::<K>() ==> {
                &&& final(self).values() == old(self).values()
                &&& final(self).claims_of(key) == release(old(self).claims_of(key), context)
                &&& forall|k: K|
                    k != key ==> #[trigger] final(self).claims_of(k) == old(self).claims_of(k)
            },
    {
        let mut slot = self.take_slot(&key);
        slot.claims = without_context(&slot.claims, context);
        self.put_slot(key, slot);
        proof {
            if obeys_key_model::<K>() {
                lemma_lookup_ext(self.values(), old(self).values());
            }
        }
    }

    /// End the build of `key` that `context` ran, which produced `value`:
    /// the context's claims on the key go, and the key's cached value is
    /// returned; `value` is cached first if nothing was cached meanwhile.
    pub fn finish(&mut self, key: K, context: u64, value: V) -> (shared: Arc<V>)
        ensures
            obeys_key_model::<K>() ==> {
                &&& old(self).values().contains_key(key) ==> {
                    &&& shared == old(self).values()[key]
                    &&& final(self).values() == old(self).values()
                }
                &&& !old(self).values().contains_key(key) ==> {
                    &&& *shared == value
                    &&& final(self).values() == old(self).values().insert(key, shared)
                }
                &&& final(self).claims_of(key) == release(old(self).claims_of(key), context)
                &&& forall|k: K|
                    k != key ==> #[trigger] final(self).claims_of(k) == old(self).claims_of(k)
            },
    {
        let mut slot = self.take_slot(&key);
        let shared = match &slot.value {
            Some(existing) => existing.clone(),
            None => Arc::new(value),
        };
        slot.value = Some(shared.clone());
        slot.claims = without_context(&slot.claims, context);
        self.put_slot(key, slot);
        proof {
            if obeys_key_model::<K>() {
                if old(self).values().contains_key(key) {
                    lemma_lookup_ext(self.values(), old(self).values());
                } else {
                    lemma_lookup_ext(self.values(), old(self).values().insert(key, shared));
                }
            }
        }
        shared
    }
}

/// The depth of the first claim of `context` in `claims`.
fn first_claim_depth(claims: &Vec<Claim>, context: u64) -> (depth: Option<usize>)
    ensures
        depth == claimed_depth(claims@, context),
{
    let mut i: usize = 0;
    assert(claims@.skip(0) =~= claims@);
    while i < claims.len()
        invariant
            0 <= i <= claims@.len(),
            claimed_depth(claims@, context) == claimed_depth(claims@.skip(i as int), context),
        decreases claims@.len() - i,
    {
        assert(claims@.skip(i as int).drop_first() =~= claims@.skip(i + 1));
        if claims[i].context == context {
            return Some(claims[i].depth);
        }
        i = i + 1;
    }
    assert(claims@.skip(i as int) =~= Seq::<Claim>::empty());
    None
}

/// The claims in `claims` of contexts other than `context`, in order.
fn without_context(claims: &Vec<Claim>, context: u64) -> (kept: Vec<Claim>)
    ensures
        kept@ == release(claims@, context),
{
    let mut kept: Vec<Claim> = Vec::new();
    let mut i: usize = 0;
    while i < claims.len()
        invariant
            0 <= i <= claims@.len(),
            kept@ == release(claims@.take(i as int), context),
        decreases claims@.len() - i,
    {
        assert(claims@.take(i + 1).drop_last() =~= claims@.take(i as int));
        let claim = claims[i];
        if claim.context != context {
            kept.push(claim);
        }
        i = i + 1;
    }
    assert(claims@.take(claims@.len() as int) =~= claims@);
    kept
}

/// Two maps that give the same lookup for every key are equal.
proof fn lemma_lookup_ext<K, V>(a: Map<K, V>, b: Map<K, V>)
    requires
        forall|k: K| #[trigger] lookup(a, k) == lookup(b, k),
    ensures
        a == b,
{
    assert forall|k: K| a.contains_key(k) <==> b.contains_key(k) by {
        assert(lookup(a, k) == lookup(b, k));
    }
    assert forall|k: K| a.contains_key(k) implies a[k] == b[k] by {
        assert(lookup(a, k) == lookup(b, k));
    }
    assert(a =~= b);
}

/// A claim of a context that holds none on a key, dropped again when the
/// build fails, leaves the key's claims as they were: a failed build
/// leaves no trace that a later request could take for a cycle.
pub proof fn law_failed_build_leaves_no_claim(claims: Seq<Claim>, context: u64, depth: usize)
    requires
        claimed_depth(claims, context) is None,
    ensures
        release(claims.push(Claim { context, depth }), context) == claims,
{
    lemma_release_unclaimed(claims, context);
    assert(claims.push(Claim { context, depth }).drop_last() =~= claims);
}

/// Once a context's build of a key has ended, the context holds no claim
/// on the key: a later request for it in the same context is no cycle.
pub proof fn law_ended_build_holds_no_claim(claims: Seq<Claim>, context: u64)
    ensures
        claimed_depth(release(claims, context), context) is None,
    decreases claims.len(),
{
    if claims.len() > 0 {
        law_ended_build_holds_no_claim(claims.drop_last(), context);
        if claims.last().context != context {
            lemma_claimed_depth_push(release(claims.drop_last(), context), claims.last(), context);
        }
    }
}

/// While a context builds a key, a second request for the key in the same
/// context finds the claim and the depth at which the first began: the
/// request is reported as a cycle.
pub proof fn law_second_request_is_cycle(claims: Seq<Claim>, context: u64, depth: usize)
    requires
        claimed_depth(claims, context) is None,
    ensures
        claimed_depth(claims.push(Claim { context, depth }), context) == Some(depth),
{
    lemma_claimed_depth_push(claims, Claim { context, depth }, context);
}

/// A claim of one context is no cycle for another: builds of one key that
/// run at the same time in different contexts all go ahead.
pub proof fn law_other_contexts_go_ahead(claims: Seq<Claim>, claim: Claim, context: u64)
    requires
        claim.context != context,
    ensures
        claimed_depth(claims.push(claim), context) == claimed_depth(claims, context),
{
    lemma_claimed_depth_push(claims, claim, context);
}

/// What a read gives back of a write: after `key` is cached with `value`,
/// a lookup of `key` gives `value`, and a lookup of any other key gives what
/// it gave before.
pub proof fn law_read_after_write<K, V>(values: Map<K, V>, key: K, value: V, other: K)
    requires
        other != key,
    ensures
        lookup(values.insert(key, value), key) == Some(value),
        lookup(values.insert(key, value), other) == lookup(values, other),
{
}

/// A second write of a key replaces the first.
pub proof fn law_write_overwrites<K, V>(values: Map<K, V>, key: K, first: V, second: V)
    ensures
        values.insert(key, first).insert(key, second) == values.insert(key, second),
{
    assert(values.insert(key, first).insert(key, second) =~= values.insert(key, second));
}

/// `claimed_depth` of a sequence with one claim more at its end.
proof fn lemma_claimed_depth_push(claims: Seq<Claim>, claim: Claim, context: u64)
    ensures
        claimed_depth(claims.push(claim), context) == (match claimed_depth(claims, context) {
            Some(d) => Some(d),
            None => if claim.context == context {
                Some(claim.depth)
            } else {
                None
            },
        }),
    decreases claims.len(),
{
    if claims.len() > 0 {
        assert(claims.push(claim).drop_first() =~= claims.drop_first().push(claim));
        assert(claims.push(claim)[0] == claims[0]);
        lemma_claimed_depth_push(claims.drop_first(), claim, context);
    } else {
        let one = claims.push(claim);
        assert(one.drop_first() =~= Seq::<Claim>::empty());
        assert(one[0] == claim);
        assert(claimed_depth(one.drop_first(), context) is None);
        assert(claimed_depth(claims, context) is None);
    }
}

/// Releasing a context that holds no claim changes nothing.
proof fn lemma_release_unclaimed(claims: Seq<Claim>, context: u64)
    requires
        claimed_depth(claims, context) is None,
    ensures
        release(claims, context) == claims,
    decreases claims.len(),
{
    if claims.len() > 0 {
        let init = claims.drop_last();
        lemma_claimed_depth_push(init, claims.last(), context);
        assert(init.push(claims.last()) =~= claims);
        lemma_release_unclaimed(init, context);
    }
}

} // verus!
