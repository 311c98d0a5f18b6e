//! The service registry: three tables of registrations (singleton instances,
//! scoped factories, transient factories) plus a cache of materialized scoped
//! instances, all keyed by a type key. Resolution follows a fixed precedence:
//! singleton, then cached scoped instance, then scoped factory (caching the
//! fresh instance), then transient factory; an unknown key is a loud error.
//!
//! A type key is any injective mapping from a service type to a `u64`; the
//! registry never invents keys, callers choose them. Each instance the
//! registry constructs carries a stamp drawn from a strictly increasing
//! counter, so identity of instances (same construction event) is equality
//! of stamps.

use vstd::prelude::*;
use crate::keymap::KeyMap;

verus! {

/// A resolved service instance.
///
/// `key` names the service type the instance belongs to, `stamp` identifies
/// the construction event (two instances are the same instance exactly when
/// their stamps are equal), and `data` is the instance's payload: for a
/// factory-made instance it is the default value the factory was registered
/// with, for a singleton it is whatever the caller built.
#[derive(Clone, Copy, PartialEq, Eq, Structural, Debug)]
pub struct Service {
    pub key: u64,
    pub stamp: u64,
    pub data: u64,
}

/// Why a resolution failed.
#[derive(Clone, Copy, PartialEq, Eq, Structural, Debug)]
pub enum ResolveError {
    /// The key is absent from all three registration tables. A caller or
    /// configuration error: it surfaces immediately instead of yielding a
    /// defaulted instance.
    ServiceNotRegistered(u64),
}

/// The mathematical model of a registry: the three registration tables, the
/// scoped-instance cache, and the next construction stamp.
pub struct ProviderView {
    pub singletons: Map<u64, Service>,
    pub scoped: Map<u64, u64>,
    pub transients: Map<u64, u64>,
    pub scoped_instances: Map<u64, Service>,
    pub next_stamp: u64,
}

impl ProviderView {
    /// Well-formedness: stored instances sit under their own key, and every
    /// cached scoped instance was stamped before the current counter value.
    /// The first clause is what makes a key/instance mismatch (the analogue
    /// of a failed downcast) impossible; the second is what makes stamps
    /// issued later provably fresh.
    pub open spec fn inv(self) -> bool {
        &&& forall|k: u64|
            self.singletons.contains_key(k) ==> (#[trigger] self.singletons[k]).key == k
        &&& forall|k: u64|
            self.scoped_instances.contains_key(k) ==> (#[trigger] self.scoped_instances[k]).key
                == k
        &&& forall|k: u64|
            self.scoped_instances.contains_key(k) ==> (#[trigger] self.scoped_instances[k]).stamp
                < self.next_stamp
    }

    /// Whether any of the three tables has an entry for `key`.
    pub open spec fn registered(self, key: u64) -> bool {
        self.singletons.contains_key(key) || self.scoped.contains_key(key)
            || self.transients.contains_key(key)
    }

    /// The resolution function: the outcome of one lookup and the registry
    /// state it leaves behind. Precedence is fixed: a singleton entry wins,
    /// then an already-cached scoped instance, then a scoped factory (whose
    /// fresh instance is cached and the stamp counter advanced), then a
    /// transient factory (fresh instance, never cached); otherwise the
    /// lookup fails and the state is untouched.
    pub open spec fn resolve(self, key: u64) -> (Result<Service, ResolveError>, ProviderView) {
        if self.singletons.contains_key(key) {
            (Ok(self.singletons[key]), self)
        } else if self.scoped_instances.contains_key(key) {
            (Ok(self.scoped_instances[key]), self)
        } else if self.scoped.contains_key(key) {
            let made = Service { key, stamp: self.next_stamp, data: self.scoped[key] };
            (
                Ok(made),
                ProviderView {
                    scoped_instances: self.scoped_instances.insert(key, made),
                    next_stamp: ((self.next_stamp + 1) as u64),
                    ..self
                },
            )
        } else if self.transients.contains_key(key) {
            let made = Service { key, stamp: self.next_stamp, data: self.transients[key] };
            (Ok(made), ProviderView { next_stamp: ((self.next_stamp + 1) as u64), ..self })
        } else {
            (Err(ResolveError::ServiceNotRegistered(key)), self)
        }
    }
}

/// The service registry. One registry is meant to be shared by a whole
/// process behind whatever synchronization the host chooses; every operation
/// here takes the registry exclusively, so a single lock around the whole
/// table set serializes registrations with resolutions.
pub struct ServiceProvider {
    singletons: KeyMap<Service>,
    scoped: KeyMap<u64>,
    transients: KeyMap<u64>,
    scoped_instances: KeyMap<Service>,
    next_stamp: u64,
}

impl View for ServiceProvider {
    type V = ProviderView;

    closed spec fn view(&self) -> ProviderView {
        ProviderView {
            singletons: self.singletons@,
            scoped: self.scoped@,
            transients: self.transients@,
            scoped_instances: self.scoped_instances@,
            next_stamp: self.next_stamp,
        }
    }
}

impl ServiceProvider {
    /// An empty registry: nothing registered, nothing cached, stamps start
    /// at zero.
    pub fn new() -> (p: Self)
        ensures
            p@ == (ProviderView {
                singletons: Map::<u64, Service>::empty(),
                scoped: Map::<u64, u64>::empty(),
                transients: Map::<u64, u64>::empty(),
                scoped_instances: Map::<u64, Service>::empty(),
                next_stamp: 0u64,
            }),
            p@.inv(),
    {
        ServiceProvider {
            singletons: KeyMap::new(),
            scoped: KeyMap::new(),
            transients: KeyMap::new(),
            scoped_instances: KeyMap::new(),
            next_stamp: 0,
        }
    }

    /// Registers (or silently overwrites) the pre-built shared instance for
    /// its own key. Every future resolution of that key returns exactly this
    /// instance, whatever else is registered under the key.
    pub fn add_singleton(&mut self, instance: Service)
        ensures
            final(self)@ == (ProviderView {
                singletons: old(self)@.singletons.insert(instance.key, instance),
                ..old(self)@
            }),
            old(self)@.inv() ==> final(self)@.inv(),
    {
        self.singletons.insert(instance.key, instance);
        proof {
            assert(self@.scoped_instances == old(self)@.scoped_instances);
            if old(self)@.inv() {
                assert forall|k: u64| self@.singletons.contains_key(k) implies (
                #[trigger] self@.singletons[k]).key == k by {
                    if k != instance.key {
                        assert(old(self)@.singletons.contains_key(k));
                    }
                }
            }
        }
    }

    /// Registers (or silently overwrites) the scoped factory for `key`: the
    /// first resolution inside a scope constructs an instance carrying
    /// `default_value` and caches it. Nothing is constructed here.
    pub fn add_scoped(&mut self, key: u64, default_value: u64)
        ensures
            final(self)@ == (ProviderView {
                scoped: old(self)@.scoped.insert(key, default_value),
                ..old(self)@
            }),
            old(self)@.inv() ==> final(self)@.inv(),
    {
        self.scoped.insert(key, default_value);
        proof {
            assert(self@.singletons == old(self)@.singletons);
            assert(self@.scoped_instances == old(self)@.scoped_instances);
        }
    }

    /// Registers (or silently overwrites) the transient factory for `key`:
    /// every resolution constructs a fresh instance carrying
    /// `default_value`. Nothing is constructed here and nothing is ever
    /// cached for this table.
    pub fn add_transient(&mut self, key: u64, default_value: u64)
        ensures
            final(self)@ == (ProviderView {
                transients: old(self)@.transients.insert(key, default_value),
                ..old(self)@
            }),
            old(self)@.inv() ==> final(self)@.inv(),
    {
        self.transients.insert(key, default_value);
        proof {
            assert(self@.singletons == old(self)@.singletons);
            assert(self@.scoped_instances == old(self)@.scoped_instances);
        }
    }

    /// Resolves `key` by the precedence that `ProviderView::resolve` states,
    /// and fails with `ServiceNotRegistered` — leaving the registry
    /// untouched — exactly when no table has the key.
    pub fn provide(&mut self, key: u64) -> (r: Result<Service, ResolveError>)
        requires
            old(self)@.next_stamp < u64::MAX,
        ensures
            (r, final(self)@) == old(self)@.resolve(key),
            old(self)@.inv() ==> final(self)@.inv(),
    {
        match self.singletons.get(key) {
            Some(instance) => {
                return Ok(instance);
            },
            None => {},
        }
        match self.scoped_instances.get(key) {
            Some(instance) => {
                return Ok(instance);
            },
            None => {},
        }
        match self.scoped.get(key) {
            Some(default_value) => {
                let made = Service { key, stamp: self.next_stamp, data: default_value };
                self.next_stamp = self.next_stamp + 1;
                self.scoped_instances.insert(key, made);
                return Ok(made);
            },
            None => {},
        }
        match self.transients.get(key) {
            Some(default_value) => {
                let made = Service { key, stamp: self.next_stamp, data: default_value };
                self.next_stamp = self.next_stamp + 1;
                return Ok(made);
            },
            None => {},
        }
        Err(ResolveError::ServiceNotRegistered(key))
    }

    /// Empties the singleton table and nothing else.
    pub fn clear_singletons(&mut self)
        ensures
            final(self)@ == (ProviderView {
                singletons: Map::<u64, Service>::empty(),
                ..old(self)@
            }),
            old(self)@.inv() ==> final(self)@.inv(),
    {
        self.singletons.clear();
    }

    /// Empties the scoped-factory table and nothing else; in particular the
    /// singleton table keeps its entries.
    pub fn clear_scoped(&mut self)
        ensures
            final(self)@ == (ProviderView { scoped: Map::<u64, u64>::empty(), ..old(self)@ }),
            old(self)@.inv() ==> final(self)@.inv(),
    {
        self.scoped.clear();
    }

    /// Empties the scoped-instance cache and nothing else: the scope
    /// boundary that matters per unit of work. Factories stay registered, so
    /// the next resolution of a scoped key constructs afresh.
    pub fn clear_scoped_instances(&mut self)
        ensures
            final(self)@ == (ProviderView {
                scoped_instances: Map::<u64, Service>::empty(),
                ..old(self)@
            }),
            old(self)@.inv() ==> final(self)@.inv(),
    {
        self.scoped_instances.clear();
    }

    /// The coarse composite reset: empties the singleton table and the
    /// scoped-factory table (and only those), as used between independent
    /// top-level units of work.
    pub fn clear_scope(&mut self)
        ensures
            final(self)@ == (ProviderView {
                singletons: Map::<u64, Service>::empty(),
                scoped: Map::<u64, u64>::empty(),
                ..old(self)@
            }),
            old(self)@.inv() ==> final(self)@.inv(),
    {
        self.clear_singletons();
        self.clear_scoped();
    }

    /// The current value of the construction-stamp counter. Exposed so a
    /// host can check, before resolving, that the counter has room left.
    pub fn next_stamp(&self) -> (n: u64)
        ensures
            n == self@.next_stamp,
    {
        self.next_stamp
    }
}

/// The coarse reset of a registry passed explicitly, for callers that hold
/// one registry for many units of work.
pub fn clear_provider_scope(provider: &mut ServiceProvider)
    ensures
        final(provider)@ == (ProviderView {
            singletons: Map::<u64, Service>::empty(),
            scoped: Map::<u64, u64>::empty(),
            ..old(provider)@
        }),
        old(provider)@.inv() ==> final(provider)@.inv(),
{
    provider.clear_scope();
}

/// Clears the scoped-instance cache of a registry passed explicitly.
pub fn clear_scoped_instances(provider: &mut ServiceProvider)
    ensures
        final(provider)@ == (ProviderView {
            scoped_instances: Map::<u64, Service>::empty(),
            ..old(provider)@
        }),
        old(provider)@.inv() ==> final(provider)@.inv(),
{
    provider.clear_scoped_instances();
}

/// Runs one unit of work against the registry and then unconditionally
/// clears the scoped-instance cache, so no resolution after this call can
/// observe an instance cached during the scope that just ended.
pub fn with_scope<F: FnOnce(ServiceProvider) -> ServiceProvider>(
    provider: ServiceProvider,
    scoped_function: F,
) -> (r: ServiceProvider)
    requires
        call_requires(scoped_function, (provider,)),
    ensures
        r@.scoped_instances == Map::<u64, Service>::empty(),
        exists|mid: ServiceProvider|
            call_ensures(scoped_function, (provider,), mid) && r@ == (ProviderView {
                scoped_instances: Map::<u64, Service>::empty(),
                ..mid@
            }),
{
    let mut after = scoped_function(provider);
    after.clear_scoped_instances();
    after
}

/// Singleton identity: for a key registered as singleton, every resolution
/// returns the one registered instance and leaves the registry untouched, so
/// two resolutions — from any scopes — return the same instance.
pub proof fn lemma_singleton_identity(v: ProviderView, key: u64)
    requires
        v.singletons.contains_key(key),
    ensures
        ({
            let (r1, v1) = v.resolve(key);
            let (r2, v2) = v1.resolve(key);
            &&& r1 == Ok::<Service, ResolveError>(v.singletons[key])
            &&& v1 == v
            &&& r2 == r1
            &&& v2 == v
        }),
{
}

/// Scoped identity within a scope: for a key registered as scoped and not
/// shadowed by a singleton, two resolutions with no scope reset in between
/// return the same instance — the second one is served from the cache that
/// the first one filled (or found filled).
pub proof fn lemma_scoped_identity_within_scope(v: ProviderView, key: u64)
    requires
        !v.singletons.contains_key(key),
        v.scoped.contains_key(key),
    ensures
        ({
            let (r1, v1) = v.resolve(key);
            let (r2, v2) = v1.resolve(key);
            &&& r1 is Ok
            &&& r2 == r1
            &&& v2 == v1
        }),
{
}

/// Scoped instances are fresh per scope: for a key registered as scoped and
/// not shadowed by a singleton, the instance resolved before a reset of the
/// scoped-instance cache and the instance resolved after it are distinct
/// (their stamps differ — the later one is strictly larger).
pub proof fn lemma_scoped_fresh_after_reset(v: ProviderView, key: u64)
    requires
        v.inv(),
        !v.singletons.contains_key(key),
        v.scoped.contains_key(key),
        v.next_stamp < u64::MAX,
    ensures
        ({
            let (r1, v1) = v.resolve(key);
            let cleared = ProviderView {
                scoped_instances: Map::<u64, Service>::empty(),
                ..v1
            };
            let (r2, v2) = cleared.resolve(key);
            &&& r1 is Ok
            &&& r2 is Ok
            &&& r1->Ok_0.stamp < r2->Ok_0.stamp
            &&& r1->Ok_0 != r2->Ok_0
        }),
{
}

/// Transient non-identity: for a key registered only as transient, two
/// consecutive resolutions — with no scope boundary in between — yield
/// distinct instances, and nothing is ever cached for the key.
pub proof fn lemma_transient_non_identity(v: ProviderView, key: u64)
    requires
        !v.singletons.contains_key(key),
        !v.scoped_instances.contains_key(key),
        !v.scoped.contains_key(key),
        v.transients.contains_key(key),
        v.next_stamp + 1 < u64::MAX,
    ensures
        ({
            let (r1, v1) = v.resolve(key);
            let (r2, v2) = v1.resolve(key);
            &&& r1 is Ok
            &&& r2 is Ok
            &&& r1->Ok_0 != r2->Ok_0
            &&& v1.scoped_instances == v.scoped_instances
            &&& v2.scoped_instances == v.scoped_instances
        }),
{
}

/// Precedence: when a key is registered under more than one lifetime
/// policy, a singleton entry wins over a cached scoped instance, which wins
/// over a scoped factory, which wins over a transient factory.
pub proof fn lemma_resolution_precedence(v: ProviderView, key: u64)
    ensures
        v.singletons.contains_key(key) ==> v.resolve(key).0 == Ok::<Service, ResolveError>(
            v.singletons[key],
        ),
        !v.singletons.contains_key(key) && v.scoped_instances.contains_key(key) ==> v.resolve(
            key,
        ).0 == Ok::<Service, ResolveError>(v.scoped_instances[key]),
        !v.singletons.contains_key(key) && !v.scoped_instances.contains_key(key)
            && v.scoped.contains_key(key) ==> v.resolve(key).0 == Ok::<Service, ResolveError>(
            Service { key, stamp: v.next_stamp, data: v.scoped[key] },
        ),
        !v.singletons.contains_key(key) && !v.scoped_instances.contains_key(key)
            && !v.scoped.contains_key(key) && v.transients.contains_key(key) ==> v.resolve(key).0
            == Ok::<Service, ResolveError>(
            Service { key, stamp: v.next_stamp, data: v.transients[key] },
        ),
{
}

/// Missing registration: resolving a key that no table holds always fails
/// with `ServiceNotRegistered` for that key and mutates nothing — no
/// instance is returned and no partial state is left behind.
pub proof fn lemma_unregistered_resolution_fails(v: ProviderView, key: u64)
    requires
        !v.registered(key),
        !v.scoped_instances.contains_key(key),
    ensures
        v.resolve(key) == (
            Err::<Service, ResolveError>(ResolveError::ServiceNotRegistered(key)),
            v,
        ),
{
}

/// Key consistency: in a well-formed registry every successful resolution
/// returns an instance tagged with the requested key — the analogue of "a
/// stored instance always downcasts to the type it was stored under".
pub proof fn lemma_resolved_instance_matches_key(v: ProviderView, key: u64)
    requires
        v.inv(),
        v.next_stamp < u64::MAX,
    ensures
        ({
            let (r, v2) = v.resolve(key);
            &&& r is Ok ==> r->Ok_0.key == key
            &&& v2.inv()
        }),
{
    let (r, v2) = v.resolve(key);
    if !v.singletons.contains_key(key) && !v.scoped_instances.contains_key(key)
        && v.scoped.contains_key(key) {
        let made = Service { key, stamp: v.next_stamp, data: v.scoped[key] };
        assert forall|k: u64| v2.scoped_instances.contains_key(k) implies (
        #[trigger] v2.scoped_instances[k]).key == k && v2.scoped_instances[k].stamp
            < v2.next_stamp by {
            if k != key {
                assert(v.scoped_instances.contains_key(k));
            }
        }
    }
}

} // verus!
