//! The registry's behavior per lifetime policy, one provider per test.
//! Service identity is observed through the construction stamp each
//! instance carries; a registered default payload stands in for the
//! service's own state.

use service_registry::provider::clear_provider_scope;
use service_registry::provider::with_scope;
use service_registry::provider::Service;
use service_registry::provider::ServiceProvider;
use std::sync::Arc;
use std::sync::RwLock;

const SINGLETON_KEY: u64 = 1;
const SCOPED_KEY: u64 = 2;
const TRANSIENT_KEY: u64 = 3;

const SINGLETON_VALUE: u64 = 10;
const SCOPED_VALUE: u64 = 20;
const TRANSIENT_VALUE: u64 = 30;

fn new_singleton_service(stamp: u64) -> Service {
    Service {
        key: SINGLETON_KEY,
        stamp,
        data: SINGLETON_VALUE,
    }
}

#[test]
fn test_provider_scoped_service() {
    let mut provider = ServiceProvider::new();
    clear_provider_scope(&mut provider);
    provider.add_scoped(SCOPED_KEY, SCOPED_VALUE);

    let scoped_service = provider.provide(SCOPED_KEY).unwrap();

    assert_eq!(scoped_service.data, SCOPED_VALUE);
    assert_eq!(scoped_service.key, SCOPED_KEY);
}

#[test]
fn test_provider_singleton_service() {
    let mut provider = ServiceProvider::new();
    clear_provider_scope(&mut provider);
    provider.add_singleton(new_singleton_service(0));

    let singleton_service = provider.provide(SINGLETON_KEY).unwrap();

    assert_eq!(singleton_service.data, SINGLETON_VALUE);
}

#[test]
fn test_provider_transient_service() {
    let mut provider = ServiceProvider::new();
    clear_provider_scope(&mut provider);
    provider.add_transient(TRANSIENT_KEY, TRANSIENT_VALUE);

    let transient_service = provider.provide(TRANSIENT_KEY).unwrap();

    assert_eq!(transient_service.data, TRANSIENT_VALUE);
    assert_eq!(transient_service.key, TRANSIENT_KEY);
}

#[test]
fn test_singleton_service_time_consistency() {
    let mut provider = ServiceProvider::new();
    clear_provider_scope(&mut provider);

    let service1 = new_singleton_service(7);
    let initial_time = service1.stamp;
    provider.add_singleton(service1);

    let service2 = provider.provide(SINGLETON_KEY).unwrap();
    let subsequent_time = service2.stamp;

    assert_eq!(service2.data, SINGLETON_VALUE);
    assert_eq!(
        initial_time, subsequent_time,
        "The created_at time should remain consistent for singleton services."
    );
}

#[test]
fn test_scoped_service_time_consistency() {
    let mut provider = ServiceProvider::new();
    clear_provider_scope(&mut provider);

    provider.add_scoped(SCOPED_KEY, SCOPED_VALUE);

    let service1 = provider.provide(SCOPED_KEY).unwrap();
    let initial_time = service1.stamp;
    let service2 = provider.provide(SCOPED_KEY).unwrap();
    let subsequent_time = service2.stamp;

    assert_eq!(service2.data, SCOPED_VALUE);
    assert_eq!(
        initial_time, subsequent_time,
        "The created_at time should remain consistent for scoped services."
    );
}

#[test]
fn test_transient_service_time_inconsistency() {
    let mut provider = ServiceProvider::new();
    clear_provider_scope(&mut provider);

    provider.add_transient(TRANSIENT_KEY, TRANSIENT_VALUE);

    let service1 = provider.provide(TRANSIENT_KEY).unwrap();
    let initial_time = service1.stamp;
    let service2 = provider.provide(TRANSIENT_KEY).unwrap();
    let subsequent_time = service2.stamp;

    assert_eq!(service2.data, TRANSIENT_VALUE);
    assert_ne!(
        initial_time, subsequent_time,
        "The created_at time shouldn't remain consistent for transient services."
    );
}

#[test]
fn test_clear_scoped() {
    let mut provider = ServiceProvider::new();
    clear_provider_scope(&mut provider);
    let initial_time = Arc::new(RwLock::new(None));
    let subsequent_time = Arc::new(RwLock::new(None));

    provider.add_scoped(SCOPED_KEY, SCOPED_VALUE);

    let provider = {
        let initial_time_ref = Arc::clone(&initial_time);
        with_scope(provider, move |mut scoped_provider| {
            let service1 = scoped_provider.provide(SCOPED_KEY).unwrap();
            let mut initial_time_lock = initial_time_ref.write().unwrap();
            *initial_time_lock = Some(service1.stamp);
            scoped_provider
        })
    };

    {
        let subsequent_time_ref = Arc::clone(&subsequent_time);
        with_scope(provider, move |mut scoped_provider| {
            let service2 = scoped_provider.provide(SCOPED_KEY).unwrap();
            let mut subsequent_time_lock = subsequent_time_ref.write().unwrap();
            *subsequent_time_lock = Some(service2.stamp);
            scoped_provider
        });
    }

    let initial_time_value = initial_time.read().unwrap().expect("initial_time should be set");
    let subsequent_time_value = subsequent_time
        .read()
        .unwrap()
        .expect("subsequent_time should be set");

    assert_ne!(
        initial_time_value, subsequent_time_value,
        "The created_at time shouldn't remain consistent for scoped services worked in different scoped block.."
    );
}
