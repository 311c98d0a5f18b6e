//! The host layer: startup-seeded registry, exact-match route lookup, and
//! last-wins collision handling.

use service_registry::host::IStartup;
use service_registry::host::Route;
use service_registry::host::WebHost;
use service_registry::provider::ServiceProvider;

const CONFIG_KEY: u64 = 21;
const CONFIG_VALUE: u64 = 99;

const HELLO_HANDLER: u64 = 1;
const ECHO_HANDLER: u64 = 2;

struct AppStartup;

impl IStartup for AppStartup {
    fn configure_services(provider: &mut ServiceProvider) {
        provider.add_scoped(CONFIG_KEY, CONFIG_VALUE);
    }
}

fn dispatch(handler: u64, path: String) -> String {
    match handler {
        HELLO_HANDLER => format!("hello from {}", path),
        ECHO_HANDLER => path,
        _ => String::new(),
    }
}

fn hello_route() -> Route {
    Route {
        method: "GET".to_string(),
        path: "/hello".to_string(),
        handler: HELLO_HANDLER,
        has_body: false,
    }
}

#[test]
fn startup_seeds_the_registry() {
    let mut host = WebHost::new::<AppStartup>();
    let resolved = host.provider_mut().provide(CONFIG_KEY).unwrap();
    assert_eq!(resolved.data, CONFIG_VALUE);
    assert_eq!(resolved.key, CONFIG_KEY);
}

#[test]
fn handle_request_runs_the_matching_handler() {
    let mut host = WebHost::new::<AppStartup>();
    host.add_route(hello_route());

    let response = host.handle_request("GET", "/hello", None, dispatch);
    assert_eq!(response, Some("hello from /hello".to_string()));
}

#[test]
fn handle_request_misses_on_unknown_route() {
    let mut host = WebHost::new::<AppStartup>();
    host.add_route(hello_route());

    assert_eq!(host.handle_request("POST", "/hello", None, dispatch), None);
    assert_eq!(host.handle_request("GET", "/bye", None, dispatch), None);
    assert_eq!(host.handle_request("get", "/hello", None, dispatch), None);
}

#[test]
fn colliding_route_registration_last_wins() {
    let mut host = WebHost::new::<AppStartup>();
    host.add_route(hello_route());
    host.add_route(Route {
        method: "GET".to_string(),
        path: "/hello".to_string(),
        handler: ECHO_HANDLER,
        has_body: false,
    });

    let response = host.handle_request("GET", "/hello", None, dispatch);
    assert_eq!(response, Some("/hello".to_string()));
}
