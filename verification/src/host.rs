//! The host layer around the registry: a plain exact-match route table from
//! method/path pairs to handler tags, and a startup trait through which an
//! application seeds the registry before any request is served. The table
//! does no pattern matching and no parameter extraction; when two routes
//! collide on method and path, the last registration silently wins.
//!
//! A handler is named by a plain `u64` tag; the host that owns the actual
//! handler functions passes a dispatcher to `handle_request`, which calls it
//! with the matched tag and the request path.

use vstd::prelude::*;
use crate::provider::ProviderView;
use crate::provider::ServiceProvider;

verus! {

/// One route: an exact method and path, the tag of the handler to run, and
/// whether the handler expects a request body.
#[derive(Clone)]
pub struct Route {
    pub method: String,
    pub path: String,
    pub handler: u64,
    pub has_body: bool,
}

impl Route {
    /// Whether this route serves exactly the given method and path.
    pub open spec fn matches(self, method: Seq<char>, path: Seq<char>) -> bool {
        self.method@ == method && self.path@ == path
    }
}

/// The route that a lookup finds: the latest registered route whose method
/// and path both match exactly, if any.
pub open spec fn find_route(routes: Seq<Route>, method: Seq<char>, path: Seq<char>) -> Option<
    Route,
>
    decreases routes.len(),
{
    if routes.len() == 0 {
        None
    } else if routes.last().matches(method, path) {
        Some(routes.last())
    } else {
        find_route(routes.drop_last(), method, path)
    }
}

/// Routes at positions `i` and beyond that do not match have no bearing on
/// what a lookup finds.
proof fn lemma_find_route_skip_suffix(routes: Seq<Route>, i: int, method: Seq<char>, path: Seq<
    char,
>)
    requires
        0 <= i <= routes.len(),
        forall|j: int| i <= j < routes.len() ==> !(#[trigger] routes[j]).matches(method, path),
    ensures
        find_route(routes, method, path) == find_route(routes.take(i), method, path),
    decreases routes.len(),
{
    if routes.len() == i {
        assert(routes.take(i) =~= routes);
    } else {
        assert(routes.last() == routes[routes.len() - 1]);
        lemma_find_route_skip_suffix(routes.drop_last(), i, method, path);
        assert(routes.drop_last().take(i) =~= routes.take(i));
    }
}

/// The startup hook: an application implements it to perform all its
/// registrations, once, before any resolution happens. An implementation
/// must leave the registry well-formed; nothing else is promised about what
/// it registers.
pub trait IStartup {
    fn configure_services(provider: &mut ServiceProvider)
        requires
            old(provider)@.inv(),
        ensures
            final(provider)@.inv(),
    ;
}

/// A web host: the registry it was configured with and its route table.
pub struct WebHost {
    provider: ServiceProvider,
    routes: Vec<Route>,
}

impl WebHost {
    /// The registry the host carries, as its mathematical model.
    pub closed spec fn spec_provider(self) -> ProviderView {
        self.provider@
    }

    /// The route table, in registration order.
    pub closed spec fn spec_routes(self) -> Seq<Route> {
        self.routes@
    }

    /// A host whose registry a fresh `T::configure_services` has seeded and
    /// whose route table is still empty.
    pub fn new<T: IStartup>() -> (host: WebHost)
        ensures
            host.spec_routes().len() == 0,
            host.spec_provider().inv(),
    {
        let mut provider = ServiceProvider::new();
        T::configure_services(&mut provider);
        WebHost { provider, routes: Vec::new() }
    }

    /// Registers a route. A later route with the same method and path takes
    /// precedence over an earlier one; the registry is untouched.
    pub fn add_route(&mut self, route: Route)
        ensures
            final(self).spec_routes() == old(self).spec_routes().push(route),
            final(self).spec_provider() == old(self).spec_provider(),
    {
        self.routes.push(route);
    }

    /// Shared access to the host's registry.
    pub fn provider(&self) -> (p: &ServiceProvider)
        ensures
            p@ == self.spec_provider(),
    {
        &self.provider
    }

    /// Exclusive access to the host's registry, for resolutions and further
    /// registrations; the route table stays as it is.
    pub fn provider_mut(&mut self) -> (p: &mut ServiceProvider)
        ensures
            (*p)@ == old(self).spec_provider(),
            final(self).spec_provider() == (*final(p))@,
            final(self).spec_routes() == old(self).spec_routes(),
    {
        &mut self.provider
    }

    /// Serves one request: looks the method/path pair up in the route table
    /// and, on a hit, runs the dispatcher on the matched route's handler tag
    /// and the request path, returning its response; on a miss, returns
    /// nothing. The body travels with the request but the lookup does not
    /// read it.
    #[allow(unused_variables)]
    pub fn handle_request<F: Fn(u64, String) -> String>(
        &self,
        method: &str,
        path: &str,
        body: Option<String>,
        dispatch: F,
    ) -> (r: Option<String>)
        requires
            forall|handler: u64, arg: String| call_requires(dispatch, (handler, arg)),
        ensures
            ({
                let found = find_route(self.spec_routes(), method@, path@);
                match r {
                    Some(response) => found is Some && exists|arg: String|
                        arg@ == path@ && call_ensures(
                            dispatch,
                            ((found->Some_0).handler, arg),
                            response,
                        ),
                    None => found is None,
                }
            }),
    {
        let method_string: String = method.to_owned();
        let path_string: String = path.to_owned();
        let mut i: usize = self.routes.len();
        while i > 0
            invariant
                i <= self.routes.len(),
                forall|j: int|
                    i <= j < self.routes@.len() ==> !(#[trigger] self.routes@[j]).matches(
                        method_string@,
                        path_string@,
                    ),
                method_string@ == method@,
                path_string@ == path@,
                forall|handler: u64, arg: String| call_requires(dispatch, (handler, arg)),
            decreases i,
        {
            i = i - 1;
            let route = &self.routes[i];
            if route.method == method_string && route.path == path_string {
                proof {
                    lemma_find_route_skip_suffix(self.routes@, i + 1, method@, path@);
                    assert(self.routes@.take(i + 1).last() == self.routes@[i as int]);
                }
                let response = dispatch(route.handler, path_string.clone());
                proof {
                    assert(path_string@ == path@ && call_ensures(
                        dispatch,
                        (self.routes@[i as int].handler, path_string),
                        response,
                    ));
                }
                return Some(response);
            }
        }
        proof {
            lemma_find_route_skip_suffix(self.routes@, 0, method@, path@);
            assert(self.routes@.take(0) =~= Seq::<Route>::empty());
        }
        None
    }
}

} // verus!
