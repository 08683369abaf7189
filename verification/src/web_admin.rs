//! An administration backend: a table of routes and the handlers that
//! answer requests to them.

use crate::error::{fails_with, ErrorView, KituError};
use vstd::hash_map::StringHashMap;
use vstd::prelude::*;

verus! {

/// A request, by its path.
#[derive(Debug, Clone, PartialEq, Eq)]
pub struct Request {
    /// The path, such as `/health`.
    pub path: String,
}

/// The answer to a request.
#[derive(Debug, Clone, PartialEq, Eq)]
pub struct Response {
    /// The status code.
    pub status: u16,
    /// The payload.
    pub body: String,
}

/// The behaviour behind a route.
trait RouteHandler: Send + Sync {
    /// Whether the handler can be called with `request`.
    spec fn accepts(&self, request: &Request) -> bool;

    /// Whether the handler, called with `request`, may return `outcome`.
    spec fn answers(&self, request: &Request, outcome: Result<Response, KituError>) -> bool;

    /// Answers `request`.
    fn respond(&self, request: &Request) -> (outcome: Result<Response, KituError>)
        requires
            self.accepts(request),
        ensures
            self.answers(request, outcome),
    ;
}

impl<F: Fn(&Request) -> Result<Response, KituError> + Send + Sync> RouteHandler for F {
    spec fn accepts(&self, request: &Request) -> bool {
        call_requires(*self, (request,))
    }

    spec fn answers(&self, request: &Request, outcome: Result<Response, KituError>) -> bool {
        call_ensures(*self, (request,), outcome)
    }

    fn respond(&self, request: &Request) -> (outcome: Result<Response, KituError>) {
        self(request)
    }
}

/// A route's handler, behind a handle that hides its type. The handler can
/// be called with every request.
pub struct Route {
    handler: Box<dyn RouteHandler>,
}

impl Route {
    #[verifier::type_invariant]
    spec fn total(&self) -> bool {
        forall|request: Request| #[trigger] self.handler.accepts(&request)
    }

    /// The handle that holds `handler`.
    pub closed spec fn holding<F>(handler: F) -> Route where
        F: Fn(&Request) -> Result<Response, KituError> + Send + Sync + 'static,
     {
        Route { handler: Box::new(handler) }
    }

    /// Whether the held handler, called with `request`, may return `outcome`.
    pub closed spec fn answers(&self, request: Request, outcome: Result<Response, KituError>) -> bool {
        self.handler.answers(&request, outcome)
    }
}

/// A route answers as the handler that it holds.
pub proof fn lemma_held_route_answers<F>(
    handler: F,
    request: Request,
    outcome: Result<Response, KituError>,
) where F: Fn(&Request) -> Result<Response, KituError> + Send + Sync + 'static
    ensures
        Route::holding(handler).answers(request, outcome) == call_ensures(
            handler,
            (&request,),
            outcome,
        ),
{
}

/// The failure reported while the server is not running.
pub open spec fn not_started() -> ErrorView {
    ErrorView::NotImplemented("server not started"@)
}

/// The failure reported for a path without a route.
pub open spec fn missing_route() -> ErrorView {
    ErrorView::InvalidInput("missing route"@)
}

/// The server: its routes and whether it is running.
pub struct WebAdminServer {
    routes: StringHashMap<Route>,
    running: bool,
}

impl Default for WebAdminServer {
    /// The server without routes, not running.
    fn default() -> (server: WebAdminServer)
        ensures
            server.routes() == Map::<Seq<char>, Route>::empty(),
            !server.spec_is_running(),
    {
        WebAdminServer { routes: StringHashMap::new(), running: false }
    }
}

impl WebAdminServer {
    /// The routes, by path.
    pub closed spec fn routes(&self) -> Map<Seq<char>, Route> {
        self.routes@
    }

    /// Whether the server is running.
    pub closed spec fn spec_is_running(&self) -> bool {
        self.running
    }

    /// Registers `handler` for `path`, in place of any handler that the path
    /// had. The handler must be callable with every request.
    pub fn register_route<F>(&mut self, path: &str, handler: F) where
        F: Fn(&Request) -> Result<Response, KituError> + Send + Sync + 'static,

        requires
            forall|request: Request| call_requires(handler, (&request,)),
        ensures
            final(self).routes() == old(self).routes().insert(path@, Route::holding(handler)),
            final(self).spec_is_running() == old(self).spec_is_running(),
    {
        self.routes.insert(path.to_owned(), Route { handler: Box::new(handler) });
    }

    /// Marks the server as running.
    pub fn start(&mut self)
        ensures
            final(self).spec_is_running(),
            final(self).routes() == old(self).routes(),
    {
        self.running = true;
    }

    /// Marks the server as stopped.
    pub fn stop(&mut self)
        ensures
            !final(self).spec_is_running(),
            final(self).routes() == old(self).routes(),
    {
        self.running = false;
    }

    /// Answers `request` with the handler of its path. Fails while the
    /// server is not running; fails with invalid input if the path has no
    /// route.
    pub fn handle(&self, request: Request) -> (outcome: Result<Response, KituError>)
        ensures
            !self.spec_is_running() ==> fails_with(outcome, not_started()),
            self.spec_is_running() && !self.routes().contains_key(request.path@) ==> fails_with(
                outcome,
                missing_route(),
            ),
            self.spec_is_running() && self.routes().contains_key(request.path@)
                ==> self.routes()[request.path@].answers(request, outcome),
    {
        if !self.running {
            return Err(KituError::NotImplemented("server not started".to_owned()));
        }
        match self.routes.get(request.path.as_str()) {
            Some(route) => {
                proof {
                    use_type_invariant(route);
                }
                route.handler.respond(&request)
            },
            None => Err(KituError::InvalidInput("missing route")),
        }
    }

    /// Whether the server is running.
    #[verifier::when_used_as_spec(spec_is_running)]
    pub fn is_running(&self) -> (running: bool)
        ensures
            running == self.spec_is_running(),
    {
        self.running
    }
}

} // verus!
