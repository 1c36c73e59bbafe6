//! The routes of a server, and the choice of the route that answers a request.

use crate::http_error::HttpServerError;
use crate::http_path::{match_outcome, template_of, MatchOutcome, PathCompareResult, RouteMappingPath};
use crate::http_request::{parse_request, HttpMethod, HttpRequest, RequestText};
use crate::http_response::{default_response, wire_text, HttpResponse, HttpStatusCode, ResponseText};
use crate::text_map::TextMap;
use vstd::prelude::*;
use vstd::std_specs::convert::FromSpecImpl;
use vstd::utf8::*;

verus! {

/// What a handler is given: the request, and the variables of the route with
/// the texts that the request has in their places.
pub struct RequestContext<'a> {
    pub http_request: &'a HttpRequest,
    pub path_variables: TextMap,
}

/// A route: a method, a path, and the handler that answers the requests that
/// have that method and match that path.
pub struct RouteHandle<F> {
    pub method: HttpMethod,
    pub route: RouteMappingPath,
    pub function: F,
}

/// Collects the address to listen on and the routes of a server.
pub struct HttpServerBuilder<F> {
    listener_addr: Option<String>,
    route_handles: Vec<RouteHandle<F>>,
}

/// The routes of a server, in the order in which they were added.
pub struct RequestHandler<F> {
    route_handles: Vec<RouteHandle<F>>,
}

/// The variables that come with a match; none where it has none.
pub open spec fn bound_variables(outcome: MatchOutcome) -> Map<Seq<char>, Seq<char>> {
    match outcome {
        MatchOutcome::MatchingWithVariables(variables) => variables,
        _ => Map::empty(),
    }
}

/// The response that a request gets which no route serves: `404 Not Found`,
/// `HTTP/1.1`, no header and no body.
pub open spec fn not_found() -> ResponseText {
    ResponseText { status: HttpStatusCode::NotFound, ..default_response() }
}

impl<'a> RequestContext<'a> {
    /// The context of `http_request` with the given variables.
    pub fn new(http_request: &'a HttpRequest, path_variables: TextMap) -> (context: RequestContext<'a>)
        ensures
            context.http_request == http_request,
            context.path_variables == path_variables,
    {
        RequestContext { http_request, path_variables }
    }
}

impl<F: Fn(&RequestContext) -> HttpResponse> RouteHandle<F> {
    /// The route for the requests with `method` whose path matches `route`.
    pub fn new(method: HttpMethod, route: &str, function: F) -> (handle: RouteHandle<F>)
        ensures
            handle.method == method,
            handle.route.raw() == route@,
            handle.route.template() == template_of(route@),
            handle.function == function,
    {
        RouteHandle { method, route: RouteMappingPath::from(route), function }
    }

    /// Whether the route serves `request`: the methods are equal and the
    /// path matches.
    pub open spec fn serves(&self, request: RequestText) -> bool {
        self.method == request.request_line.method && !(match_outcome(
            self.route.template(),
            request.request_line.segments,
        ) is NotMatching)
    }

    /// The variables of the route with what `request` has in their places.
    pub open spec fn variables(&self, request: RequestText) -> Map<Seq<char>, Seq<char>> {
        bound_variables(match_outcome(self.route.template(), request.request_line.segments))
    }

    /// Whether `response` is what the handler may return for `request`, called
    /// with the request and the variables of the route.
    pub open spec fn answers(&self, request: &HttpRequest, response: HttpResponse) -> bool {
        exists|context: RequestContext|
            context.http_request == request && context.path_variables.as_map() == self.variables(
                request@,
            ) && #[trigger] call_ensures(self.function, (&context,), response)
    }

    /// Whether the handler can be called with whatever context.
    pub open spec fn callable(&self) -> bool {
        forall|context: RequestContext| #[trigger] call_requires(self.function, (&context,))
    }
}

impl<F: Fn(&RequestContext) -> HttpResponse> RequestHandler<F> {
    /// The routes, in the order in which they were added.
    pub closed spec fn routes(&self) -> Seq<RouteHandle<F>> {
        self.route_handles@
    }

    /// Whether the route at `index` is the one that answers `request`: it
    /// serves the request, and none before it does.
    pub open spec fn selects(&self, request: RequestText, index: int) -> bool {
        &&& 0 <= index < self.routes().len()
        &&& self.routes()[index].serves(request)
        &&& forall|earlier: int| 0 <= earlier < index ==> !(#[trigger] self.routes()[earlier]).serves(request)
    }

    /// Whether no route serves `request`.
    pub open spec fn serves_not(&self, request: RequestText) -> bool {
        forall|index: int| 0 <= index < self.routes().len() ==> !(#[trigger] self.routes()[index]).serves(request)
    }

    /// Whether every handler can be called with whatever context.
    pub open spec fn callable(&self) -> bool {
        forall|index: int| 0 <= index < self.routes().len() ==> (#[trigger] self.routes()[index]).callable()
    }

    /// Whether `response` is an answer to `request`: what the handler of the
    /// first route that serves the request may return for it, or, where no
    /// route serves the request, `404 Not Found`.
    pub open spec fn answers(&self, request: &HttpRequest, response: HttpResponse) -> bool {
        &&& forall|index: int| #[trigger]
            self.selects(request@, index) ==> self.routes()[index].answers(request, response)
        &&& self.serves_not(request@) ==> response@ == not_found()
    }

    /// Among the first `count` routes, the index of the first that serves
    /// `request`, or `count` where none of them does.
    spec fn first_serving(&self, request: RequestText, count: int) -> int
        decreases count,
    {
        if count <= 0 {
            0
        } else {
            let before = self.first_serving(request, count - 1);
            if before < count - 1 {
                before
            } else if self.routes()[count - 1].serves(request) {
                count - 1
            } else {
                count
            }
        }
    }

    /// What `first_serving` finds is the first route that serves the request.
    proof fn lemma_first_serving(&self, request: RequestText, count: int)
        requires
            0 <= count <= self.routes().len(),
        ensures
            0 <= self.first_serving(request, count) <= count,
            self.first_serving(request, count) < count ==> self.selects(
                request,
                self.first_serving(request, count),
            ),
            forall|index: int|
                0 <= index < self.first_serving(request, count) && index < count ==> !(
                #[trigger] self.routes()[index]).serves(request),
        decreases count,
    {
        if count > 0 {
            self.lemma_first_serving(request, count - 1);
        }
    }

    /// Each request has its one answer: either no route serves it, or exactly
    /// one route is the first that does.
    pub proof fn lemma_one_route_answers(&self, request: RequestText)
        ensures
            self.serves_not(request) <==> forall|index: int| !self.selects(request, index),
            forall|one: int, other: int|
                self.selects(request, one) && self.selects(request, other) ==> one == other,
    {
        let count = self.routes().len() as int;
        self.lemma_first_serving(request, count);
        let first = self.first_serving(request, count);
        if !self.serves_not(request) {
            assert(first < count);
            assert(self.selects(request, first));
        }
        if self.serves_not(request) {
            assert forall|index: int| !self.selects(request, index) by {
                if self.selects(request, index) {
                    assert(self.routes()[index].serves(request));
                }
            }
        }
        assert forall|one: int, other: int|
            self.selects(request, one) && self.selects(request, other) implies one == other by {
            if one < other {
                assert(!self.routes()[one].serves(request));
            } else if other < one {
                assert(!self.routes()[other].serves(request));
            }
        }
    }

    /// The first route that serves `http_request`: its index, and the variables
    /// of the route with what the request has in their places.
    pub fn find_route(&self, http_request: &HttpRequest) -> (found: Option<(usize, TextMap)>)
        ensures
            match found {
                Some((index, variables)) => self.selects(http_request@, index as int)
                    && variables.as_map() == self.routes()[index as int].variables(http_request@),
                None => self.serves_not(http_request@),
            },
    {
        let path = &http_request.request_line.path;
        let mut index: usize = 0;
        while index < self.route_handles.len()
            invariant
                index <= self.routes().len(),
                path == &http_request.request_line.path,
                forall|earlier: int|
                    0 <= earlier < index ==> !(#[trigger] self.routes()[earlier]).serves(http_request@),
            decreases self.routes().len() - index,
        {
            let route_handle = &self.route_handles[index];
            if route_handle.method == http_request.request_line.method {
                match route_handle.route.matches(path) {
                    PathCompareResult::NotMatching => {},
                    PathCompareResult::Matching => {
                        let variables = TextMap::new();
                        assert(variables.as_map() =~= Map::empty());
                        return Some((index, variables));
                    },
                    PathCompareResult::MatchingWithVariables(variables) => {
                        return Some((index, variables));
                    },
                }
            }
            index = index + 1;
        }
        None
    }

    /// Answers `http_request`: with what the handler of the first route that
    /// serves it returns, or with `404 Not Found` where no route serves it.
    pub fn handle(&self, http_request: &HttpRequest) -> (response: HttpResponse)
        requires
            self.callable(),
        ensures
            self.answers(http_request, response),
    {
        match self.find_route(http_request) {
            Some((index, variables_map)) => {
                let context = RequestContext::new(http_request, variables_map);
                let response = (self.route_handles[index].function)(&context);
                assert(self.routes()[index as int].answers(http_request, response));
                assert forall|other: int| #[trigger]
                    self.selects(http_request@, other) implies other == index by {
                    if other < index {
                        assert(!self.routes()[other].serves(http_request@));
                    } else if other > index {
                        assert(!self.routes()[index as int].serves(http_request@));
                    }
                }
                response
            },
            None => HttpResponse::from(HttpStatusCode::NotFound),
        }
    }

    /// Decodes the request in `buffer`, answers it, and returns the bytes of
    /// the response. A request that cannot be decoded gets no response.
    pub fn respond(&self, buffer: &[u8]) -> (result: Result<Vec<u8>, HttpServerError>)
        requires
            self.callable(),
        ensures
            match result {
                Ok(bytes) => exists|request: HttpRequest, response: HttpResponse|
                    parse_request(buffer@) == Ok::<RequestText, HttpServerError>(request@)
                        && #[trigger] self.answers(&request, response) && bytes@ == encode_utf8(
                        wire_text(response@),
                    ),
                Err(error) => parse_request(buffer@) == Err::<RequestText, HttpServerError>(error),
            },
    {
        match HttpRequest::from_bytes(buffer) {
            Ok(http_request) => {
                let http_response = self.handle(&http_request);
                Ok(http_response.to_bytes())
            },
            Err(error) => Err(error),
        }
    }
}

impl<F: Fn(&RequestContext) -> HttpResponse> From<Vec<RouteHandle<F>>> for RequestHandler<F> {
    fn from(value: Vec<RouteHandle<F>>) -> (handler: RequestHandler<F>)
        ensures
            handler.routes() == value@,
    {
        RequestHandler { route_handles: value }
    }
}

impl<F: Fn(&RequestContext) -> HttpResponse> FromSpecImpl<Vec<RouteHandle<F>>> for RequestHandler<F> {
    open spec fn obeys_from_spec() -> bool {
        false
    }

    open spec fn from_spec(value: Vec<RouteHandle<F>>) -> RequestHandler<F> {
        arbitrary()
    }
}

impl<F: Fn(&RequestContext) -> HttpResponse> HttpServerBuilder<F> {
    /// The address to listen on, if one was given.
    pub closed spec fn address(&self) -> Option<Seq<char>> {
        match self.listener_addr {
            Some(text) => Some(text@),
            None => None,
        }
    }

    /// The routes, in the order in which they were added.
    pub closed spec fn routes(&self) -> Seq<RouteHandle<F>> {
        self.route_handles@
    }

    /// A builder without address and without routes.
    pub fn new() -> (builder: HttpServerBuilder<F>)
        ensures
            builder.address().is_none(),
            builder.routes() == Seq::<RouteHandle<F>>::empty(),
    {
        HttpServerBuilder { listener_addr: None, route_handles: Vec::new() }
    }

    /// Sets the address to listen on, written as `host:port`.
    pub fn listener(self, addr: &str) -> (builder: HttpServerBuilder<F>)
        ensures
            builder.address() == Some(addr@),
            builder.routes() == self.routes(),
    {
        let mut builder = self;
        builder.listener_addr = Some(addr.to_owned());
        builder
    }

    /// Adds a route behind those that are there.
    pub fn add_route(self, route_handle: RouteHandle<F>) -> (builder: HttpServerBuilder<F>)
        ensures
            builder.address() == self.address(),
            builder.routes() == self.routes().push(route_handle),
    {
        let mut builder = self;
        builder.route_handles.push(route_handle);
        builder
    }

    /// What a server is made of: the address to listen on, which is empty
    /// where none was given, and the routes.
    pub fn into_parts(self) -> (parts: (String, RequestHandler<F>))
        ensures
            parts.0@ == match self.address() {
                Some(text) => text,
                None => Seq::empty(),
            },
            parts.1.routes() == self.routes(),
    {
        let addr = match self.listener_addr {
            Some(text) => text,
            None => String::new(),
        };
        (addr, RequestHandler::from(self.route_handles))
    }
}

impl<F: Fn(&RequestContext) -> HttpResponse> Default for HttpServerBuilder<F> {
    fn default() -> (builder: HttpServerBuilder<F>)
        ensures
            builder.address().is_none(),
            builder.routes() == Seq::<RouteHandle<F>>::empty(),
    {
        HttpServerBuilder::new()
    }
}

} // verus!
