//! The rules of the server: its two phases, how a raw request becomes a
//! request context, and how every outcome becomes a well-formed reply.
//!
//! Nothing here touches a socket. The embedding program accepts
//! connections, hands each request over as plain values, and sends back what
//! it gets.

use vstd::prelude::*;
use crate::error::HushError;
use crate::error::HushResult;
use crate::error::LastError;
use crate::middleware::builtin::AuthMiddleware;
use crate::middleware::builtin::CorsMiddleware;
use crate::middleware::builtin::LoggerMiddleware;
use crate::middleware::chain::delivers;
use crate::middleware::chain::fresh;
use crate::middleware::chain::Either;
use crate::middleware::chain::FunctionMiddleware;
use crate::middleware::chain::StageOf;
use crate::middleware::builtin::Stage;
use crate::strmap::StringMap;
use crate::web::handler::Handler;
use crate::middleware::chain::priorities_of;
use crate::middleware::chain::ran;
use crate::middleware::chain::runs;
use crate::middleware::chain::slot;
use crate::middleware::chain::Middleware;
use crate::middleware::chain::MiddlewareChain;
use crate::middleware::chain::MiddlewareContext;
use crate::middleware::chain::MiddlewareResult;
use crate::middleware::chain::Outcome;
use crate::text::bytes_of;
use crate::text::chars_of;
use crate::text::split_chars;
use crate::text::split_spec;
use crate::text::text_of;
use crate::text::texts;
use crate::text::uppercase_of;
use crate::types::method_named;
use crate::types::HttpMethod;
use crate::types::HttpStatus;
use crate::types::RequestContext;
use crate::types::ResponseContext;
use crate::web::handler::Answer;
use crate::web::handler::RequestHandler;
use crate::web::router::Router;

verus! {

/// How the server listens.
#[derive(Debug)]
pub struct WebServerConfig {
    pub host: String,
    pub port: u16,
    pub max_connections: usize,
    pub keep_alive: u64,
    pub request_timeout: u64,
}

impl Default for WebServerConfig {
    fn default() -> (c: Self)
        ensures
            c.host@ == "127.0.0.1"@,
            c.port == 8080,
            c.max_connections == 1000,
            c.keep_alive == 30,
            c.request_timeout == 30,
    {
        WebServerConfig {
            host: "127.0.0.1".to_owned(),
            port: 8080,
            max_connections: 1000,
            keep_alive: 30,
            request_timeout: 30,
        }
    }
}

impl Clone for WebServerConfig {
    fn clone(&self) -> (c: Self)
        ensures
            c == *self,
    {
        WebServerConfig {
            host: self.host.clone(),
            port: self.port,
            max_connections: self.max_connections,
            keep_alive: self.keep_alive,
            request_timeout: self.request_timeout,
        }
    }
}

/// The outcome that stands for an answer of the router: a response ends the
/// traversal as a response, an error as an error.
pub open spec fn outcome_of(answer: Answer, out: Outcome) -> bool {
    match answer {
        Ok(r) => out == Ok::<MiddlewareResult, HushError>(MiddlewareResult::Response(r)),
        Err(e) => out == Ok::<MiddlewareResult, HushError>(MiddlewareResult::Error(e)),
    }
}

/// The router as a stage. It has the lowest priority there is, so it runs
/// after every other stage, and it never lets a request go on.
pub struct RouterStage<H: Handler> {
    pub router: Router<H>,
}

impl<H: Handler> Middleware for RouterStage<H> {
    open spec fn name_spec(&self) -> Seq<char> {
        "router_handler"@
    }

    open spec fn priority_spec(&self) -> int {
        0x7fff_ffff
    }

    open spec fn before_spec(&self, pre: MiddlewareContext, post: MiddlewareContext, out: Outcome) -> bool {
        post == pre && exists|answer: Answer| #[trigger]
            self.router.dispatches(pre.request, answer) && outcome_of(answer, out)
    }

    open spec fn after_spec(
        &self,
        pre: MiddlewareContext,
        inner: Outcome,
        post: MiddlewareContext,
        out: Outcome,
    ) -> bool {
        post == pre && out == inner
    }

    fn name(&self) -> (n: &str) {
        "router_handler"
    }

    fn priority(&self) -> (p: i32) {
        0x7fff_ffff
    }

    fn before(&self, context: &mut MiddlewareContext) -> (out: Outcome) {
        match self.router.handle_request(&context.request) {
            Ok(response) => Ok(MiddlewareResult::Response(response)),
            Err(error) => Ok(MiddlewareResult::Error(error)),
        }
    }

    fn after(&self, context: &mut MiddlewareContext, inner: Outcome) -> (out: Outcome) {
        inner
    }
}

/// A request as the transport delivers it.
#[derive(Debug)]
pub struct RawRequest {
    pub method: String,
    pub path: String,
    /// What follows the question mark, without it.
    pub query: String,
    pub headers: Vec<(String, String)>,
    pub body: Vec<u8>,
}

/// The map after the first `n` of the pairs have been written to it in
/// order; the last write to a name wins.
pub open spec fn written(pairs: Seq<(String, String)>, n: int) -> Map<Seq<char>, Seq<char>>
    decreases n,
{
    if n <= 0 {
        Map::<Seq<char>, Seq<char>>::empty()
    } else {
        written(pairs, n - 1).insert(pairs[n - 1].0@, pairs[n - 1].1@)
    }
}

/// The map `base` after the parameters in the first `n` pieces of a query
/// string have been written to it. A piece is `name=value`; what follows a
/// second `=` is dropped, and a piece without `=` is skipped. The last write
/// to a name wins.
pub open spec fn query_map(base: Map<Seq<char>, Seq<char>>, pieces: Seq<Seq<char>>, n: int) -> Map<
    Seq<char>,
    Seq<char>,
>
    decreases n,
{
    if n <= 0 {
        base
    } else {
        let parts = split_spec(pieces[n - 1], '=');
        if parts.len() >= 2 {
            query_map(base, pieces, n - 1).insert(parts[0], parts[1])
        } else {
            query_map(base, pieces, n - 1)
        }
    }
}

/// The map `base` after the parameters of a query string have been written
/// to it.
pub open spec fn query_onto(base: Map<Seq<char>, Seq<char>>, query: Seq<char>) -> Map<
    Seq<char>,
    Seq<char>,
> {
    query_map(base, split_spec(query, '&'), split_spec(query, '&').len() as int)
}

/// The parameters of a query string.
pub open spec fn query_of(query: Seq<char>) -> Map<Seq<char>, Seq<char>> {
    query_onto(Map::<Seq<char>, Seq<char>>::empty(), query)
}

/// Writes the parameters of `query` to the request, over what it holds.
pub fn read_query(request: &mut RequestContext, query: &str)
    ensures
        final(request).query_params@ == query_onto(old(request).query_params@, query@),
        final(request).method == old(request).method,
        final(request).path == old(request).path,
        final(request).headers == old(request).headers,
        final(request).body == old(request).body,
        final(request).user_data == old(request).user_data,
        final(request).start_time == old(request).start_time,
        final(request).trace_id == old(request).trace_id,
{
    let all = chars_of(query);
    let pieces = split_chars(&all, '&');
    let mut i: usize = 0;
    while i < pieces.len()
        invariant
            i <= pieces@.len(),
            texts(pieces@) == split_spec(query@, '&'),
            request.query_params@ == query_map(old(request).query_params@, texts(pieces@), i as int),
            request.method == old(request).method,
            request.path == old(request).path,
            request.headers == old(request).headers,
            request.body == old(request).body,
            request.user_data == old(request).user_data,
            request.start_time == old(request).start_time,
            request.trace_id == old(request).trace_id,
        decreases pieces.len() - i,
    {
        assert(texts(pieces@)[i as int] == pieces@[i as int]@);
        let parts = split_chars(&pieces[i], '=');
        if parts.len() >= 2 {
            assert(texts(parts@)[0] == parts@[0]@);
            assert(texts(parts@)[1] == parts@[1]@);
            request.add_query_param(text_of(&parts[0]), text_of(&parts[1]));
        }
        i = i + 1;
    }
}

/// Whether `request` is what the raw request `raw` stands for.
pub open spec fn stands_for(raw: RawRequest, request: RequestContext) -> bool {
    &&& method_named(uppercase_of(raw.method@)) == Some(request.method)
    &&& request.path@ == raw.path@
    &&& request.body == raw.body
    &&& request.headers@ == written(raw.headers@, raw.headers@.len() as int)
    &&& request.query_params@ == query_of(raw.query@)
    &&& request.user_data@ == Map::<Seq<char>, Seq<char>>::empty()
}

/// Makes a request context of a raw request. The only thing that can be
/// wrong with it is a verb that the framework does not know.
pub fn build_request(raw: RawRequest) -> (r: HushResult<RequestContext>)
    ensures
        method_named(uppercase_of(raw.method@)) is Some ==> (r matches Ok(request) && stands_for(
            raw,
            request,
        )),
        method_named(uppercase_of(raw.method@)) is None ==> (r matches Err(
            HushError::InvalidInput(m),
        ) && m@ == "Unknown HTTP method: "@ + raw.method@),
{
    let method = match HttpMethod::from_str(raw.method.as_str()) {
        Ok(method) => method,
        Err(e) => {
            return Err(e);
        },
    };
    let mut request = RequestContext::new(method, raw.path);
    request.set_body(raw.body);
    let mut i: usize = 0;
    while i < raw.headers.len()
        invariant
            i <= raw.headers@.len(),
            request.method == method,
            request.path@ == raw.path@,
            request.body == raw.body,
            request.query_params@ == Map::<Seq<char>, Seq<char>>::empty(),
            request.user_data@ == Map::<Seq<char>, Seq<char>>::empty(),
            request.headers@ == written(raw.headers@, i as int),
        decreases raw.headers.len() - i,
    {
        request.add_header(raw.headers[i].0.clone(), raw.headers[i].1.clone());
        i = i + 1;
    }
    read_query(&mut request, raw.query.as_str());
    Ok(request)
}

/// Whether `reply` has this status, no headers and this text as its body.
pub open spec fn plain_reply(reply: ResponseContext, status: HttpStatus, text: Seq<char>) -> bool {
    reply.status == status && reply.headers@ == Map::<Seq<char>, Seq<char>>::empty() && reply.body@
        == bytes_of(text)
}

/// The reply for what the chain delivered. A response goes out as it is.
/// An unknown route is a 404 and a verb that is not allowed a 405. Any
/// other error is recorded in the diagnostic slot and goes out as a 500.
pub open spec fn replies(
    delivered: HushResult<ResponseContext>,
    reply: ResponseContext,
    before: LastError,
    after: LastError,
) -> bool {
    match delivered {
        Ok(r) => reply == r && after == before,
        Err(HushError::RouteNotFound) => plain_reply(reply, HttpStatus::NotFound, "Route not found"@)
            && after == before,
        Err(HushError::MethodNotAllowed) => plain_reply(
            reply,
            HttpStatus::MethodNotAllowed,
            "Method not allowed"@,
        ) && after == before,
        Err(e) => plain_reply(reply, HttpStatus::InternalServerError, "Internal server error"@)
            && after.slot == Some(e),
    }
}

/// Makes the reply for what the chain delivered.
pub fn reply_for(delivered: HushResult<ResponseContext>, last: &mut LastError) -> (reply:
    ResponseContext)
    ensures
        replies(delivered, reply, *old(last), *final(last)),
{
    match delivered {
        Ok(response) => response,
        Err(HushError::RouteNotFound) => ResponseContext::with_text(
            HttpStatus::NotFound,
            "Route not found",
        ),
        Err(HushError::MethodNotAllowed) => ResponseContext::with_text(
            HttpStatus::MethodNotAllowed,
            "Method not allowed",
        ),
        Err(error) => {
            crate::error::set_last_error(last, error);
            ResponseContext::with_text(HttpStatus::InternalServerError, "Internal server error")
        },
    }
}

/// The kind of stage that the chain of a server holds: a stage that was
/// registered, or the router.
pub type ServerStage<X, H> = Either<Stage<X>, RouterStage<H>>;

/// The server: its configuration, its routes and its chain, the counters
/// of its rate limiter, and whether it is serving.
///
/// Routes and stages are registered first. Starting the server puts the
/// router behind the chain as its last stage; from then on the routes are
/// fixed, and while the server runs so are the stages. `X` is the kind of
/// stage that the caller brings, `H` the kind of handler.
pub struct WebServer<X: Middleware, H: Handler> {
    config: WebServerConfig,
    router: Router<H>,
    middleware_chain: MiddlewareChain<ServerStage<X, H>>,
    counters: StringMap,
    is_running: bool,
    started: bool,
}

impl<X: Middleware, H: Handler> WebServer<X, H> {
    pub closed spec fn config_spec(&self) -> WebServerConfig {
        self.config
    }

    /// The routes that wait to be put behind the chain.
    pub closed spec fn router(&self) -> Router<H> {
        self.router
    }

    /// The stages of the chain, in the order in which they run.
    pub closed spec fn stages(&self) -> Seq<ServerStage<X, H>> {
        self.middleware_chain.stages()
    }

    /// The counters of the rate limiter, as the last request left them.
    pub closed spec fn counters(&self) -> StringMap {
        self.counters
    }

    pub closed spec fn running(&self) -> bool {
        self.is_running
    }

    /// Whether the server has been started at least once.
    pub closed spec fn started(&self) -> bool {
        self.started
    }

    /// Whether everything but the stages is the same in both.
    pub open spec fn same_but_stages(&self, other: &Self) -> bool {
        &&& self.config_spec() == other.config_spec()
        &&& self.router() == other.router()
        &&& self.counters() == other.counters()
        &&& self.running() == other.running()
        &&& self.started() == other.started()
    }

    /// A server that is not running and has neither routes nor stages.
    pub fn new(config: WebServerConfig) -> (server: Self)
        ensures
            server.config_spec() == config,
            !server.running(),
            !server.started(),
            server.stages() == Seq::<ServerStage<X, H>>::empty(),
            server.router().keys() == Seq::<Seq<char>>::empty(),
            server.router().handlers() == Seq::<RequestHandler<H>>::empty(),
            server.counters()@ == Map::<Seq<char>, Seq<char>>::empty(),
    {
        WebServer {
            config,
            router: Router::new(),
            middleware_chain: MiddlewareChain::new(),
            counters: StringMap::new(),
            is_running: false,
            started: false,
        }
    }

    /// A server with the default configuration: it listens on
    /// `127.0.0.1:8080`, takes 1000 connections, and keeps a connection and
    /// waits for a request for 30 seconds each. It is not running and has
    /// neither routes nor stages.
    pub fn with_default_config() -> (server: Self)
        ensures
            !server.running(),
            !server.started(),
            server.stages() == Seq::<ServerStage<X, H>>::empty(),
            server.router().keys() == Seq::<Seq<char>>::empty(),
            server.router().handlers() == Seq::<RequestHandler<H>>::empty(),
            server.counters()@ == Map::<Seq<char>, Seq<char>>::empty(),
            server.config_spec().host@ == "127.0.0.1"@,
            server.config_spec().port == 8080,
            server.config_spec().max_connections == 1000,
            server.config_spec().keep_alive == 30,
            server.config_spec().request_timeout == 30,
    {
        WebServer::new(WebServerConfig::default())
    }

    /// Registers a route, as the router does. Once the server has been
    /// started the routes are fixed: the route is refused and nothing
    /// changes.
    pub fn add_route(&mut self, method: HttpMethod, path: &str, handler: RequestHandler<H>) -> (r:
        HushResult<()>)
        ensures
            final(self).running() == old(self).running(),
            final(self).started() == old(self).started(),
            final(self).stages() == old(self).stages(),
            final(self).counters() == old(self).counters(),
            final(self).config_spec() == old(self).config_spec(),
            old(self).started() ==> final(self).router() == old(self).router() && (
            r matches Err(HushError::HttpError(m)) && m@
                == "Routes are fixed once the server has started"@),
            !old(self).started() ==> Router::registers(
                old(self).router(),
                final(self).router(),
                method,
                path@,
                handler,
                r,
            ),
    {
        if self.started {
            return Err(
                HushError::HttpError("Routes are fixed once the server has started".to_owned()),
            );
        }
        self.router.add_route(method, path.to_owned(), handler)
    }

    /// Registers a stage. While the server runs the stages are fixed: the
    /// stage is refused and nothing changes. Otherwise the stage goes where
    /// the chain puts it.
    pub fn add_stage<M: StageOf<Stage<X>>>(&mut self, middleware: M) -> (r: HushResult<()>)
        ensures
            final(self).same_but_stages(old(self)),
            old(self).running() ==> final(self).stages() == old(self).stages() && (
            r matches Err(HushError::HttpError(m)) && m@ == "Server is already running"@),
            !old(self).running() ==> r is Ok && final(self).stages() == old(self).stages().insert(
                slot(priorities_of(old(self).stages()), middleware.as_stage().priority_spec()),
                Either::Left(middleware.as_stage()),
            ) && 0 <= slot(
                priorities_of(old(self).stages()),
                middleware.as_stage().priority_spec(),
            ) <= old(self).stages().len(),
    {
        if self.is_running {
            return Err(HushError::HttpError("Server is already running".to_owned()));
        }
        self.middleware_chain.push(Either::Left(middleware.into_stage()));
        Ok(())
    }

    /// The number of registered stages.
    pub fn middleware_count(&self) -> (n: usize)
        ensures
            n == self.stages().len(),
    {
        self.middleware_chain.len()
    }

    /// Registers the CORS stage for the given origins; see `add_stage` and
    /// `CorsMiddleware::new`.
    pub fn add_cors_middleware(&mut self, allowed_origins: String) -> (r: HushResult<()>)
        ensures
            final(self).same_but_stages(old(self)),
            old(self).running() ==> final(self).stages() == old(self).stages() && (
            r matches Err(HushError::HttpError(m)) && m@ == "Server is already running"@),
            !old(self).running() ==> {
                let at = slot(priorities_of(old(self).stages()), 10);
                &&& r is Ok
                &&& 0 <= at <= old(self).stages().len()
                &&& final(self).stages().len() == old(self).stages().len() + 1
                &&& final(self).stages().remove(at) == old(self).stages()
                &&& final(self).stages()[at] matches Either::Left(Stage::Cors(c))
                &&& c.allowed_origins == allowed_origins
                &&& c.allowed_methods@ == "GET, POST, PUT, DELETE, OPTIONS"@
                &&& c.allowed_headers@ == "Content-Type, Authorization, X-Requested-With"@
                &&& c.max_age == 86400
            },
    {
        let ghost before = self.stages();
        let r = self.add_stage(CorsMiddleware::new(allowed_origins));
        proof {
            if r is Ok {
                assert(self.stages().remove(slot(priorities_of(before), 10)) =~= before);
            }
        }
        r
    }

    /// Registers the logging stage that logs requests and outcomes; see
    /// `add_stage`.
    pub fn add_logger_middleware(&mut self) -> (r: HushResult<()>)
        ensures
            final(self).same_but_stages(old(self)),
            old(self).running() ==> final(self).stages() == old(self).stages() && (
            r matches Err(HushError::HttpError(m)) && m@ == "Server is already running"@),
            !old(self).running() ==> {
                let at = slot(priorities_of(old(self).stages()), 5);
                &&& r is Ok
                &&& 0 <= at <= old(self).stages().len()
                &&& final(self).stages().len() == old(self).stages().len() + 1
                &&& final(self).stages().remove(at) == old(self).stages()
                &&& final(self).stages()[at] matches Either::Left(Stage::Logger(l))
                &&& l.log_requests && l.log_responses && !l.log_headers && !l.log_body
            },
    {
        let ghost before = self.stages();
        let r = self.add_stage(LoggerMiddleware::new());
        proof {
            if r is Ok {
                assert(self.stages().remove(slot(priorities_of(before), 5)) =~= before);
            }
        }
        r
    }

    /// Registers the authentication stage with its usual settings; see
    /// `add_stage` and `AuthMiddleware::new`.
    pub fn add_auth_middleware(&mut self, secret: String) -> (r: HushResult<()>)
        ensures
            final(self).same_but_stages(old(self)),
            old(self).running() ==> final(self).stages() == old(self).stages() && (
            r matches Err(HushError::HttpError(m)) && m@ == "Server is already running"@),
            !old(self).running() ==> {
                let at = slot(priorities_of(old(self).stages()), 20);
                &&& r is Ok
                &&& 0 <= at <= old(self).stages().len()
                &&& final(self).stages().len() == old(self).stages().len() + 1
                &&& final(self).stages().remove(at) == old(self).stages()
                &&& final(self).stages()[at] matches Either::Left(Stage::Auth(a))
                &&& a.secret == secret
                &&& a.skip_paths@.len() == 2
                &&& a.skip_paths@[0]@ == "/health"@
                &&& a.skip_paths@[1]@ == "/login"@
                &&& a.header_name@ == "Authorization"@
            },
    {
        let ghost before = self.stages();
        let r = self.add_stage(AuthMiddleware::new(secret));
        proof {
            if r is Ok {
                assert(self.stages().remove(slot(priorities_of(before), 20)) =~= before);
            }
        }
        r
    }

    /// Puts the router behind the chain as its last stage. It is done once,
    /// at the first start.
    fn initialize_default_middleware(&mut self)
        requires
            !old(self).started(),
        ensures
            final(self).started(),
            final(self).running() == old(self).running(),
            final(self).config_spec() == old(self).config_spec(),
            final(self).counters() == old(self).counters(),
            final(self).stages() == old(self).stages().push(
                Either::Right(RouterStage { router: old(self).router() }),
            ),
            final(self).router().keys() == Seq::<Seq<char>>::empty(),
            final(self).router().handlers() == Seq::<RequestHandler<H>>::empty(),
    {
        let mut router = Router::new();
        core::mem::swap(&mut router, &mut self.router);
        let ghost before = self.middleware_chain.stages();
        let ghost stage: ServerStage<X, H> = Either::Right(RouterStage { router });
        let known = self.middleware_chain.priorities();
        self.middleware_chain.push(Either::Right(RouterStage { router }));
        self.started = true;
        proof {
            let prios = priorities_of(before);
            assert(slot(prios, 0x7fff_ffff) == prios.len()) by {
                if prios.len() > 0 {
                    assert(prios.last() == before[before.len() - 1].priority_spec());
                    assert(known@[before.len() - 1] == before[before.len() - 1].priority_spec());
                }
            }
            assert(before.insert(before.len() as int, stage) =~= before.push(stage));
        }
    }

    /// Starts the server on the configured port; see `start_with_port`.
    pub fn start(&mut self) -> (r: HushResult<WebServerConfig>)
        ensures
            Self::starts(*old(self), *final(self), old(self).config_spec().port, r),
    {
        let port = self.config.port;
        self.start_with_port(port)
    }

    /// What starting the server on `port` does. A server that runs already
    /// is not started again, and nothing changes. Otherwise the server
    /// counts as running and as started, and the result tells where to
    /// listen: the configuration with `port` in it. At the first start the
    /// router, with the routes that were registered, goes behind the chain
    /// as its last stage, and the server keeps an empty one; at a later
    /// start the chain stays as it is.
    pub open spec fn starts(before: Self, after: Self, port: u16, r: HushResult<WebServerConfig>) -> bool {
        &&& after.running()
        &&& after.config_spec() == before.config_spec()
        &&& after.counters() == before.counters()
        &&& if before.running() {
            &&& r matches Err(HushError::HttpError(m)) && m@ == "Server is already running"@
            &&& after.stages() == before.stages()
            &&& after.router() == before.router()
            &&& after.started() == before.started()
        } else {
            &&& r matches Ok(c) && c.port == port && c.host == before.config_spec().host
                && c.max_connections == before.config_spec().max_connections && c.keep_alive
                == before.config_spec().keep_alive && c.request_timeout
                == before.config_spec().request_timeout
            &&& after.started()
            &&& if before.started() {
                after.stages() == before.stages() && after.router() == before.router()
            } else {
                &&& after.stages() == before.stages().push(
                    Either::Right(RouterStage { router: before.router() }),
                )
                &&& after.router().keys() == Seq::<Seq<char>>::empty()
                &&& after.router().handlers() == Seq::<RequestHandler<H>>::empty()
            }
        }
    }

    /// Starts the server on `port`, as `starts` says.
    pub fn start_with_port(&mut self, port: u16) -> (r: HushResult<WebServerConfig>)
        ensures
            Self::starts(*old(self), *final(self), port, r),
    {
        if self.is_running {
            return Err(HushError::HttpError("Server is already running".to_owned()));
        }
        self.is_running = true;
        if !self.started {
            self.initialize_default_middleware();
        }
        let mut config = self.config.clone();
        config.port = port;
        Ok(config)
    }

    /// Notes that the server has stopped, or could not be brought up.
    pub fn stop(&mut self) -> (r: HushResult<()>)
        ensures
            r is Ok,
            !final(self).running(),
            final(self).started() == old(self).started(),
            final(self).stages() == old(self).stages(),
            final(self).router() == old(self).router(),
            final(self).counters() == old(self).counters(),
            final(self).config_spec() == old(self).config_spec(),
    {
        self.is_running = false;
        Ok(())
    }

    pub fn is_running(&self) -> (yes: bool)
        ensures
            yes == self.running(),
    {
        self.is_running
    }

    pub fn config(&self) -> (c: &WebServerConfig)
        ensures
            *c == self.config_spec(),
    {
        &self.config
    }

    /// What answering a request that has been read does. The request goes
    /// through the chain in a fresh context that holds the counters of the
    /// server; the reply is what `replies` makes of what the chain
    /// delivered, the log is what the stages wrote, and the server keeps
    /// the counters as the stages left them. A server without stages
    /// delivers an internal error.
    pub open spec fn answers(
        before: Self,
        after: Self,
        request: RequestContext,
        served: Served,
        last_before: LastError,
        last_after: LastError,
    ) -> bool {
        &&& after.same_but_counters(&before)
        &&& exists|
            context: MiddlewareContext,
            post: MiddlewareContext,
            delivered: HushResult<ResponseContext>,
        |
            {
                &&& #[trigger] served_by(context, post, delivered)
                &&& fresh(context, request, before.counters())
                &&& ran(before.stages(), context, post, delivered)
                &&& replies(delivered, served.reply, last_before, last_after)
                &&& served.log == post.log
                &&& after.counters() == post.counters
            }
    }

    /// Whether two servers differ in nothing but what their rate limiters
    /// have counted.
    pub open spec fn same_but_counters(&self, other: &Self) -> bool {
        &&& self.stages() == other.stages()
        &&& self.router() == other.router()
        &&& self.config_spec() == other.config_spec()
        &&& self.running() == other.running()
        &&& self.started() == other.started()
    }

    /// Answers a request that has been read and hands out what the stages
    /// wrote to the log, as `answers` says.
    pub fn serve_request(&mut self, request: RequestContext, last: &mut LastError) -> (served: Served)
        ensures
            Self::answers(*old(self), *final(self), request, served, *old(last), *final(last)),
    {
        let mut counters = StringMap::new();
        core::mem::swap(&mut counters, &mut self.counters);
        let context = MiddlewareContext::with_counters(request, counters);
        let ghost given = context;
        let account = self.middleware_chain.run(context);
        let ghost handed = account.response;
        let ghost left = account.context;
        let reply = reply_for(account.response, last);
        let mut context = account.context;
        core::mem::swap(&mut context.counters, &mut self.counters);
        proof {
            assert(served_by(given, left, handed));
        }
        Served { reply, log: context.log }
    }

    /// What answering one request does. A verb that the framework does not
    /// know is a 405, and nothing else happens. Otherwise the request that
    /// the raw one stands for is answered as `answers` says.
    pub open spec fn serves(
        before: Self,
        after: Self,
        raw: RawRequest,
        served: Served,
        last_before: LastError,
        last_after: LastError,
    ) -> bool {
        if method_named(uppercase_of(raw.method@)) is None {
            &&& plain_reply(served.reply, HttpStatus::MethodNotAllowed, "Unsupported HTTP method"@)
            &&& served.log@.len() == 0
            &&& last_after == last_before
            &&& after.same_but_counters(&before)
            &&& after.counters() == before.counters()
        } else {
            exists|request: RequestContext| #[trigger]
                stands_for(raw, request) && Self::answers(
                    before,
                    after,
                    request,
                    served,
                    last_before,
                    last_after,
                )
        }
    }

    /// Answers one request and hands out what the stages wrote to the log,
    /// as `serves` says. Whatever happens, the reply can be sent.
    pub fn serve(&mut self, raw: RawRequest, last: &mut LastError) -> (served: Served)
        ensures
            Self::serves(*old(self), *final(self), raw, served, *old(last), *final(last)),
    {
        match build_request(raw) {
            Ok(request) => {
                let ghost read = request;
                let served = self.serve_request(request, last);
                proof {
                    assert(stands_for(raw, read));
                }
                served
            },
            Err(_) => Served {
                reply: ResponseContext::with_text(
                    HttpStatus::MethodNotAllowed,
                    "Unsupported HTTP method",
                ),
                log: Vec::new(),
            },
        }
    }

    /// Answers one request, as `serve` does; what the stages wrote to the
    /// log is dropped.
    pub fn handle_request(&mut self, raw: RawRequest, last: &mut LastError) -> (reply:
        ResponseContext)
        ensures
            exists|served: Served|
                served.reply == reply && #[trigger] Self::serves(
                    *old(self),
                    *final(self),
                    raw,
                    served,
                    *old(last),
                    *final(last),
                ),
    {
        let served = self.serve(raw, last);
        served.reply
    }
}

impl<F: Fn(MiddlewareContext) -> (MiddlewareContext, Outcome) + Send + Sync, H: Handler> WebServer<
    FunctionMiddleware<F>,
    H,
> {
    /// Registers a function as a stage with the default priority, 100; see
    /// `add_stage`. The stage does what the function does.
    pub fn add_middleware(&mut self, name: String, handler: F) -> (r: HushResult<()>)
        requires
            forall|c: MiddlewareContext| call_requires(handler, (c,)),
        ensures
            final(self).same_but_stages(old(self)),
            old(self).running() ==> final(self).stages() == old(self).stages() && (
            r matches Err(HushError::HttpError(m)) && m@ == "Server is already running"@),
            !old(self).running() ==> {
                let at = slot(priorities_of(old(self).stages()), 100);
                &&& r is Ok
                &&& 0 <= at <= old(self).stages().len()
                &&& final(self).stages().len() == old(self).stages().len() + 1
                &&& final(self).stages().remove(at) == old(self).stages()
                &&& final(self).stages()[at] matches Either::Left(Stage::Other(m))
                &&& m.name_text() == name@
                &&& m.priority_value() == 100
                &&& m.handler() == handler
            },
    {
        let ghost before = self.stages();
        let r = self.add_stage(FunctionMiddleware::new(name, handler));
        proof {
            if r is Ok {
                assert(self.stages().remove(slot(priorities_of(before), 100)) =~= before);
            }
        }
        r
    }
}

/// What the transport gets for one request.
pub struct Served {
    /// What to send.
    pub reply: ResponseContext,
    /// What the stages wrote for the operator, oldest line first.
    pub log: Vec<String>,
}

/// Names what one served request went through: its fresh context, the
/// context it left and what was delivered. It holds of any three values.
pub open spec fn served_by(
    context: MiddlewareContext,
    post: MiddlewareContext,
    delivered: HushResult<ResponseContext>,
) -> bool {
    true
}

} // verus!
