//! Request handlers and the means to build responses.

use vstd::prelude::*;
use vstd::string::StringExecFns;
use crate::error::HushError;
use crate::error::HushResult;
use crate::strmap::Pair;
use crate::text::bytes_of;
use crate::text::to_bytes;
use crate::types::HttpStatus;
use crate::types::RequestContext;
use crate::types::ResponseContext;

verus! {

/// What a handler returns.
pub type Answer = HushResult<ResponseContext>;

/// Code that answers requests.
pub trait Handler: Send + Sync {
    /// What the handler may return for `request`. A handler that says
    /// nothing may return anything.
    open spec fn answers(&self, request: RequestContext, answer: Answer) -> bool {
        true
    }

    fn handle(&self, context: &RequestContext) -> (answer: Answer)
        ensures
            self.answers(*context, answer),
    ;
}

/// A handler made of a function.
pub struct FunctionHandler<F: Fn(&RequestContext) -> Answer> {
    function: F,
}

impl<F: Fn(&RequestContext) -> Answer> FunctionHandler<F> {
    #[verifier::type_invariant]
    spec fn accepts_every_request(&self) -> bool {
        forall|c: &RequestContext| call_requires(self.function, (c,))
    }

    /// The function that the handler is made of.
    pub closed spec fn function(&self) -> F {
        self.function
    }

    pub fn new(function: F) -> (h: Self)
        requires
            forall|c: &RequestContext| call_requires(function, (c,)),
        ensures
            h.function() == function,
    {
        FunctionHandler { function }
    }
}

impl<F: Fn(&RequestContext) -> Answer + Send + Sync> Handler for FunctionHandler<F> {
    open spec fn answers(&self, request: RequestContext, answer: Answer) -> bool {
        call_ensures(self.function(), (&request,), answer)
    }

    fn handle(&self, context: &RequestContext) -> (answer: Answer) {
        proof {
            use_type_invariant(self);
        }
        (self.function)(context)
    }
}

/// Whether `answer` is a success with the status, headers and body of
/// `response`.
pub open spec fn same_response(answer: Answer, response: ResponseContext) -> bool {
    answer matches Ok(r) && r.status == response.status && r.headers@ == response.headers@
        && r.body@ == response.body@
}

/// The headers of a request in the order in which they were set, each as
/// `name: value`, with a comma and a space between them.
pub open spec fn listed(pairs: Seq<Pair>) -> Seq<char>
    decreases pairs.len(),
{
    if pairs.len() == 0 {
        Seq::<char>::empty()
    } else if pairs.len() == 1 {
        pairs[0].0 + ": "@ + pairs[0].1
    } else {
        listed(pairs.drop_last()) + ", "@ + pairs.last().0 + ": "@ + pairs.last().1
    }
}

/// The text that the echo handler answers with.
pub open spec fn echo_text(request: RequestContext) -> Seq<char> {
    "Method: "@ + request.method.name() + "\nPath: "@ + request.path@ + "\nBody: "@
        + crate::middleware::builtin::body_text(request.body@) + "\nHeaders: {"@ + listed(
        request.headers.pairs(),
    ) + "}"@
}

fn list_headers(request: &RequestContext) -> (text: String)
    ensures
        text@ == listed(request.headers.pairs()),
{
    let n = request.headers.len();
    let mut text = String::new();
    let mut i: usize = 0;
    assert(request.headers.pairs().take(0) =~= Seq::<Pair>::empty());
    while i < n
        invariant
            i <= n,
            n == request.headers.pairs().len(),
            text@ == listed(request.headers.pairs().take(i as int)),
        decreases n - i,
    {
        let ghost upto = request.headers.pairs().take(i + 1);
        assert(upto.drop_last() =~= request.headers.pairs().take(i as int));
        assert(upto.last() == request.headers.pairs()[i as int]);
        if i > 0 {
            text.append(", ");
        }
        text.append(request.headers.key_at(i).as_str());
        text.append(": ");
        text.append(request.headers.value_at(i).as_str());
        assert(text@ =~= listed(upto)) by {
            if i == 0 {
                assert(listed(request.headers.pairs().take(0)) =~= Seq::<char>::empty());
            }
        }
        i = i + 1;
    }
    assert(request.headers.pairs().take(n as int) =~= request.headers.pairs());
    text
}

/// A handler that always answers with a copy of the same response.
pub struct FixedHandler {
    pub response: ResponseContext,
}

impl Handler for FixedHandler {
    open spec fn answers(&self, request: RequestContext, answer: Answer) -> bool {
        same_response(answer, self.response)
    }

    fn handle(&self, context: &RequestContext) -> (answer: Answer) {
        Ok(self.response.duplicate())
    }
}

/// A handler that describes the request it gets: verb, path, body and
/// headers, in a `200 OK` without headers.
pub struct EchoHandler {}

impl Handler for EchoHandler {
    open spec fn answers(&self, request: RequestContext, answer: Answer) -> bool {
        answer matches Ok(r) && r.status == HttpStatus::OK && r.headers@
            == Map::<Seq<char>, Seq<char>>::empty() && r.body@ == bytes_of(echo_text(request))
    }

    fn handle(&self, context: &RequestContext) -> (answer: Answer) {
        let body = match context.body_as_string() {
            Ok(text) => text,
            Err(_) => String::new(),
        };
        let mut text = "Method: ".to_owned();
        text.append(context.method.as_str());
        text.append("\nPath: ");
        text.append(context.path.as_str());
        text.append("\nBody: ");
        text.append(body.as_str());
        text.append("\nHeaders: {");
        text.append(list_headers(context).as_str());
        text.append("}");
        Ok(ResponseContext::with_text(HttpStatus::OK, text.as_str()))
    }
}

/// A handler of one of two kinds. With it a router can hold handlers of
/// both.
pub enum EitherHandler<A: Handler, B: Handler> {
    Left(A),
    Right(B),
}

impl<A: Handler, B: Handler> Handler for EitherHandler<A, B> {
    open spec fn answers(&self, request: RequestContext, answer: Answer) -> bool {
        match self {
            EitherHandler::Left(a) => a.answers(request, answer),
            EitherHandler::Right(b) => b.answers(request, answer),
        }
    }

    fn handle(&self, context: &RequestContext) -> (answer: Answer) {
        match self {
            EitherHandler::Left(a) => a.handle(context),
            EitherHandler::Right(b) => b.handle(context),
        }
    }
}

/// Code that works on the answer of a handler on its way out.
pub trait Finisher: Send + Sync {
    /// What the code may make of the answer `inner` to `request`. Code that
    /// says nothing may make anything of it.
    open spec fn finishes(&self, request: RequestContext, inner: Answer, out: Answer) -> bool {
        true
    }

    fn finish(&self, context: &RequestContext, inner: Answer) -> (out: Answer)
        ensures
            self.finishes(*context, inner, out),
    ;
}

/// A finisher made of a function, which gets the request and the answer of
/// the handler and returns the answer to give.
pub struct FunctionFinisher<G: Fn(&RequestContext, Answer) -> Answer> {
    function: G,
}

impl<G: Fn(&RequestContext, Answer) -> Answer> FunctionFinisher<G> {
    #[verifier::type_invariant]
    spec fn accepts_every_answer(&self) -> bool {
        forall|c: &RequestContext, a: Answer| call_requires(self.function, (c, a))
    }

    /// The function that the finisher is made of.
    pub closed spec fn function(&self) -> G {
        self.function
    }

    pub fn new(function: G) -> (f: Self)
        requires
            forall|c: &RequestContext, a: Answer| call_requires(function, (c, a)),
        ensures
            f.function() == function,
    {
        FunctionFinisher { function }
    }
}

impl<G: Fn(&RequestContext, Answer) -> Answer + Send + Sync> Finisher for FunctionFinisher<G> {
    open spec fn finishes(&self, request: RequestContext, inner: Answer, out: Answer) -> bool {
        call_ensures(self.function(), (&request, inner), out)
    }

    fn finish(&self, context: &RequestContext, inner: Answer) -> (out: Answer) {
        proof {
            use_type_invariant(self);
        }
        (self.function)(context, inner)
    }
}

/// The headers after the entries `pairs[..n]` have been set on them in order.
pub open spec fn set_all(headers: Map<Seq<char>, Seq<char>>, pairs: Seq<(String, String)>, n: int) -> Map<
    Seq<char>,
    Seq<char>,
>
    decreases n,
{
    if n <= 0 {
        headers
    } else {
        set_all(headers, pairs, n - 1).insert(pairs[n - 1].0@, pairs[n - 1].1@)
    }
}

/// A finisher that sets headers on a successful answer, in the order in
/// which they stand; a failure passes unchanged.
pub struct HeaderFinisher {
    pub headers: Vec<(String, String)>,
}

impl Finisher for HeaderFinisher {
    open spec fn finishes(&self, request: RequestContext, inner: Answer, out: Answer) -> bool {
        match inner {
            Ok(r) => out matches Ok(o) && o.status == r.status && o.body@ == r.body@ && o.headers@
                == set_all(r.headers@, self.headers@, self.headers@.len() as int),
            Err(e) => out == Err::<ResponseContext, HushError>(e),
        }
    }

    fn finish(&self, context: &RequestContext, inner: Answer) -> (out: Answer) {
        match inner {
            Ok(response) => {
                let mut response = response;
                let ghost start = response;
                let mut i: usize = 0;
                while i < self.headers.len()
                    invariant
                        i <= self.headers@.len(),
                        response.status == start.status,
                        response.body@ == start.body@,
                        response.headers@ == set_all(start.headers@, self.headers@, i as int),
                    decreases self.headers.len() - i,
                {
                    response.add_header(self.headers[i].0.clone(), self.headers[i].1.clone());
                    i = i + 1;
                }
                Ok(response)
            },
            Err(e) => Err(e),
        }
    }
}

/// A handler with a finisher around it: the handler answers, and the
/// finisher works on the answer.
pub struct Wrapped<H: Handler, K: Finisher> {
    pub handler: H,
    pub finisher: K,
}

impl<H: Handler, K: Finisher> Handler for Wrapped<H, K> {
    open spec fn answers(&self, request: RequestContext, answer: Answer) -> bool {
        exists|inner: Answer| #[trigger]
            self.handler.answers(request, inner) && self.finisher.finishes(request, inner, answer)
    }

    fn handle(&self, context: &RequestContext) -> (answer: Answer) {
        let inner = self.handler.handle(context);
        self.finisher.finish(context, inner)
    }
}

/// A handler, ready to be registered with a router.
pub struct RequestHandler<H: Handler> {
    pub handler: H,
}

impl<F: Fn(&RequestContext) -> Answer + Send + Sync> RequestHandler<FunctionHandler<F>> {
    /// A handler made of a function. It answers as the function does.
    pub fn new(handler: F) -> (h: Self)
        requires
            forall|c: &RequestContext| call_requires(handler, (c,)),
        ensures
            h.handler.function() == handler,
            forall|request: RequestContext, answer: Answer|
                h.answers(request, answer) == call_ensures(handler, (&request,), answer),
    {
        RequestHandler { handler: FunctionHandler::new(handler) }
    }
}

impl<H: Handler> RequestHandler<H> {
    /// What the handler may return for `request`.
    pub open spec fn answers(&self, request: RequestContext, answer: Answer) -> bool {
        self.handler.answers(request, answer)
    }

    /// A handler made of code of any kind.
    pub fn from_handler(handler: H) -> (h: Self)
        ensures
            h.handler == handler,
    {
        RequestHandler { handler }
    }

    /// Answers `context`.
    pub fn handle(&self, context: &RequestContext) -> (answer: Answer)
        ensures
            self.answers(*context, answer),
    {
        self.handler.handle(context)
    }
}

/// Builds a response step by step.
pub struct ResponseBuilder {
    pub response: ResponseContext,
}

impl ResponseBuilder {
    pub fn new(status: HttpStatus) -> (b: Self)
        ensures
            b.response.status == status,
            b.response.headers@ == Map::<Seq<char>, Seq<char>>::empty(),
            b.response.body@ == Seq::<u8>::empty(),
    {
        ResponseBuilder { response: ResponseContext::new(status) }
    }

    pub fn body(self, body: Vec<u8>) -> (b: Self)
        ensures
            b.response.body == body,
            b.response.status == self.response.status,
            b.response.headers == self.response.headers,
    {
        let mut b = self;
        b.response.set_body(body);
        b
    }

    /// Sets the body to the UTF-8 encoding of `text`.
    pub fn text(self, text: &str) -> (b: Self)
        ensures
            b.response.body@ == bytes_of(text@),
            b.response.status == self.response.status,
            b.response.headers == self.response.headers,
    {
        let mut b = self;
        b.response.set_body(to_bytes(text));
        b
    }

    /// Sets the body to `json` and declares it as `application/json`.
    pub fn json(self, json: &str) -> (b: Self)
        ensures
            b.response.body@ == bytes_of(json@),
            b.response.status == self.response.status,
            b.response.headers@ == self.response.headers@.insert(
                "Content-Type"@,
                "application/json"@,
            ),
    {
        let mut b = self;
        b.response.set_body(to_bytes(json));
        b.response.add_header("Content-Type".to_owned(), "application/json".to_owned());
        b
    }

    /// Sets the body to `html` and declares it as `text/html`.
    pub fn html(self, html: &str) -> (b: Self)
        ensures
            b.response.body@ == bytes_of(html@),
            b.response.status == self.response.status,
            b.response.headers@ == self.response.headers@.insert("Content-Type"@, "text/html"@),
    {
        let mut b = self;
        b.response.set_body(to_bytes(html));
        b.response.add_header("Content-Type".to_owned(), "text/html".to_owned());
        b
    }

    pub fn header(self, key: &str, value: &str) -> (b: Self)
        ensures
            b.response.headers@ == self.response.headers@.insert(key@, value@),
            b.response.status == self.response.status,
            b.response.body == self.response.body,
    {
        let mut b = self;
        b.response.add_header(key.to_owned(), value.to_owned());
        b
    }

    pub fn build(self) -> (response: ResponseContext)
        ensures
            response == self.response,
    {
        self.response
    }
}

/// A handler that answers `200 OK` with `text`.
pub fn text_handler(text: &'static str) -> (h: RequestHandler<FixedHandler>)
    ensures
        h.handler.response.status == HttpStatus::OK,
        h.handler.response.headers@ == Map::<Seq<char>, Seq<char>>::empty(),
        h.handler.response.body@ == bytes_of(text@),
{
    RequestHandler::from_handler(
        FixedHandler { response: ResponseBuilder::new(HttpStatus::OK).text(text).build() },
    )
}

/// A handler that answers `200 OK` with `json`, declared as JSON.
pub fn json_handler(json: &'static str) -> (h: RequestHandler<FixedHandler>)
    ensures
        h.handler.response.status == HttpStatus::OK,
        h.handler.response.headers@ == Map::<Seq<char>, Seq<char>>::empty().insert(
            "Content-Type"@,
            "application/json"@,
        ),
        h.handler.response.body@ == bytes_of(json@),
{
    RequestHandler::from_handler(
        FixedHandler { response: ResponseBuilder::new(HttpStatus::OK).json(json).build() },
    )
}

/// A handler that answers `200 OK` with `html`, declared as HTML.
pub fn html_handler(html: &'static str) -> (h: RequestHandler<FixedHandler>)
    ensures
        h.handler.response.status == HttpStatus::OK,
        h.handler.response.headers@ == Map::<Seq<char>, Seq<char>>::empty().insert(
            "Content-Type"@,
            "text/html"@,
        ),
        h.handler.response.body@ == bytes_of(html@),
{
    RequestHandler::from_handler(
        FixedHandler { response: ResponseBuilder::new(HttpStatus::OK).html(html).build() },
    )
}

/// A handler that answers `404` with the text `Not Found`.
pub fn not_found_handler() -> (h: RequestHandler<FixedHandler>)
    ensures
        h.handler.response.status == HttpStatus::NotFound,
        h.handler.response.headers@ == Map::<Seq<char>, Seq<char>>::empty(),
        h.handler.response.body@ == bytes_of("Not Found"@),
{
    RequestHandler::from_handler(
        FixedHandler {
            response: ResponseBuilder::new(HttpStatus::NotFound).text("Not Found").build(),
        },
    )
}

/// A handler that answers `500` with the text `Internal Server Error`.
pub fn internal_error_handler() -> (h: RequestHandler<FixedHandler>)
    ensures
        h.handler.response.status == HttpStatus::InternalServerError,
        h.handler.response.headers@ == Map::<Seq<char>, Seq<char>>::empty(),
        h.handler.response.body@ == bytes_of("Internal Server Error"@),
{
    RequestHandler::from_handler(
        FixedHandler {
            response: ResponseBuilder::new(HttpStatus::InternalServerError).text(
                "Internal Server Error",
            ).build(),
        },
    )
}

/// A handler that describes the request it gets: verb, path, body and
/// headers.
pub fn echo_handler() -> (h: RequestHandler<EchoHandler>) {
    RequestHandler::from_handler(EchoHandler {  })
}

/// A handler for health checks: `200 OK` with a fixed JSON body.
pub fn health_check_handler() -> (h: RequestHandler<FixedHandler>)
    ensures
        h.handler.response.status == HttpStatus::OK,
        h.handler.response.headers@ == Map::<Seq<char>, Seq<char>>::empty().insert(
            "Content-Type"@,
            "application/json"@,
        ),
        h.handler.response.body@ == bytes_of(
            "{\"status\":\"ok\",\"timestamp\":\"2024-01-01T00:00:00Z\"}"@,
        ),
{
    RequestHandler::from_handler(
        FixedHandler {
            response: ResponseBuilder::new(HttpStatus::OK).json(
                "{\"status\":\"ok\",\"timestamp\":\"2024-01-01T00:00:00Z\"}",
            ).build(),
        },
    )
}

/// Something to put around a handler.
pub struct Middleware<K: Finisher> {
    pub finisher: K,
}

impl<G: Fn(&RequestContext, Answer) -> Answer + Send + Sync> Middleware<FunctionFinisher<G>> {
    /// A middleware made of a function, which gets the request and the
    /// answer of the handler and returns the answer to give.
    pub fn new(middleware: G) -> (m: Self)
        requires
            forall|c: &RequestContext, a: Answer| call_requires(middleware, (c, a)),
        ensures
            m.finisher.function() == middleware,
            forall|request: RequestContext, inner: Answer, out: Answer|
                m.finisher.finishes(request, inner, out) == call_ensures(
                    middleware,
                    (&request, inner),
                    out,
                ),
    {
        Middleware { finisher: FunctionFinisher::new(middleware) }
    }
}

impl<K: Finisher> Middleware<K> {
    /// Puts the middleware around `handler`: the handler answers, and the
    /// middleware works on its answer.
    pub fn apply<H: Handler>(self, handler: RequestHandler<H>) -> (h: RequestHandler<Wrapped<H, K>>)
        ensures
            h.handler.handler == handler.handler,
            h.handler.finisher == self.finisher,
    {
        RequestHandler { handler: Wrapped { handler: handler.handler, finisher: self.finisher } }
    }
}

/// A middleware that sets the CORS headers on every successful answer:
/// the allowed origins as given, and the usual methods and headers.
pub fn cors_middleware(allowed_origins: &'static str) -> (m: Middleware<HeaderFinisher>)
    ensures
        m.finisher.headers@.len() == 3,
        m.finisher.headers@[0].0@ == "Access-Control-Allow-Origin"@,
        m.finisher.headers@[0].1@ == allowed_origins@,
        m.finisher.headers@[1].0@ == "Access-Control-Allow-Methods"@,
        m.finisher.headers@[1].1@ == "GET, POST, PUT, DELETE, OPTIONS"@,
        m.finisher.headers@[2].0@ == "Access-Control-Allow-Headers"@,
        m.finisher.headers@[2].1@ == "Content-Type, Authorization"@,
{
    let mut headers: Vec<(String, String)> = Vec::new();
    headers.push(("Access-Control-Allow-Origin".to_owned(), allowed_origins.to_owned()));
    headers.push(
        ("Access-Control-Allow-Methods".to_owned(), "GET, POST, PUT, DELETE, OPTIONS".to_owned()),
    );
    headers.push(
        ("Access-Control-Allow-Headers".to_owned(), "Content-Type, Authorization".to_owned()),
    );
    Middleware { finisher: HeaderFinisher { headers } }
}

} // verus!
