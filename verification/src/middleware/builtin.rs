//! The stages that come with the framework: CORS, request logging, bearer
//! token authentication and rate limiting.

use vstd::prelude::*;
use vstd::string::StrSliceExecFns;
use vstd::string::StringExecFns;
use vstd::string::StringSliceAdditionalSpecFns;
use crate::error::HushError;
use crate::middleware::chain::priorities_of;
use crate::middleware::chain::proceeds;
use crate::middleware::chain::slot;
use crate::middleware::chain::FunctionMiddleware;
use crate::middleware::chain::MiddlewareChain;
use crate::middleware::chain::StageOf;
use crate::middleware::chain::Middleware;
use crate::middleware::chain::MiddlewareContext;
use crate::middleware::chain::MiddlewareResult;
use crate::middleware::chain::Outcome;
use crate::text::bytes_of;
use crate::text::chars_eq;
use crate::text::chars_of;
use crate::text::decimal;
use crate::text::decimal_text;
use crate::text::split_chars;
use crate::text::split_spec;
use crate::text::str_eq;
use crate::text::texts;
use crate::text::trim_chars;
use crate::text::trim_spec;
use crate::types::HttpMethod;
use crate::types::HttpStatus;
use crate::types::RequestContext;
use crate::types::ResponseContext;

verus! {

/// Whether `out` is a response with exactly this status, these headers and
/// this body.
pub open spec fn responds(
    out: Outcome,
    status: HttpStatus,
    headers: Map<Seq<char>, Seq<char>>,
    body: Seq<u8>,
) -> bool {
    out matches Ok(MiddlewareResult::Response(r)) && r.status == status && r.headers@ == headers
        && r.body@ == body
}

/// The headers of a response built as JSON.
pub open spec fn json_headers() -> Map<Seq<char>, Seq<char>> {
    Map::<Seq<char>, Seq<char>>::empty().insert("Content-Type"@, "application/json"@)
}

/// Whether `origin` is on the comma-separated allow-list `list`. Each entry
/// counts without the white space around it, and must match exactly.
pub open spec fn on_allow_list(list: Seq<char>, origin: Seq<char>) -> bool {
    exists|i: int|
        0 <= i < split_spec(list, ',').len() && trim_spec(#[trigger] split_spec(list, ',')[i])
            == origin
}

/// The `Origin` header of a request; empty where it has none.
pub open spec fn origin_of(request: RequestContext) -> Seq<char> {
    if request.headers@.contains_key("Origin"@) {
        request.headers@["Origin"@]
    } else {
        Seq::<char>::empty()
    }
}

/// Cross-origin resource sharing.
pub struct CorsMiddleware {
    /// `*` for any origin, or a comma-separated list of origins.
    pub allowed_origins: String,
    pub allowed_methods: String,
    pub allowed_headers: String,
    pub max_age: u32,
}

impl CorsMiddleware {
    /// A policy for the given origins, with the usual methods and headers
    /// and a max age of one day.
    pub fn new(allowed_origins: String) -> (m: Self)
        ensures
            m.allowed_origins == allowed_origins,
            m.allowed_methods@ == "GET, POST, PUT, DELETE, OPTIONS"@,
            m.allowed_headers@ == "Content-Type, Authorization, X-Requested-With"@,
            m.max_age == 86400,
    {
        CorsMiddleware {
            allowed_origins,
            allowed_methods: "GET, POST, PUT, DELETE, OPTIONS".to_owned(),
            allowed_headers: "Content-Type, Authorization, X-Requested-With".to_owned(),
            max_age: 86400,
        }
    }

    /// A policy that lets every origin, method and header through.
    pub fn permissive() -> (m: Self)
        ensures
            m.allowed_origins@ == "*"@,
            m.allowed_methods@ == "GET, POST, PUT, DELETE, OPTIONS, PATCH, HEAD"@,
            m.allowed_headers@ == "*"@,
            m.max_age == 86400,
    {
        CorsMiddleware {
            allowed_origins: "*".to_owned(),
            allowed_methods: "GET, POST, PUT, DELETE, OPTIONS, PATCH, HEAD".to_owned(),
            allowed_headers: "*".to_owned(),
            max_age: 86400,
        }
    }

    pub fn with_methods(self, methods: String) -> (m: Self)
        ensures
            m.allowed_methods == methods,
            m.allowed_origins == self.allowed_origins,
            m.allowed_headers == self.allowed_headers,
            m.max_age == self.max_age,
    {
        let mut m = self;
        m.allowed_methods = methods;
        m
    }

    pub fn with_headers(self, headers: String) -> (m: Self)
        ensures
            m.allowed_headers == headers,
            m.allowed_origins == self.allowed_origins,
            m.allowed_methods == self.allowed_methods,
            m.max_age == self.max_age,
    {
        let mut m = self;
        m.allowed_headers = headers;
        m
    }

    pub fn with_max_age(self, max_age: u32) -> (m: Self)
        ensures
            m.max_age == max_age,
            m.allowed_origins == self.allowed_origins,
            m.allowed_methods == self.allowed_methods,
            m.allowed_headers == self.allowed_headers,
    {
        let mut m = self;
        m.max_age = max_age;
        m
    }

    /// Whether this policy lets `origin` in.
    pub open spec fn allows(&self, origin: Seq<char>) -> bool {
        self.allowed_origins@ == "*"@ || on_allow_list(self.allowed_origins@, origin)
    }

    /// Whether this policy lets `origin` in.
    pub fn is_origin_allowed(&self, origin: &str) -> (yes: bool)
        ensures
            yes == self.allows(origin@),
    {
        if str_eq(self.allowed_origins.as_str(), "*") {
            return true;
        }
        let list = chars_of(self.allowed_origins.as_str());
        let wanted = chars_of(origin);
        let parts = split_chars(&list, ',');
        let mut i: usize = 0;
        while i < parts.len()
            invariant
                i <= parts@.len(),
                texts(parts@) == split_spec(self.allowed_origins@, ','),
                wanted@ == origin@,
                forall|k: int|
                    0 <= k < i ==> trim_spec(#[trigger] split_spec(self.allowed_origins@, ',')[k])
                        != origin@,
            decreases parts.len() - i,
        {
            let entry = trim_chars(&parts[i]);
            assert(texts(parts@)[i as int] == parts@[i as int]@);
            if chars_eq(&entry, &wanted) {
                return true;
            }
            i = i + 1;
        }
        false
    }

    /// The value for `Access-Control-Allow-Origin` that this policy grants a
    /// request: `*` under the open policy, the request's own origin where
    /// the list holds it, nothing otherwise.
    pub open spec fn granted(&self, request: RequestContext) -> Option<Seq<char>> {
        if self.allowed_origins@ == "*"@ {
            Some("*"@)
        } else if on_allow_list(self.allowed_origins@, origin_of(request)) {
            Some(origin_of(request))
        } else {
            None
        }
    }

    /// The value for `Access-Control-Allow-Origin` that this policy grants
    /// `request`.
    pub fn grant(&self, request: &RequestContext) -> (origin: Option<String>)
        ensures
            origin is Some <==> self.granted(*request) is Some,
            origin matches Some(o) ==> o@ == self.granted(*request)->0,
    {
        if str_eq(self.allowed_origins.as_str(), "*") {
            return Some("*".to_owned());
        }
        let asked = match request.get_header("Origin") {
            Some(value) => value.clone(),
            None => String::new(),
        };
        if self.is_origin_allowed(asked.as_str()) {
            Some(asked)
        } else {
            None
        }
    }

    /// The headers of the answer to a preflight request.
    pub open spec fn preflight_headers(&self, origin: Seq<char>) -> Map<Seq<char>, Seq<char>> {
        Map::<Seq<char>, Seq<char>>::empty().insert("Access-Control-Allow-Origin"@, origin).insert(
            "Access-Control-Allow-Methods"@,
            self.allowed_methods@,
        ).insert("Access-Control-Allow-Headers"@, self.allowed_headers@).insert(
            "Access-Control-Max-Age"@,
            decimal(self.max_age as nat),
        ).insert("Access-Control-Allow-Credentials"@, "true"@)
    }

    /// What the policy decides on the way in: an origin that is not allowed
    /// is refused with 403, an `OPTIONS` request is answered with 204 and
    /// the CORS headers, and any other request goes on.
    pub open spec fn decides(&self, request: RequestContext, out: Outcome) -> bool {
        match self.granted(request) {
            None => responds(
                out,
                HttpStatus::Forbidden,
                json_headers(),
                bytes_of("{\"error\": \"CORS: Origin not allowed\"}"@),
            ),
            Some(origin) => if request.method == HttpMethod::OPTIONS {
                responds(
                    out,
                    HttpStatus::NoContent,
                    self.preflight_headers(origin),
                    Seq::<u8>::empty(),
                )
            } else {
                proceeds(out)
            },
        }
    }

    /// The headers of a response after the policy has stamped it.
    pub open spec fn stamped(headers: Map<Seq<char>, Seq<char>>, origin: Seq<char>) -> Map<
        Seq<char>,
        Seq<char>,
    > {
        headers.insert("Access-Control-Allow-Origin"@, origin).insert(
            "Access-Control-Allow-Credentials"@,
            "true"@,
        ).insert("Access-Control-Expose-Headers"@, "Content-Length, Content-Type, Date, Server"@)
    }

    /// What the policy makes of the outcome of the inner stages: a response
    /// gets the CORS headers and keeps its status and body; anything else
    /// passes unchanged.
    pub open spec fn marks(&self, request: RequestContext, inner: Outcome, out: Outcome) -> bool {
        match (inner, self.granted(request)) {
            (Ok(MiddlewareResult::Response(r)), Some(origin)) => responds(
                out,
                r.status,
                Self::stamped(r.headers@, origin),
                r.body@,
            ),
            _ => out == inner,
        }
    }
}

impl Middleware for CorsMiddleware {
    open spec fn name_spec(&self) -> Seq<char> {
        "cors"@
    }

    open spec fn priority_spec(&self) -> int {
        10
    }

    open spec fn before_spec(&self, pre: MiddlewareContext, post: MiddlewareContext, out: Outcome) -> bool {
        post == pre && self.decides(pre.request, out)
    }

    open spec fn after_spec(
        &self,
        pre: MiddlewareContext,
        inner: Outcome,
        post: MiddlewareContext,
        out: Outcome,
    ) -> bool {
        post == pre && self.marks(pre.request, inner, out)
    }

    fn name(&self) -> (n: &str) {
        "cors"
    }

    fn priority(&self) -> (p: i32) {
        10
    }

    fn before(&self, context: &mut MiddlewareContext) -> (out: Outcome) {
        let origin = match self.grant(&context.request) {
            Some(origin) => origin,
            None => {
                let response = ResponseContext::with_json(
                    HttpStatus::Forbidden,
                    "{\"error\": \"CORS: Origin not allowed\"}",
                );
                return Ok(MiddlewareResult::Response(response));
            },
        };
        if context.request.method == HttpMethod::OPTIONS {
            let mut response = ResponseContext::new(HttpStatus::NoContent);
            response.add_header("Access-Control-Allow-Origin".to_owned(), origin);
            response.add_header(
                "Access-Control-Allow-Methods".to_owned(),
                self.allowed_methods.clone(),
            );
            response.add_header(
                "Access-Control-Allow-Headers".to_owned(),
                self.allowed_headers.clone(),
            );
            response.add_header(
                "Access-Control-Max-Age".to_owned(),
                decimal_text(self.max_age as u64),
            );
            response.add_header("Access-Control-Allow-Credentials".to_owned(), "true".to_owned());
            return Ok(MiddlewareResult::Response(response));
        }
        Ok(MiddlewareResult::Continue)
    }

    fn after(&self, context: &mut MiddlewareContext, inner: Outcome) -> (out: Outcome) {
        match inner {
            Ok(MiddlewareResult::Response(response)) => {
                match self.grant(&context.request) {
                    Some(origin) => {
                        let mut response = response;
                        response.add_header("Access-Control-Allow-Origin".to_owned(), origin);
                        response.add_header(
                            "Access-Control-Allow-Credentials".to_owned(),
                            "true".to_owned(),
                        );
                        response.add_header(
                            "Access-Control-Expose-Headers".to_owned(),
                            "Content-Length, Content-Type, Date, Server".to_owned(),
                        );
                        Ok(MiddlewareResult::Response(response))
                    },
                    None => Ok(MiddlewareResult::Response(response)),
                }
            },
            other => other,
        }
    }
}

/// Whether `path` begins with one of the prefixes.
pub open spec fn matches_prefix(prefixes: Seq<String>, path: Seq<char>) -> bool {
    exists|i: int| 0 <= i < prefixes.len() && (#[trigger] prefixes[i])@.is_prefix_of(path)
}

/// The token that a header value carries: what follows `Bearer `, or the
/// whole value where it does not begin so.
pub open spec fn token_in(header: Seq<char>) -> Seq<char> {
    if "Bearer "@.is_prefix_of(header) {
        header.skip("Bearer "@.len() as int)
    } else {
        header
    }
}

/// The stand-in rule for tokens: a token counts as valid when its UTF-8
/// encoding is longer than ten bytes.
pub open spec fn token_is_valid(token: Seq<char>) -> bool {
    bytes_of(token).len() > 10
}

/// Code that tells valid tokens from others.
pub trait TokenValidator: Send + Sync {
    /// What `validate` may say of `token`. A validator that says nothing
    /// may say anything.
    open spec fn admits(&self, token: Seq<char>, valid: bool) -> bool {
        true
    }

    fn validate(&self, token: &str) -> (valid: bool)
        ensures
            self.admits(token@, valid),
    ;
}

/// The validator that goes by `token_is_valid`. It stands in for a real
/// verification of the token, which this crate does not do.
pub struct LengthPolicy {}

impl TokenValidator for LengthPolicy {
    open spec fn admits(&self, token: Seq<char>, valid: bool) -> bool {
        valid == token_is_valid(token)
    }

    fn validate(&self, token: &str) -> (valid: bool) {
        token.as_bytes().len() > 10
    }
}

/// What a function may say of `token`.
pub open spec fn says<F: Fn(&str) -> bool>(function: F, token: Seq<char>, valid: bool) -> bool {
    exists|t: &str| t@ == token && #[trigger] call_ensures(function, (t,), valid)
}

/// A validator made of a function.
pub struct FunctionValidator<F: Fn(&str) -> bool> {
    function: F,
}

impl<F: Fn(&str) -> bool> FunctionValidator<F> {
    #[verifier::type_invariant]
    spec fn accepts_every_token(&self) -> bool {
        forall|t: &str| call_requires(self.function, (t,))
    }

    /// What the function may say of `token`.
    pub closed spec fn yields(&self, token: Seq<char>, valid: bool) -> bool {
        says(self.function, token, valid)
    }

    pub fn new(function: F) -> (v: Self)
        requires
            forall|t: &str| call_requires(function, (t,)),
        ensures
            forall|token: Seq<char>, valid: bool|
                v.yields(token, valid) == says(function, token, valid),
    {
        FunctionValidator { function }
    }
}

impl<F: Fn(&str) -> bool + Send + Sync> TokenValidator for FunctionValidator<F> {
    open spec fn admits(&self, token: Seq<char>, valid: bool) -> bool {
        self.yields(token, valid)
    }

    fn validate(&self, token: &str) -> (valid: bool) {
        proof {
            use_type_invariant(self);
        }
        (self.function)(token)
    }
}

/// Bearer-token authentication.
pub struct AuthMiddleware<V: TokenValidator = LengthPolicy> {
    pub secret: String,
    /// Requests whose path begins with one of these are let through
    /// unchecked.
    pub skip_paths: Vec<String>,
    /// The header that carries the token.
    pub header_name: String,
    /// What tells valid tokens from others.
    pub validator: V,
}

impl AuthMiddleware<LengthPolicy> {
    /// A check on the `Authorization` header that lets `/health` and
    /// `/login` through and goes by the length of the token.
    pub fn new(secret: String) -> (m: Self)
        ensures
            m.secret == secret,
            m.skip_paths@.len() == 2,
            m.skip_paths@[0]@ == "/health"@,
            m.skip_paths@[1]@ == "/login"@,
            m.header_name@ == "Authorization"@,
    {
        let mut skip_paths: Vec<String> = Vec::new();
        skip_paths.push("/health".to_owned());
        skip_paths.push("/login".to_owned());
        AuthMiddleware {
            secret,
            skip_paths,
            header_name: "Authorization".to_owned(),
            validator: LengthPolicy {  },
        }
    }
}

impl<V: TokenValidator> AuthMiddleware<V> {
    pub fn with_skip_paths(self, paths: Vec<String>) -> (m: Self)
        ensures
            m.skip_paths == paths,
            m.secret == self.secret,
            m.header_name == self.header_name,
            m.validator == self.validator,
    {
        let mut m = self;
        m.skip_paths = paths;
        m
    }

    pub fn with_header_name(self, header_name: String) -> (m: Self)
        ensures
            m.header_name == header_name,
            m.secret == self.secret,
            m.skip_paths == self.skip_paths,
            m.validator == self.validator,
    {
        let mut m = self;
        m.header_name = header_name;
        m
    }

    /// The same check with another validator.
    pub fn with_validator<W: TokenValidator>(self, validator: W) -> (m: AuthMiddleware<W>)
        ensures
            m.validator == validator,
            m.secret == self.secret,
            m.skip_paths == self.skip_paths,
            m.header_name == self.header_name,
    {
        AuthMiddleware {
            secret: self.secret,
            skip_paths: self.skip_paths,
            header_name: self.header_name,
            validator,
        }
    }

    /// Whether requests to `path` are let through unchecked.
    pub fn should_skip(&self, path: &str) -> (skip: bool)
        ensures
            skip == matches_prefix(self.skip_paths@, path@),
    {
        let mut i: usize = 0;
        while i < self.skip_paths.len()
            invariant
                i <= self.skip_paths@.len(),
                forall|k: int|
                    0 <= k < i ==> !(#[trigger] self.skip_paths@[k])@.is_prefix_of(path@),
            decreases self.skip_paths.len() - i,
        {
            if crate::text::starts_with(path, self.skip_paths[i].as_str()) {
                return true;
            }
            i = i + 1;
        }
        false
    }

    /// The token that the request carries, if it has the header at all.
    pub open spec fn token_of(&self, request: RequestContext) -> Option<Seq<char>> {
        if request.headers@.contains_key(self.header_name@) {
            Some(token_in(request.headers@[self.header_name@]))
        } else {
            None
        }
    }

    /// The token that the request carries, if it has the header at all.
    pub fn extract_token(&self, context: &MiddlewareContext) -> (token: Option<String>)
        ensures
            token is Some <==> self.token_of(context.request) is Some,
            token matches Some(t) ==> t@ == self.token_of(context.request)->0,
    {
        match context.request.get_header(self.header_name.as_str()) {
            Some(header) => {
                if crate::text::starts_with(header.as_str(), "Bearer ") {
                    let all = chars_of(header.as_str());
                    let prefix = chars_of("Bearer ");
                    let token = crate::text::text_of_range(&all, prefix.len(), all.len());
                    assert(all@.subrange(prefix@.len() as int, all@.len() as int) =~= all@.skip(
                        prefix@.len() as int,
                    ));
                    Some(token)
                } else {
                    Some(header.clone())
                }
            },
            None => None,
        }
    }

    /// Whether the validator takes the token for valid.
    pub fn validate_token(&self, token: &str) -> (valid: bool)
        ensures
            self.validator.admits(token@, valid),
    {
        self.validator.validate(token)
    }

    /// What the check decides for a request: to let it through unchecked,
    /// to refuse it because it carries no token or one that the validator
    /// does not take, or to let it through as authenticated.
    pub open spec fn decides(&self, pre: MiddlewareContext, post: MiddlewareContext, out: Outcome) -> bool {
        if matches_prefix(self.skip_paths@, pre.request.path@) {
            post == pre && proceeds(out)
        } else {
            match self.token_of(pre.request) {
                None => post == pre && responds(
                    out,
                    HttpStatus::Unauthorized,
                    json_headers(),
                    bytes_of("{\"error\": \"Missing authorization token\"}"@),
                ),
                Some(token) => exists|valid: bool| #[trigger]
                    self.validator.admits(token, valid) && if !valid {
                        post == pre && responds(
                            out,
                            HttpStatus::Unauthorized,
                            json_headers(),
                            bytes_of("{\"error\": \"Invalid authorization token\"}"@),
                        )
                    } else {
                        &&& proceeds(out)
                        &&& post.request == pre.request
                        &&& post.log == pre.log
                        &&& post.counters == pre.counters
                        &&& post.shared_data@ == pre.shared_data@.insert(
                            "authenticated"@,
                            "true"@,
                        ).insert("token"@, token)
                    },
            }
        }
    }
}

impl<V: TokenValidator> Middleware for AuthMiddleware<V> {
    open spec fn name_spec(&self) -> Seq<char> {
        "auth_jwt"@
    }

    open spec fn priority_spec(&self) -> int {
        20
    }

    open spec fn before_spec(&self, pre: MiddlewareContext, post: MiddlewareContext, out: Outcome) -> bool {
        self.decides(pre, post, out)
    }

    open spec fn after_spec(
        &self,
        pre: MiddlewareContext,
        inner: Outcome,
        post: MiddlewareContext,
        out: Outcome,
    ) -> bool {
        post == pre && out == inner
    }

    fn name(&self) -> (n: &str) {
        "auth_jwt"
    }

    fn priority(&self) -> (p: i32) {
        20
    }

    fn before(&self, context: &mut MiddlewareContext) -> (out: Outcome) {
        if self.should_skip(context.request.path.as_str()) {
            return Ok(MiddlewareResult::Continue);
        }
        let token = match self.extract_token(context) {
            Some(token) => token,
            None => {
                let response = ResponseContext::with_json(
                    HttpStatus::Unauthorized,
                    "{\"error\": \"Missing authorization token\"}",
                );
                return Ok(MiddlewareResult::Response(response));
            },
        };
        if !self.validate_token(token.as_str()) {
            let response = ResponseContext::with_json(
                HttpStatus::Unauthorized,
                "{\"error\": \"Invalid authorization token\"}",
            );
            return Ok(MiddlewareResult::Response(response));
        }
        context.set_data("authenticated".to_owned(), "true".to_owned());
        context.set_data("token".to_owned(), token);
        Ok(MiddlewareResult::Continue)
    }

    fn after(&self, context: &mut MiddlewareContext, inner: Outcome) -> (out: Outcome) {
        inner
    }
}

/// The number stored under `key`; zero where there is none or where what is
/// stored is not a number.
pub open spec fn stored_count(data: Map<Seq<char>, Seq<char>>, key: Seq<char>) -> nat {
    if data.contains_key(key) {
        match crate::text::parse_u32_spec(data[key]) {
            Some(n) => n as nat,
            None => 0,
        }
    } else {
        0
    }
}

/// Rate limiting against a budget of requests per window.
pub struct RateLimitMiddleware {
    pub max_requests: u32,
    pub window_seconds: u64,
    /// Whether requests are counted per user rather than per connection.
    pub limit_by_user: bool,
}

impl RateLimitMiddleware {
    /// A budget per connection.
    pub fn new(max_requests: u32, window_seconds: u64) -> (m: Self)
        ensures
            m.max_requests == max_requests,
            m.window_seconds == window_seconds,
            !m.limit_by_user,
    {
        RateLimitMiddleware { max_requests, window_seconds, limit_by_user: false }
    }

    /// The default budget per user: 100 requests an hour.
    pub fn by_user_id() -> (m: Self)
        ensures
            m.max_requests == 100,
            m.window_seconds == 3600,
            m.limit_by_user,
    {
        RateLimitMiddleware { max_requests: 100, window_seconds: 3600, limit_by_user: true }
    }

    /// A budget per user.
    pub fn with_user_limits(max_requests: u32, window_seconds: u64) -> (m: Self)
        ensures
            m.max_requests == max_requests,
            m.window_seconds == window_seconds,
            m.limit_by_user,
    {
        RateLimitMiddleware { max_requests, window_seconds, limit_by_user: true }
    }

    /// The key under which requests are counted. Per user it is made of the
    /// user id, or else of the token, or else it is the bucket for unknown
    /// callers; per connection there is one default bucket.
    pub open spec fn key_for(&self, data: Map<Seq<char>, Seq<char>>) -> Seq<char> {
        if self.limit_by_user {
            if data.contains_key("user_id"@) {
                "rate_limit_user_"@ + data["user_id"@]
            } else if data.contains_key("token"@) {
                "rate_limit_token_"@ + data["token"@]
            } else {
                "rate_limit_ip_unknown"@
            }
        } else {
            "rate_limit_ip_default"@
        }
    }

    /// The key under which the request is counted.
    pub fn get_rate_limit_key(&self, context: &MiddlewareContext) -> (key: String)
        ensures
            key@ == self.key_for(context.shared_data@),
    {
        if self.limit_by_user {
            match context.get_data("user_id") {
                Some(user_id) => crate::text::concat("rate_limit_user_", user_id.as_str()),
                None => match context.get_data("token") {
                    Some(token) => crate::text::concat("rate_limit_token_", token.as_str()),
                    None => "rate_limit_ip_unknown".to_owned(),
                },
            }
        } else {
            "rate_limit_ip_default".to_owned()
        }
    }

    /// What counting one more request under `key` does to the counters: a
    /// key that is marked as limited stays refused; a count that has reached
    /// the budget gets the key marked and the request refused; otherwise the
    /// count goes up by one and the request is admitted. Nothing else in the
    /// context changes.
    pub open spec fn counts(
        &self,
        key: Seq<char>,
        pre: MiddlewareContext,
        post: MiddlewareContext,
        admitted: bool,
    ) -> bool {
        let stored = pre.counters@;
        let count = stored_count(stored, key + "_count"@);
        &&& post.request == pre.request
        &&& post.log == pre.log
        &&& post.shared_data == pre.shared_data
        &&& if stored.contains_key(key + "_limited"@) {
            !admitted && post.counters@ == stored
        } else if count >= self.max_requests {
            !admitted && post.counters@ == stored.insert(key + "_limited"@, "true"@)
        } else {
            admitted && post.counters@ == stored.insert(
                key + "_count"@,
                decimal((count + 1) as nat),
            )
        }
    }

    /// Counts one more request under `key` and says whether it is within
    /// the budget.
    pub fn check_rate_limit(&self, key: &str, context: &mut MiddlewareContext) -> (admitted: bool)
        ensures
            self.counts(key@, *old(context), *final(context), admitted),
    {
        let limited_key = crate::text::concat(key, "_limited");
        if context.counters.contains_key(limited_key.as_str()) {
            return false;
        }
        let count_key = crate::text::concat(key, "_count");
        let current: u32 = match context.counters.get(count_key.as_str()) {
            Some(text) => match crate::text::parse_u32(text.as_str()) {
                Some(n) => n,
                None => 0,
            },
            None => 0,
        };
        if current >= self.max_requests {
            context.counters.insert(limited_key, "true".to_owned());
            false
        } else {
            context.counters.insert(count_key, decimal_text((current + 1) as u64));
            true
        }
    }

    /// The body of the refusal.
    pub open spec fn refusal_text(&self) -> Seq<char> {
        (if self.limit_by_user {
            "{\"error\": \"Rate limit exceeded for user\", \"max_requests\": "@
        } else {
            "{\"error\": \"Rate limit exceeded\", \"max_requests\": "@
        }) + decimal(self.max_requests as nat) + ", \"window_seconds\": "@ + decimal(
            self.window_seconds as nat,
        ) + "}"@
    }

    /// The headers of the refusal.
    pub open spec fn refusal_headers(&self) -> Map<Seq<char>, Seq<char>> {
        json_headers().insert("X-RateLimit-Limit"@, decimal(self.max_requests as nat)).insert(
            "X-RateLimit-Window"@,
            decimal(self.window_seconds as nat),
        ).insert("Retry-After"@, decimal(self.window_seconds as nat))
    }

    /// The response that a request over the budget gets: 429 with the
    /// budget in the body and in the headers.
    pub fn refusal(&self) -> (response: ResponseContext)
        ensures
            response.status == HttpStatus::TooManyRequests,
            response.headers@ == self.refusal_headers(),
            response.body@ == bytes_of(self.refusal_text()),
    {
        let mut text = if self.limit_by_user {
            "{\"error\": \"Rate limit exceeded for user\", \"max_requests\": ".to_owned()
        } else {
            "{\"error\": \"Rate limit exceeded\", \"max_requests\": ".to_owned()
        };
        text.append(decimal_text(self.max_requests as u64).as_str());
        text.append(", \"window_seconds\": ");
        text.append(decimal_text(self.window_seconds).as_str());
        text.append("}");
        let mut response = ResponseContext::with_json(HttpStatus::TooManyRequests, text.as_str());
        response.add_header(
            "X-RateLimit-Limit".to_owned(),
            decimal_text(self.max_requests as u64),
        );
        response.add_header("X-RateLimit-Window".to_owned(), decimal_text(self.window_seconds));
        response.add_header("Retry-After".to_owned(), decimal_text(self.window_seconds));
        response
    }
}

impl Middleware for RateLimitMiddleware {
    open spec fn name_spec(&self) -> Seq<char> {
        "rate_limit"@
    }

    open spec fn priority_spec(&self) -> int {
        15
    }

    open spec fn before_spec(&self, pre: MiddlewareContext, post: MiddlewareContext, out: Outcome) -> bool {
        exists|admitted: bool| #[trigger]
            self.counts(self.key_for(pre.shared_data@), pre, post, admitted) && if admitted {
                proceeds(out)
            } else {
                responds(
                    out,
                    HttpStatus::TooManyRequests,
                    self.refusal_headers(),
                    bytes_of(self.refusal_text()),
                )
            }
    }

    open spec fn after_spec(
        &self,
        pre: MiddlewareContext,
        inner: Outcome,
        post: MiddlewareContext,
        out: Outcome,
    ) -> bool {
        post == pre && out == inner
    }

    fn name(&self) -> (n: &str) {
        "rate_limit"
    }

    fn priority(&self) -> (p: i32) {
        15
    }

    fn before(&self, context: &mut MiddlewareContext) -> (out: Outcome) {
        let key = self.get_rate_limit_key(context);
        if !self.check_rate_limit(key.as_str(), context) {
            return Ok(MiddlewareResult::Response(self.refusal()));
        }
        Ok(MiddlewareResult::Continue)
    }

    fn after(&self, context: &mut MiddlewareContext, inner: Outcome) -> (out: Outcome) {
        inner
    }
}

/// The texts of a list of lines.
pub open spec fn lines_of(log: Seq<String>) -> Seq<Seq<char>> {
    Seq::new(log.len(), |i: int| log[i]@)
}

/// Appends one line.
fn write_line(log: &mut Vec<String>, line: String)
    ensures
        lines_of(final(log)@) == lines_of(old(log)@).push(line@),
{
    let ghost text = line@;
    log.push(line);
    assert(lines_of(log@) =~= lines_of(old(log)@).push(text));
}

/// What begins every line about a request: the time, the verb and the path.
pub open spec fn line_head(now: u64, request: RequestContext) -> Seq<char> {
    "["@ + decimal(now as nat) + "] "@ + request.method.name() + " "@ + request.path@
}

fn make_line_head(now: u64, request: &RequestContext) -> (head: String)
    ensures
        head@ == line_head(now, *request),
{
    let mut head = "[".to_owned();
    head.append(decimal_text(now).as_str());
    head.append("] ");
    head.append(request.method.as_str());
    head.append(" ");
    head.append(request.path.as_str());
    head
}

/// A text cut down to its first 200 characters, with three dots to show it.
pub open spec fn clipped(text: Seq<char>) -> Seq<char> {
    if text.len() > 200 {
        text.take(200) + "..."@
    } else {
        text
    }
}

fn clip(text: String) -> (short: String)
    ensures
        short@ == clipped(text@),
{
    let all = chars_of(text.as_str());
    if all.len() > 200 {
        let mut short = crate::text::text_of_range(&all, 0, 200);
        assert(all@.subrange(0, 200) =~= all@.take(200));
        short.append("...");
        short
    } else {
        text
    }
}

/// A body as text; empty where the body is not well-formed UTF-8.
pub open spec fn body_text(body: Seq<u8>) -> Seq<char> {
    if vstd::utf8::valid_utf8(body) {
        vstd::utf8::decode_utf8(body)
    } else {
        Seq::<char>::empty()
    }
}

/// One line for each header, indented: the name, a colon, the value.
pub open spec fn header_lines(pairs: Seq<crate::strmap::Pair>) -> Seq<Seq<char>> {
    Seq::new(pairs.len(), |i: int| "    "@ + pairs[i].0 + ": "@ + pairs[i].1)
}

fn write_headers(headers: &crate::strmap::StringMap, log: &mut Vec<String>)
    ensures
        lines_of(final(log)@) == lines_of(old(log)@) + header_lines(headers.pairs()),
{
    let n = headers.len();
    let mut i: usize = 0;
    assert(lines_of(log@) =~= lines_of(old(log)@) + header_lines(headers.pairs()).take(0));
    while i < n
        invariant
            i <= n,
            n == headers.pairs().len(),
            lines_of(log@) == lines_of(old(log)@) + header_lines(headers.pairs()).take(i as int),
        decreases n - i,
    {
        let mut line = "    ".to_owned();
        line.append(headers.key_at(i).as_str());
        line.append(": ");
        line.append(headers.value_at(i).as_str());
        let ghost before = lines_of(log@);
        write_line(log, line);
        assert(lines_of(log@) =~= lines_of(old(log)@) + header_lines(headers.pairs()).take(
            i + 1,
        )) by {
            assert(header_lines(headers.pairs()).take(i + 1) =~= header_lines(
                headers.pairs(),
            ).take(i as int).push(header_lines(headers.pairs())[i as int]));
        }
        i = i + 1;
    }
    assert(header_lines(headers.pairs()).take(n as int) =~= header_lines(headers.pairs()));
}

/// Request logging. The lines go to the log of the context, for the
/// embedding program to print; the request and the outcome pass unchanged.
pub struct LoggerMiddleware {
    pub log_requests: bool,
    pub log_responses: bool,
    pub log_headers: bool,
    pub log_body: bool,
}

impl LoggerMiddleware {
    /// Logs requests and outcomes, without headers and bodies.
    pub fn new() -> (m: Self)
        ensures
            m.log_requests && m.log_responses && !m.log_headers && !m.log_body,
    {
        LoggerMiddleware { log_requests: true, log_responses: true, log_headers: false, log_body: false }
    }

    pub fn requests_only() -> (m: Self)
        ensures
            m.log_requests && !m.log_responses && !m.log_headers && !m.log_body,
    {
        LoggerMiddleware {
            log_requests: true,
            log_responses: false,
            log_headers: false,
            log_body: false,
        }
    }

    pub fn responses_only() -> (m: Self)
        ensures
            !m.log_requests && m.log_responses && !m.log_headers && !m.log_body,
    {
        LoggerMiddleware {
            log_requests: false,
            log_responses: true,
            log_headers: false,
            log_body: false,
        }
    }

    /// Logs everything.
    pub fn detailed() -> (m: Self)
        ensures
            m.log_requests && m.log_responses && m.log_headers && m.log_body,
    {
        LoggerMiddleware { log_requests: true, log_responses: true, log_headers: true, log_body: true }
    }

    pub fn with_headers(self) -> (m: Self)
        ensures
            m.log_headers,
            m.log_requests == self.log_requests,
            m.log_responses == self.log_responses,
            m.log_body == self.log_body,
    {
        let mut m = self;
        m.log_headers = true;
        m
    }

    pub fn with_body(self) -> (m: Self)
        ensures
            m.log_body,
            m.log_requests == self.log_requests,
            m.log_responses == self.log_responses,
            m.log_headers == self.log_headers,
    {
        let mut m = self;
        m.log_body = true;
        m
    }

    /// The lines that describe a request in detail: its headers where
    /// headers are logged and there are any, its body where bodies are
    /// logged and it has a text.
    pub open spec fn request_details(&self, request: RequestContext) -> Seq<Seq<char>> {
        (if self.log_headers && request.headers.pairs().len() > 0 {
            seq!["  Headers:"@] + header_lines(request.headers.pairs())
        } else {
            Seq::<Seq<char>>::empty()
        }) + (if self.log_body && request.body@.len() > 0 && body_text(request.body@).len() > 0 {
            seq!["  Body: "@ + clipped(body_text(request.body@))]
        } else {
            Seq::<Seq<char>>::empty()
        })
    }

    /// Writes the details of a request.
    pub fn log_request_details(&self, request: &RequestContext, log: &mut Vec<String>)
        ensures
            lines_of(final(log)@) == lines_of(old(log)@) + self.request_details(*request),
    {
        if self.log_headers && !request.headers.is_empty() {
            write_line(log, "  Headers:".to_owned());
            write_headers(&request.headers, log);
        }
        let ghost halfway = lines_of(log@);
        assert(halfway =~= lines_of(old(log)@) + (if self.log_headers && request.headers.pairs().len()
            > 0 {
            seq!["  Headers:"@] + header_lines(request.headers.pairs())
        } else {
            Seq::<Seq<char>>::empty()
        }));
        if self.log_body && request.body.len() > 0 {
            let text = match request.body_as_string() {
                Ok(text) => text,
                Err(_) => String::new(),
            };
            if text.as_str().unicode_len() > 0 {
                let mut line = "  Body: ".to_owned();
                line.append(clip(text).as_str());
                write_line(log, line);
            }
        }
        assert(lines_of(log@) =~= lines_of(old(log)@) + self.request_details(*request));
    }

    /// The lines that describe a response in detail.
    pub open spec fn response_details(&self, response: ResponseContext) -> Seq<Seq<char>> {
        (if self.log_headers && response.headers.pairs().len() > 0 {
            seq!["  Response Headers:"@] + header_lines(response.headers.pairs())
        } else {
            Seq::<Seq<char>>::empty()
        }) + (if self.log_body && body_text(response.body@).len() > 0 {
            seq!["  Response Body: "@ + clipped(body_text(response.body@))]
        } else {
            Seq::<Seq<char>>::empty()
        })
    }

    /// Writes the details of a response.
    pub fn log_response_details(&self, response: &ResponseContext, log: &mut Vec<String>)
        ensures
            lines_of(final(log)@) == lines_of(old(log)@) + self.response_details(*response),
    {
        if self.log_headers && !response.headers.is_empty() {
            write_line(log, "  Response Headers:".to_owned());
            write_headers(&response.headers, log);
        }
        let ghost halfway = lines_of(log@);
        assert(halfway =~= lines_of(old(log)@) + (if self.log_headers
            && response.headers.pairs().len() > 0 {
            seq!["  Response Headers:"@] + header_lines(response.headers.pairs())
        } else {
            Seq::<Seq<char>>::empty()
        }));
        if self.log_body {
            let text = match response.body_as_string() {
                Ok(text) => text,
                Err(_) => String::new(),
            };
            if text.as_str().unicode_len() > 0 {
                let mut line = "  Response Body: ".to_owned();
                line.append(clip(text).as_str());
                write_line(log, line);
            }
        }
        assert(lines_of(log@) =~= lines_of(old(log)@) + self.response_details(*response));
    }

    /// What is written when a request comes in at the time `now`.
    pub open spec fn request_lines(&self, request: RequestContext, now: u64) -> Seq<Seq<char>> {
        if self.log_requests {
            seq![line_head(now, request) + " - Request started"@] + self.request_details(request)
        } else {
            Seq::<Seq<char>>::empty()
        }
    }

    /// Writes what there is to write when a request comes in at the time
    /// `now`. Nothing but the log changes.
    pub fn log_request(&self, context: &mut MiddlewareContext, now: u64)
        ensures
            final(context).request == old(context).request,
            final(context).shared_data == old(context).shared_data,
            final(context).counters == old(context).counters,
            lines_of(final(context).log@) == lines_of(old(context).log@) + self.request_lines(
                old(context).request,
                now,
            ),
    {
        if self.log_requests {
            let mut line = make_line_head(now, &context.request);
            line.append(" - Request started");
            write_line(&mut context.log, line);
            self.log_request_details(&context.request, &mut context.log);
            assert(lines_of(context.log@) =~= lines_of(old(context).log@) + self.request_lines(
                old(context).request,
                now,
            ));
        } else {
            assert(lines_of(context.log@) =~= lines_of(old(context).log@) + self.request_lines(
                old(context).request,
                now,
            ));
        }
    }

    /// The time that has passed since the request was created, in
    /// milliseconds; zero where the clock has gone back.
    pub open spec fn elapsed(request: RequestContext, now: u64) -> nat {
        if now >= request.start_time {
            (now - request.start_time) as nat
        } else {
            0
        }
    }

    /// The line that reports a decision.
    pub open spec fn outcome_line(request: RequestContext, result: MiddlewareResult, now: u64) -> Seq<
        char,
    > {
        line_head(now, request) + " - "@ + (match result {
            MiddlewareResult::Response(r) => decimal(r.status.code() as nat) + " "@
                + r.status.reason(),
            MiddlewareResult::Error(e) => "Error: "@ + e.text(),
            MiddlewareResult::Continue => "Continue"@,
        }) + " ("@ + decimal(Self::elapsed(request, now)) + ".00ms)"@
    }

    /// What is written when the inner stages have decided `result` and the
    /// time is `now`.
    pub open spec fn outcome_lines(&self, request: RequestContext, result: MiddlewareResult, now: u64) -> Seq<
        Seq<char>,
    > {
        if self.log_responses {
            seq![Self::outcome_line(request, result, now)] + (match result {
                MiddlewareResult::Response(r) => self.response_details(r),
                _ => Seq::<Seq<char>>::empty(),
            })
        } else {
            Seq::<Seq<char>>::empty()
        }
    }

    /// Writes what there is to write about the decision `result` at the
    /// time `now`. Nothing but the log changes.
    pub fn log_outcome(&self, context: &mut MiddlewareContext, result: &MiddlewareResult, now: u64)
        ensures
            final(context).request == old(context).request,
            final(context).shared_data == old(context).shared_data,
            final(context).counters == old(context).counters,
            lines_of(final(context).log@) == lines_of(old(context).log@) + self.outcome_lines(
                old(context).request,
                *result,
                now,
            ),
    {
        if self.log_responses {
            let elapsed: u64 = if now >= context.request.start_time {
                now - context.request.start_time
            } else {
                0
            };
            let mut line = make_line_head(now, &context.request);
            line.append(" - ");
            match result {
                MiddlewareResult::Response(r) => {
                    line.append(decimal_text(r.status.as_u16() as u64).as_str());
                    line.append(" ");
                    line.append(r.status.reason_phrase());
                },
                MiddlewareResult::Error(e) => {
                    line.append("Error: ");
                    line.append(e.to_string().as_str());
                },
                MiddlewareResult::Continue => {
                    line.append("Continue");
                },
            }
            line.append(" (");
            line.append(decimal_text(elapsed).as_str());
            line.append(".00ms)");
            assert(line@ =~= Self::outcome_line(context.request, *result, now));
            write_line(&mut context.log, line);
            match result {
                MiddlewareResult::Response(r) => {
                    self.log_response_details(r, &mut context.log);
                },
                _ => {},
            }
            assert(lines_of(context.log@) =~= lines_of(old(context).log@) + self.outcome_lines(
                old(context).request,
                *result,
                now,
            ));
        } else {
            assert(lines_of(context.log@) =~= lines_of(old(context).log@) + self.outcome_lines(
                old(context).request,
                *result,
                now,
            ));
        }
    }
}

impl Default for LoggerMiddleware {
    fn default() -> (m: Self)
        ensures
            m.log_requests && m.log_responses && !m.log_headers && !m.log_body,
    {
        LoggerMiddleware::new()
    }
}

impl Middleware for LoggerMiddleware {
    open spec fn name_spec(&self) -> Seq<char> {
        "logger"@
    }

    open spec fn priority_spec(&self) -> int {
        5
    }

    open spec fn before_spec(&self, pre: MiddlewareContext, post: MiddlewareContext, out: Outcome) -> bool {
        &&& proceeds(out)
        &&& post.request == pre.request
        &&& post.shared_data == pre.shared_data
        &&& post.counters == pre.counters
        &&& exists|now: u64|
            lines_of(post.log@) == lines_of(pre.log@) + #[trigger] self.request_lines(
                pre.request,
                now,
            )
    }

    open spec fn after_spec(
        &self,
        pre: MiddlewareContext,
        inner: Outcome,
        post: MiddlewareContext,
        out: Outcome,
    ) -> bool {
        &&& out == inner
        &&& post.request == pre.request
        &&& post.shared_data == pre.shared_data
        &&& post.counters == pre.counters
        &&& match inner {
            Ok(result) => exists|now: u64|
                lines_of(post.log@) == lines_of(pre.log@) + #[trigger] self.outcome_lines(
                    pre.request,
                    result,
                    now,
                ),
            Err(_) => post.log == pre.log,
        }
    }

    fn name(&self) -> (n: &str) {
        "logger"
    }

    fn priority(&self) -> (p: i32) {
        5
    }

    fn before(&self, context: &mut MiddlewareContext) -> (out: Outcome) {
        let now = crate::types::unix_millis();
        self.log_request(context, now);
        Ok(MiddlewareResult::Continue)
    }

    fn after(&self, context: &mut MiddlewareContext, inner: Outcome) -> (out: Outcome) {
        match &inner {
            Ok(result) => {
                let now = crate::types::unix_millis();
                self.log_outcome(context, result, now);
            },
            Err(_) => {},
        }
        inner
    }
}

/// The stage that does nothing. It stands where a kind of stage is asked
/// for and none is wanted.
pub struct NoStage {}

impl Middleware for NoStage {
    open spec fn name_spec(&self) -> Seq<char> {
        "none"@
    }

    open spec fn priority_spec(&self) -> int {
        100
    }

    open spec fn before_spec(&self, pre: MiddlewareContext, post: MiddlewareContext, out: Outcome) -> bool {
        post == pre && proceeds(out)
    }

    open spec fn after_spec(
        &self,
        pre: MiddlewareContext,
        inner: Outcome,
        post: MiddlewareContext,
        out: Outcome,
    ) -> bool {
        post == pre && out == inner
    }

    fn name(&self) -> (n: &str) {
        "none"
    }

    fn priority(&self) -> (p: i32) {
        100
    }

    fn before(&self, context: &mut MiddlewareContext) -> (out: Outcome) {
        Ok(MiddlewareResult::Continue)
    }

    fn after(&self, context: &mut MiddlewareContext, inner: Outcome) -> (out: Outcome) {
        inner
    }
}

/// A stage of one of the kinds that come with the framework, or of the
/// kind `X` that the caller brings. A stage does what the stage inside it
/// does.
pub enum Stage<X: Middleware> {
    Cors(CorsMiddleware),
    Logger(LoggerMiddleware),
    Auth(AuthMiddleware),
    RateLimit(RateLimitMiddleware),
    Other(X),
}

impl<X: Middleware> Middleware for Stage<X> {
    open spec fn name_spec(&self) -> Seq<char> {
        match self {
            Stage::Cors(m) => m.name_spec(),
            Stage::Logger(m) => m.name_spec(),
            Stage::Auth(m) => m.name_spec(),
            Stage::RateLimit(m) => m.name_spec(),
            Stage::Other(m) => m.name_spec(),
        }
    }

    open spec fn priority_spec(&self) -> int {
        match self {
            Stage::Cors(m) => m.priority_spec(),
            Stage::Logger(m) => m.priority_spec(),
            Stage::Auth(m) => m.priority_spec(),
            Stage::RateLimit(m) => m.priority_spec(),
            Stage::Other(m) => m.priority_spec(),
        }
    }

    open spec fn before_spec(&self, pre: MiddlewareContext, post: MiddlewareContext, out: Outcome) -> bool {
        match self {
            Stage::Cors(m) => m.before_spec(pre, post, out),
            Stage::Logger(m) => m.before_spec(pre, post, out),
            Stage::Auth(m) => m.before_spec(pre, post, out),
            Stage::RateLimit(m) => m.before_spec(pre, post, out),
            Stage::Other(m) => m.before_spec(pre, post, out),
        }
    }

    open spec fn after_spec(
        &self,
        pre: MiddlewareContext,
        inner: Outcome,
        post: MiddlewareContext,
        out: Outcome,
    ) -> bool {
        match self {
            Stage::Cors(m) => m.after_spec(pre, inner, post, out),
            Stage::Logger(m) => m.after_spec(pre, inner, post, out),
            Stage::Auth(m) => m.after_spec(pre, inner, post, out),
            Stage::RateLimit(m) => m.after_spec(pre, inner, post, out),
            Stage::Other(m) => m.after_spec(pre, inner, post, out),
        }
    }

    fn name(&self) -> (n: &str) {
        match self {
            Stage::Cors(m) => m.name(),
            Stage::Logger(m) => m.name(),
            Stage::Auth(m) => m.name(),
            Stage::RateLimit(m) => m.name(),
            Stage::Other(m) => m.name(),
        }
    }

    fn priority(&self) -> (p: i32) {
        match self {
            Stage::Cors(m) => m.priority(),
            Stage::Logger(m) => m.priority(),
            Stage::Auth(m) => m.priority(),
            Stage::RateLimit(m) => m.priority(),
            Stage::Other(m) => m.priority(),
        }
    }

    fn before(&self, context: &mut MiddlewareContext) -> (out: Outcome) {
        match self {
            Stage::Cors(m) => m.before(context),
            Stage::Logger(m) => m.before(context),
            Stage::Auth(m) => m.before(context),
            Stage::RateLimit(m) => m.before(context),
            Stage::Other(m) => m.before(context),
        }
    }

    fn after(&self, context: &mut MiddlewareContext, inner: Outcome) -> (out: Outcome) {
        match self {
            Stage::Cors(m) => m.after(context, inner),
            Stage::Logger(m) => m.after(context, inner),
            Stage::Auth(m) => m.after(context, inner),
            Stage::RateLimit(m) => m.after(context, inner),
            Stage::Other(m) => m.after(context, inner),
        }
    }
}

impl<X: Middleware> StageOf<Stage<X>> for Stage<X> {
    open spec fn as_stage(self) -> Stage<X> {
        self
    }

    fn into_stage(self) -> (stage: Stage<X>) {
        self
    }
}

impl<X: Middleware> StageOf<Stage<X>> for CorsMiddleware {
    open spec fn as_stage(self) -> Stage<X> {
        Stage::Cors(self)
    }

    fn into_stage(self) -> (stage: Stage<X>) {
        Stage::Cors(self)
    }
}

impl<X: Middleware> StageOf<Stage<X>> for LoggerMiddleware {
    open spec fn as_stage(self) -> Stage<X> {
        Stage::Logger(self)
    }

    fn into_stage(self) -> (stage: Stage<X>) {
        Stage::Logger(self)
    }
}

impl<X: Middleware> StageOf<Stage<X>> for AuthMiddleware {
    open spec fn as_stage(self) -> Stage<X> {
        Stage::Auth(self)
    }

    fn into_stage(self) -> (stage: Stage<X>) {
        Stage::Auth(self)
    }
}

impl<X: Middleware> StageOf<Stage<X>> for RateLimitMiddleware {
    open spec fn as_stage(self) -> Stage<X> {
        Stage::RateLimit(self)
    }

    fn into_stage(self) -> (stage: Stage<X>) {
        Stage::RateLimit(self)
    }
}

impl<F: Fn(MiddlewareContext) -> (MiddlewareContext, Outcome) + Send + Sync> StageOf<
    Stage<FunctionMiddleware<F>>,
> for FunctionMiddleware<F> {
    open spec fn as_stage(self) -> Stage<FunctionMiddleware<F>> {
        Stage::Other(self)
    }

    fn into_stage(self) -> (stage: Stage<FunctionMiddleware<F>>) {
        Stage::Other(self)
    }
}

impl<F: Fn(MiddlewareContext) -> (MiddlewareContext, Outcome) + Send + Sync> MiddlewareChain<
    Stage<FunctionMiddleware<F>>,
> {
    /// Registers a function as a stage with the default priority, 100. The
    /// stage goes where `push` puts it, and does what the function does.
    pub fn add_function(&mut self, name: String, handler: F)
        requires
            forall|c: MiddlewareContext| call_requires(handler, (c,)),
        ensures
            ({
                let at = slot(priorities_of(old(self).stages()), 100);
                &&& 0 <= at <= old(self).stages().len()
                &&& final(self).stages().len() == old(self).stages().len() + 1
                &&& final(self).stages().remove(at) == old(self).stages()
                &&& final(self).stages()[at] matches Stage::Other(m)
                &&& m.name_text() == name@
                &&& m.priority_value() == 100
                &&& m.handler() == handler
            }),
    {
        let ghost before = self.stages();
        let middleware = FunctionMiddleware::new(name, handler);
        self.add(middleware);
        proof {
            let at = slot(priorities_of(before), 100);
            assert(self.stages().remove(at) =~= before);
        }
    }

    /// Registers a function as a stage with the given priority.
    pub fn add_function_with_priority(&mut self, name: String, priority: i32, handler: F)
        requires
            forall|c: MiddlewareContext| call_requires(handler, (c,)),
        ensures
            ({
                let at = slot(priorities_of(old(self).stages()), priority as int);
                &&& 0 <= at <= old(self).stages().len()
                &&& final(self).stages().len() == old(self).stages().len() + 1
                &&& final(self).stages().remove(at) == old(self).stages()
                &&& final(self).stages()[at] matches Stage::Other(m)
                &&& m.name_text() == name@
                &&& m.priority_value() == priority
                &&& m.handler() == handler
            }),
    {
        let ghost before = self.stages();
        let middleware = FunctionMiddleware::with_priority(name, priority, handler);
        self.add(middleware);
        proof {
            let at = slot(priorities_of(before), priority as int);
            assert(self.stages().remove(at) =~= before);
        }
    }
}

} // verus!
