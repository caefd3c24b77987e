use hush::boundary::{
    adapt_reply, add_foreign_middleware, check_null_mut_ptr, check_null_ptr, execute_request,
    execute_text,
    from_c_string, get_memory_manager, handle_ffi_result, marshal_request, response_from_foreign,
    order_of, string_compare, string_length, to_c_string, verdict_of, ByteArray, CStringWrapper, ForeignHandler, ForeignRequest,
    MemoryManager,
};
use hush::error::{ErrorCode, HushError, LastError};
use hush::boundary::ForeignMiddleware;
use hush::middleware::builtin::{CorsMiddleware, NoStage, RateLimitMiddleware, Stage};
use hush::middleware::chain::{
    Either, FunctionMiddleware, MiddlewareChain, MiddlewareContext, MiddlewareResult, Outcome,
};
use hush::strmap::StringMap;
use hush::types::{HttpMethod, HttpStatus, RequestContext, ResponseContext};
use hush::web::handler::{
    cors_middleware, echo_handler, health_check_handler, html_handler, internal_error_handler,
    not_found_handler, Answer, EitherHandler, FixedHandler, FunctionHandler, Handler, Middleware,
    RequestHandler, ResponseBuilder,
};
use hush::web::router::{RouteMatcher, Router};
use hush::web::server::{RouterStage, WebServerConfig};

type StageFn = Box<dyn Fn(MiddlewareContext) -> (MiddlewareContext, Outcome) + Send + Sync>;
type HandlerFn = Box<dyn Fn(&RequestContext) -> Answer + Send + Sync>;
type CallFn = Box<dyn Fn(&ForeignRequest, &Option<String>) -> i32 + Send + Sync>;

fn stage(f: impl Fn(MiddlewareContext) -> (MiddlewareContext, Outcome) + Send + Sync + 'static) -> StageFn {
    Box::new(f)
}

fn code(f: impl Fn(&RequestContext) -> Answer + Send + Sync + 'static) -> FunctionHandler<HandlerFn> {
    let boxed: HandlerFn = Box::new(f);
    FunctionHandler::new(boxed)
}

fn call(f: impl Fn(&ForeignRequest, &Option<String>) -> i32 + Send + Sync + 'static) -> CallFn {
    Box::new(f)
}

fn request(method: HttpMethod, path: &str) -> RequestContext {
    RequestContext::new(method, path.to_string())
}

#[test]
fn the_second_registration_of_a_route_is_refused() {
    let mut router = Router::new();
    assert!(router.add_route(HttpMethod::GET, "/x".to_string(), not_found_handler()).is_ok());
    match router.add_route(HttpMethod::GET, "/x".to_string(), health_check_handler()) {
        Err(HushError::HttpError(m)) => assert_eq!(m, "Route already exists: GET:/x"),
        _ => panic!("a duplicate route must be refused"),
    }
    assert_eq!(router.route_count(), 1);
    assert_eq!(router.handle_request(&request(HttpMethod::GET, "/x")).unwrap().status.as_u16(), 404);
    assert!(router.add_route(HttpMethod::POST, "/x".to_string(), health_check_handler()).is_ok());
    assert!(router.add_route(HttpMethod::GET, "/x/".to_string(), health_check_handler()).is_ok());
    assert_eq!(router.route_count(), 3);
    let routes = router.get_routes();
    assert_eq!(routes.len(), 3);
    assert_eq!(routes[0].handler_name, "handler_0");
    assert_eq!(routes[1].method, HttpMethod::POST);
    assert_eq!(routes[2].handler_name, "handler_2");
    assert_eq!(routes[2].route_key(), "GET:/x/");
}

#[test]
fn dispatch_is_exact() {
    let mut router: Router<EitherHandler<FunctionHandler<HandlerFn>, FixedHandler>> = Router::new();
    let fixed = || RequestHandler::from_handler(EitherHandler::Right(health_check_handler().handler));
    router
        .add_route(
            HttpMethod::GET,
            "/fail".to_string(),
            RequestHandler::from_handler(EitherHandler::Left(code(|_| Err(HushError::InvalidToken)))),
        )
        .unwrap();
    router.add_route(HttpMethod::PUT, "/a".to_string(), fixed()).unwrap();
    router.add_route(HttpMethod::HEAD, "/a".to_string(), fixed()).unwrap();
    router.add_route(HttpMethod::GET, "/a".to_string(), fixed()).unwrap();
    assert!(matches!(
        router.handle_request(&request(HttpMethod::GET, "/fail")),
        Err(HushError::InvalidToken)
    ));
    assert!(matches!(
        router.handle_request(&request(HttpMethod::GET, "/none")),
        Err(HushError::RouteNotFound)
    ));
    assert!(matches!(
        router.handle_request(&request(HttpMethod::GET, "/a/")),
        Err(HushError::RouteNotFound)
    ));
    assert!(matches!(
        router.handle_request(&request(HttpMethod::POST, "/a")),
        Err(HushError::RouteNotFound)
    ));
    assert_eq!(
        router.get_supported_methods("/a"),
        vec![HttpMethod::GET, HttpMethod::PUT, HttpMethod::HEAD]
    );
    assert!(router.get_supported_methods("/b").is_empty());
    assert!(matches!(router.remove_route(HttpMethod::GET, "/b"), Err(HushError::RouteNotFound)));
    assert!(router.remove_route(HttpMethod::PUT, "/a").is_ok());
    assert_eq!(router.get_supported_methods("/a"), vec![HttpMethod::GET, HttpMethod::HEAD]);
    assert_eq!(router.get_routes().len(), 3);
    router.clear();
    assert_eq!(router.route_count(), 0);
    assert!(!router.has_route(HttpMethod::GET, "/a"));
    assert!(router.get_routes().is_empty());
}

#[test]
fn patterns_bind_their_parameters() {
    let matcher = RouteMatcher::new("/users/:id");
    assert_eq!(matcher.pattern(), "/users/:id");
    assert_eq!(matcher.param_names(), &vec!["id".to_string()]);
    let params = matcher.matches("/users/42").unwrap();
    assert_eq!(params.len(), 1);
    assert_eq!(params.get("id"), Some(&"42".to_string()));
    assert!(matcher.matches("/users/42/extra").is_none());
    assert!(matcher.matches("/users/42/").is_none());
    assert!(matcher.matches("/users").is_none());
    assert!(matcher.matches("users/42").is_none());
    assert!(matcher.matches("/Users/42").is_none());
    assert_eq!(matcher.matches("/users/").unwrap().get("id"), Some(&"".to_string()));
    let plain = RouteMatcher::new("/a/b");
    assert!(plain.param_names().is_empty());
    assert!(plain.matches("/a/b").unwrap().is_empty());
    assert!(plain.matches("/a/c").is_none());
    let twice = RouteMatcher::new("/:x/:x/:");
    assert_eq!(twice.param_names(), &vec!["x".to_string(), "x".to_string(), "".to_string()]);
    let params = twice.matches("/1/2/3").unwrap();
    assert_eq!(params.get("x"), Some(&"2".to_string()));
    assert_eq!(params.get(""), Some(&"3".to_string()));
    assert!(RouteMatcher::new("").matches("").is_some());
}

#[test]
fn the_stock_handlers_answer_as_described() {
    let any = request(HttpMethod::GET, "/");
    let response = html_handler("<p>x</p>").handle(&any).unwrap();
    assert_eq!(response.status.as_u16(), 200);
    assert_eq!(response.get_header("Content-Type"), Some(&"text/html".to_string()));
    assert_eq!(response.body_as_string().unwrap(), "<p>x</p>");
    let response = not_found_handler().handle(&any).unwrap();
    assert_eq!((response.status.as_u16(), response.body_as_string().unwrap()), (404, "Not Found".to_string()));
    let response = internal_error_handler().handle(&any).unwrap();
    assert_eq!(response.status.as_u16(), 500);
    assert_eq!(response.body_as_string().unwrap(), "Internal Server Error");
    let response = health_check_handler().handle(&any).unwrap();
    assert_eq!(
        response.body_as_string().unwrap(),
        r#"{"status":"ok","timestamp":"2024-01-01T00:00:00Z"}"#
    );
    assert_eq!(response.get_header("Content-Type"), Some(&"application/json".to_string()));

    let mut asked = request(HttpMethod::POST, "/echo");
    asked.add_header("A".to_string(), "1".to_string());
    asked.add_header("B".to_string(), "2".to_string());
    asked.set_body(b"body".to_vec());
    let response = echo_handler().handle(&asked).unwrap();
    assert_eq!(
        response.body_as_string().unwrap(),
        "Method: POST\nPath: /echo\nBody: body\nHeaders: {A: 1, B: 2}"
    );
    let response = echo_handler().handle(&any).unwrap();
    assert_eq!(response.body_as_string().unwrap(), "Method: GET\nPath: /\nBody: \nHeaders: {}");

    let built = ResponseBuilder::new(HttpStatus::Created)
        .body(vec![1])
        .json("{}")
        .html("<b>")
        .header("X", "1")
        .build();
    assert_eq!(built.status, HttpStatus::Created);
    assert_eq!(built.body, b"<b>".to_vec());
    assert_eq!(built.get_header("Content-Type"), Some(&"text/html".to_string()));
    assert_eq!(built.headers.len(), 2);
}

#[test]
fn a_middleware_around_a_handler_works_on_its_answer() {
    let handler = cors_middleware("https://a.com").apply(health_check_handler());
    let response = handler.handle(&request(HttpMethod::GET, "/")).unwrap();
    assert_eq!(response.status.as_u16(), 200);
    assert_eq!(response.get_header("Access-Control-Allow-Origin"), Some(&"https://a.com".to_string()));
    assert_eq!(
        response.get_header("Access-Control-Allow-Methods"),
        Some(&"GET, POST, PUT, DELETE, OPTIONS".to_string())
    );
    assert_eq!(
        response.get_header("Access-Control-Allow-Headers"),
        Some(&"Content-Type, Authorization".to_string())
    );
    assert_eq!(response.headers.len(), 4);

    let failing = cors_middleware("*").apply(RequestHandler::new(|_| Err(HushError::Timeout)));
    assert!(matches!(failing.handle(&request(HttpMethod::GET, "/")), Err(HushError::Timeout)));

    let inner = Middleware::new(|request: &RequestContext, answer| match answer {
        Ok(mut response) => {
            response.add_header("X-Path".to_string(), request.path.clone());
            response.add_header("X-Order".to_string(), "inner".to_string());
            Ok(response)
        }
        Err(_) => Ok(ResponseContext::with_text(HttpStatus::ServiceUnavailable, "down")),
    });
    let outer = Middleware::new(|_: &RequestContext, answer| {
        answer.map(|mut response: ResponseContext| {
            response.add_header("X-Order".to_string(), "outer".to_string());
            response
        })
    });
    let handler = outer.apply(inner.apply(RequestHandler::new(|_| Err(HushError::Timeout))));
    let response = handler.handle(&request(HttpMethod::GET, "/p")).unwrap();
    assert_eq!(response.status.as_u16(), 503);
    assert_eq!(response.get_header("X-Order"), Some(&"outer".to_string()));
    let handler = Middleware::new(|_: &RequestContext, answer| answer).apply(
        Middleware::new(|request: &RequestContext, answer| {
            answer.map(|mut response: ResponseContext| {
                response.add_header("X-Path".to_string(), request.path.clone());
                response
            })
        })
        .apply(health_check_handler()),
    );
    let response = handler.handle(&request(HttpMethod::GET, "/p")).unwrap();
    assert_eq!(response.get_header("X-Path"), Some(&"/p".to_string()));
}

#[test]
fn the_router_stage_runs_last_and_ends_the_traversal() {
    let mut router = Router::new();
    router.add_route(HttpMethod::GET, "/x".to_string(), health_check_handler()).unwrap();
    let mut chain: MiddlewareChain<
        Either<Stage<FunctionMiddleware<StageFn>>, RouterStage<FixedHandler>>,
    > = MiddlewareChain::new();
    chain.push(Either::Right(RouterStage { router }));
    chain.push(Either::Left(Stage::Other(FunctionMiddleware::with_priority(
        "late".to_string(),
        i32::MAX,
        stage(|ctx: MiddlewareContext| (ctx, Ok(MiddlewareResult::Continue))),
    ))));
    chain.push(Either::Left(Stage::Cors(CorsMiddleware::permissive())));
    assert_eq!(chain.middleware_names(), vec!["cors", "router_handler", "late"]);
    let account = chain.run(MiddlewareContext::new(request(HttpMethod::GET, "/x")));
    assert_eq!(account.entered, 2);
    let response = account.response.unwrap();
    assert_eq!(response.status.as_u16(), 200);
    assert_eq!(response.get_header("Access-Control-Allow-Origin"), Some(&"*".to_string()));
    let account = chain.run(MiddlewareContext::new(request(HttpMethod::GET, "/y")));
    assert_eq!(account.entered, 2);
    assert!(matches!(account.response, Err(HushError::RouteNotFound)));
    let config = WebServerConfig::default();
    assert_eq!((config.host.as_str(), config.port), ("127.0.0.1", 8080));
    assert_eq!((config.max_connections, config.keep_alive, config.request_timeout), (1000, 30, 30));
    assert_eq!(config.clone().host, "127.0.0.1");
}

#[test]
fn texts_cross_the_boundary_terminated() {
    assert_eq!(to_c_string("hé").unwrap(), vec![b'h', 0xc3, 0xa9, 0]);
    assert_eq!(to_c_string("").unwrap(), vec![0]);
    match to_c_string("a\0b") {
        Err(HushError::FFIError(m)) => assert_eq!(m, "Failed to create C string"),
        _ => panic!("a text with a zero byte cannot cross"),
    }
    assert_eq!(from_c_string(Some(b"abc")).unwrap(), "abc");
    assert!(matches!(from_c_string(None), Err(HushError::NullPointer)));
    match from_c_string(Some(&[0xff])) {
        Err(HushError::FFIError(m)) => assert_eq!(m, "Invalid UTF-8 in C string"),
        _ => panic!("bytes that are not UTF-8 cannot be read"),
    }
    let manager = MemoryManager::new();
    assert_eq!(manager.allocate_c_string("x").unwrap(), vec![b'x', 0]);
    assert_eq!(manager.clone_c_string(Some(b"xy")).unwrap(), vec![b'x', b'y', 0]);
    assert!(matches!(manager.clone_c_string(None), Err(HushError::NullPointer)));
    assert!(manager.clone_c_string(Some(&[0x80])).is_err());
    let shared = get_memory_manager();
    let wrapper = CStringWrapper::new("hi", &shared).unwrap();
    assert_eq!(wrapper.as_bytes(), &vec![b'h', b'i', 0]);
    assert_eq!(wrapper.into_raw(), vec![b'h', b'i', 0]);
    assert!(CStringWrapper::new("\0", &shared).is_err());
    let array = ByteArray::from_vec(vec![1, 2, 3]);
    assert_eq!(array.len(), 3);
    assert_eq!(array.as_slice(), &[1, 2, 3]);
    assert_eq!(array.into_vec(), vec![1, 2, 3]);
    assert!(check_null_ptr(Some(&1), "p").is_ok());
    assert!(matches!(check_null_ptr::<u8>(None, "p"), Err(HushError::InvalidParameter)));
    assert!(check_null_mut_ptr(&Some(1), "p").is_ok());
    assert!(matches!(check_null_mut_ptr::<u8>(&None, "p"), Err(HushError::InvalidParameter)));
    let mut last = LastError::new();
    assert_eq!(handle_ffi_result(Ok(5), &mut last), Ok(5));
    assert!(last.slot.is_none());
    assert_eq!(
        handle_ffi_result::<u8>(Err(HushError::InvalidToken), &mut last),
        Err(ErrorCode::AuthError)
    );
    assert!(matches!(last.slot, Some(HushError::InvalidToken)));
}

#[test]
fn a_foreign_handler_is_adapted() {
    assert!(matches!(adapt_reply(None), Err(HushError::RouteNotFound)));
    match adapt_reply(Some(vec![0xc3, 0x28])) {
        Err(HushError::FFIError(m)) => assert_eq!(m, "Invalid UTF-8 in response body"),
        _ => panic!("bytes that are not UTF-8 are a marshalling error"),
    }
    let response = adapt_reply(Some(b"hello".to_vec())).unwrap();
    assert_eq!(response.status.as_u16(), 200);
    assert_eq!(response.body, b"hello".to_vec());
    assert!(response.headers.is_empty());

    let mut asked = request(HttpMethod::POST, "/f");
    asked.set_body(b"in".to_vec());
    let marshalled = marshal_request(&asked).unwrap();
    assert_eq!(marshalled.method, b"POST\0".to_vec());
    assert_eq!(marshalled.path, b"/f\0".to_vec());
    assert_eq!(marshalled.body, b"in\0".to_vec());
    asked.set_body(vec![0xff]);
    match marshal_request(&asked) {
        Err(HushError::FFIError(m)) => assert_eq!(m, "Invalid UTF-8 in request body"),
        _ => panic!("a body that is not UTF-8 cannot cross"),
    }
    asked.set_body(vec![b'a', 0, b'b']);
    match marshal_request(&asked) {
        Err(HushError::FFIError(m)) => assert_eq!(m, "Failed to create C string"),
        _ => panic!("a body with a zero byte cannot cross"),
    }

    let echo = ForeignHandler::new(|f: &ForeignRequest| {
        let mut out = f.method[..f.method.len() - 1].to_vec();
        out.extend_from_slice(&f.body[..f.body.len() - 1]);
        Some(out)
    });
    asked.set_body(b"!".to_vec());
    assert_eq!(echo.handle(&asked).unwrap().body, b"POST!".to_vec());
    asked.set_body(vec![0xff]);
    assert!(matches!(echo.handle(&asked), Err(HushError::FFIError(_))));
    let mut router = Router::new();
    router
        .add_route(
            HttpMethod::GET,
            "/far".to_string(),
            RequestHandler::from_handler(ForeignHandler::new(|_: &ForeignRequest| Some(b"far".to_vec()))),
        )
        .unwrap();
    assert_eq!(router.handle_request(&request(HttpMethod::GET, "/far")).unwrap().body, b"far".to_vec());
    let null = ForeignHandler::new(|_: &ForeignRequest| None);
    assert!(matches!(null.handle(&request(HttpMethod::GET, "/")), Err(HushError::RouteNotFound)));
    let garbage = ForeignHandler::new(|_: &ForeignRequest| Some(vec![0xfe]));
    assert!(matches!(garbage.handle(&request(HttpMethod::GET, "/")), Err(HushError::FFIError(_))));

    let response = response_from_foreign(201, Some(b"made")).unwrap();
    assert_eq!((response.status, response.body), (HttpStatus::Created, b"made".to_vec()));
    assert_eq!(response_from_foreign(999, None).unwrap().status, HttpStatus::InternalServerError);
    assert!(response_from_foreign(200, Some(&[0xff])).is_err());
}

#[test]
fn a_foreign_stage_decides_by_its_number() {
    assert!(matches!(verdict_of(0), MiddlewareResult::Continue));
    match verdict_of(1) {
        MiddlewareResult::Response(response) => {
            assert_eq!(response.status.as_u16(), 200);
            assert_eq!(response.body_as_string().unwrap(), "Middleware response");
        }
        _ => panic!("one means a response"),
    }
    for code in [2, -1, i32::MAX, i32::MIN] {
        match verdict_of(code) {
            MiddlewareResult::Error(HushError::InternalError(m)) => {
                assert_eq!(m, "Middleware handler failed")
            }
            _ => panic!("any other number means an error"),
        }
    }
    let mut chain: MiddlewareChain<Stage<ForeignMiddleware<CallFn>>> = MiddlewareChain::new();
    add_foreign_middleware(&mut chain, None, call(|_: &ForeignRequest, _: &Option<String>| 0));
    add_foreign_middleware(
        &mut chain,
        Some("data".to_string()),
        call(|f: &ForeignRequest, data: &Option<String>| {
            if f.path == b"/stop\0".to_vec() && data.as_deref() == Some("data") {
                1
            } else {
                7
            }
        }),
    );
    assert_eq!(chain.middleware_names(), vec!["custom_middleware_0", "custom_middleware_1"]);
    let response = chain.execute(MiddlewareContext::new(request(HttpMethod::GET, "/stop"))).unwrap();
    assert_eq!(response.body_as_string().unwrap(), "Middleware response");
    assert!(matches!(
        chain.execute(MiddlewareContext::new(request(HttpMethod::GET, "/go"))),
        Err(HushError::InternalError(_))
    ));
    let mut binary = request(HttpMethod::GET, "/stop");
    binary.set_body(vec![0xff]);
    assert!(matches!(
        chain.execute(MiddlewareContext::new(binary)),
        Err(HushError::FFIError(_))
    ));
}

#[test]
fn a_chain_runs_for_a_caller_across_the_boundary() {
    let mut chain: MiddlewareChain<Stage<FunctionMiddleware<StageFn>>> = MiddlewareChain::new();
    let mut last = LastError::new();
    let mut counters = StringMap::new();
    assert_eq!(execute_text(&chain, Some(b"GET"), Some(b"/"), None, &mut counters, &mut last), None);
    assert!(matches!(last.slot, Some(HushError::InternalError(_))));
    chain.add_function("echo".to_string(), stage(|ctx: MiddlewareContext| {
        let text = format!(
            "{} {} {}",
            ctx.request.method.as_str(),
            ctx.request.path,
            ctx.request.body_as_string().unwrap()
        );
        let response = if ctx.request.path == "/nul" {
            ResponseContext::with_body(HttpStatus::OK, vec![b'a', 0])
        } else if ctx.request.path == "/bin" {
            ResponseContext::with_body(HttpStatus::OK, vec![0xff])
        } else {
            ResponseContext::with_text(HttpStatus::OK, &text)
        };
        (ctx, Ok(MiddlewareResult::Response(response)))
    }));
    let mut last = LastError::new();
    assert_eq!(
        execute_text(&chain, Some(b"post"), Some(b"/p"), Some(b"b"), &mut counters, &mut last),
        Some(b"POST /p b\0".to_vec())
    );
    assert_eq!(
        execute_text(&chain, Some(b"GET"), Some(b"/p"), None, &mut counters, &mut last),
        Some(b"GET /p \0".to_vec())
    );
    assert!(last.slot.is_none());
    assert_eq!(execute_text(&chain, None, Some(b"/p"), None, &mut counters, &mut last), None);
    assert!(matches!(last.slot, Some(HushError::NullPointer)));
    assert_eq!(execute_text(&chain, Some(b"GET"), None, None, &mut counters, &mut last), None);
    assert_eq!(execute_text(&chain, Some(&[0xff]), Some(b"/p"), None, &mut counters, &mut last), None);
    assert!(matches!(last.slot, Some(HushError::FFIError(_))));
    assert_eq!(execute_text(&chain, Some(b"GET"), Some(b"/p"), Some(&[0xff]), &mut counters, &mut last), None);
    assert_eq!(execute_text(&chain, Some(b"BREW"), Some(b"/p"), None, &mut counters, &mut last), None);
    assert!(matches!(last.slot, Some(HushError::InvalidInput(_))));
    assert_eq!(execute_text(&chain, Some(b"GET"), Some(b"/nul"), None, &mut counters, &mut last), None);
    assert!(matches!(&last.slot, Some(HushError::FFIError(m)) if m == "Failed to create C string"));
    assert_eq!(execute_text(&chain, Some(b"GET"), Some(b"/bin"), None, &mut counters, &mut last), None);
    assert!(matches!(last.slot, Some(HushError::InvalidInput(_))));
}

#[test]
fn texts_are_measured_and_compared_for_the_other_side() {
    let mut last = LastError::new();
    assert_eq!(string_length(Some("héllo".as_bytes()), &mut last), 6);
    assert_eq!(string_length(Some(b""), &mut last), 0);
    assert!(last.slot.is_none());
    assert_eq!(string_length(None, &mut last), -1);
    assert!(matches!(last.slot, Some(HushError::NullPointer)));
    assert_eq!(string_length(Some(&[0xff]), &mut last), -1);
    assert!(matches!(&last.slot, Some(HushError::FFIError(m)) if m == "Invalid UTF-8 string"));

    let mut last = LastError::new();
    let words = ["", "a", "ab", "abc", "abd", "b", "é", "z", "Z"];
    for x in words {
        for y in words {
            let expected = if x == y {
                0
            } else if x < y {
                -1
            } else {
                1
            };
            assert_eq!(order_of(x.as_bytes(), y.as_bytes()), expected, "{:?} and {:?}", x, y);
            assert_eq!(string_compare(Some(x.as_bytes()), Some(y.as_bytes()), &mut last), expected);
        }
    }
    assert!(last.slot.is_none());
    assert_eq!(string_compare(None, Some(b"a"), &mut last), -2);
    assert!(matches!(last.slot, Some(HushError::NullPointer)));
    assert_eq!(string_compare(Some(b"a"), Some(&[0xff]), &mut last), -2);
    assert!(matches!(&last.slot, Some(HushError::FFIError(m)) if m == "String comparison failed"));
}

#[test]
fn the_cors_chain_answers_a_preflight_for_a_caller_across_the_boundary() {
    let mut chain: MiddlewareChain<Stage<NoStage>> = MiddlewareChain::new();
    chain.add(CorsMiddleware::new("*".to_string()));
    let mut last = LastError::new();
    let mut counters = StringMap::new();
    assert_eq!(
        execute_text(&chain, Some(b"OPTIONS"), Some(b"/x"), None, &mut counters, &mut last),
        Some(vec![0])
    );
    assert!(last.slot.is_none());
    assert!(counters.is_empty());
}

#[test]
fn the_budget_holds_across_calls_from_the_other_side() {
    let mut chain: MiddlewareChain<Stage<NoStage>> = MiddlewareChain::new();
    chain.add(RateLimitMiddleware::new(2, 60));
    let mut last = LastError::new();
    let mut counters = StringMap::new();
    for _ in 0..2 {
        assert_eq!(
            execute_text(&chain, Some(b"GET"), Some(b"/x"), None, &mut counters, &mut last),
            Some(b"OK\0".to_vec())
        );
    }
    assert_eq!(counters.get("rate_limit_ip_default_count"), Some(&"2".to_string()));
    let third = execute_text(&chain, Some(b"GET"), Some(b"/x"), None, &mut counters, &mut last);
    assert_eq!(
        third,
        Some(
            b"{\"error\": \"Rate limit exceeded\", \"max_requests\": 2, \"window_seconds\": 60}\0"
                .to_vec()
        )
    );
    assert!(last.slot.is_none());
}

#[test]
fn a_handler_answers_as_its_function_does() {
    let h = RequestHandler::new(|context: &RequestContext| {
        if context.path == "/fail" {
            Err(HushError::TokenExpired)
        } else {
            let mut response = ResponseContext::with_text(HttpStatus::Created, &context.path);
            response.add_header("X".to_string(), "y".to_string());
            Ok(response)
        }
    });
    let asked = request(HttpMethod::GET, "/made");
    let response = h.handle(&asked).unwrap();
    assert_eq!(response.status, HttpStatus::Created);
    assert_eq!(response.body, b"/made".to_vec());
    assert_eq!(response.get_header("X"), Some(&"y".to_string()));
    assert_eq!(response.headers.len(), 1);
    assert_eq!(asked.path, "/made");
    assert!(matches!(h.handle(&request(HttpMethod::GET, "/fail")), Err(HushError::TokenExpired)));
}

#[test]
fn a_request_that_has_been_read_runs_as_its_texts_do() {
    let mut chain: MiddlewareChain<Stage<NoStage>> = MiddlewareChain::new();
    chain.add(CorsMiddleware::new("https://a.com".to_string()));
    chain.add(RateLimitMiddleware::new(1, 60));
    let mut last = LastError::new();
    let mut counters = StringMap::new();

    let mut allowed = RequestContext::new(HttpMethod::GET, "/x".to_string());
    allowed.add_header("Origin".to_string(), "https://a.com".to_string());
    assert_eq!(execute_request(&chain, allowed, &mut counters, &mut last), Some(b"OK\0".to_vec()));
    assert_eq!(counters.get("rate_limit_ip_default_count"), Some(&"1".to_string()));

    let mut refused = RequestContext::new(HttpMethod::GET, "/x".to_string());
    refused.add_header("Origin".to_string(), "https://b.com".to_string());
    assert_eq!(
        execute_request(&chain, refused, &mut counters, &mut last),
        Some(b"{\"error\": \"CORS: Origin not allowed\"}\0".to_vec())
    );
    assert_eq!(counters.len(), 1);

    let empty: MiddlewareChain<Stage<NoStage>> = MiddlewareChain::new();
    let request = RequestContext::new(HttpMethod::GET, "/x".to_string());
    assert_eq!(execute_request(&empty, request, &mut counters, &mut last), None);
    assert!(matches!(&last.slot, Some(HushError::InternalError(m)) if m == "No middlewares or handler defined"));
    assert_eq!(counters.len(), 1);
}
