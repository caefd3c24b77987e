use hush::middleware::builtin::{AuthMiddleware, CorsMiddleware, LoggerMiddleware, RateLimitMiddleware};
use hush::middleware::chain::{process, Middleware, MiddlewareContext, MiddlewareResult};
use hush::types::{HttpMethod, HttpStatus, RequestContext, ResponseContext};

#[test]
fn test_cors_middleware() {
    let middleware = CorsMiddleware::new("*".to_string());
    assert_eq!(middleware.name(), "cors");
    assert_eq!(middleware.priority(), 10);

    let mut request = RequestContext::new(HttpMethod::OPTIONS, "/test".to_string());
    request.add_header("Origin".to_string(), "https://example.com".to_string());
    let mut context = MiddlewareContext::new(request);

    let next = |ctx: MiddlewareContext| (ctx, Ok(MiddlewareResult::Continue));

    let result = process(&middleware, &mut context, next).unwrap();
    match result {
        MiddlewareResult::Response(response) => {
            assert_eq!(response.status.as_u16(), 204);
            assert!(response.headers.contains_key("Access-Control-Allow-Origin"));
            assert!(response.headers.contains_key("Access-Control-Allow-Methods"));
            assert!(response.headers.contains_key("Access-Control-Allow-Headers"));
            assert!(response.headers.contains_key("Access-Control-Max-Age"));
        }
        _ => panic!("Expected response for OPTIONS request"),
    }
}

#[test]
fn test_cors_middleware_origin_validation() {
    let middleware = CorsMiddleware::new("https://allowed.com".to_string());

    let mut request = RequestContext::new(HttpMethod::GET, "/test".to_string());
    request.add_header("Origin".to_string(), "https://notallowed.com".to_string());
    let mut context = MiddlewareContext::new(request);

    let next = |ctx: MiddlewareContext| (ctx, Ok(MiddlewareResult::Continue));

    let result = process(&middleware, &mut context, next).unwrap();
    match result {
        MiddlewareResult::Response(response) => {
            assert_eq!(response.status.as_u16(), 403);
        }
        _ => panic!("Expected forbidden response for disallowed origin"),
    }
}

#[test]
fn test_logger_middleware() {
    let middleware = LoggerMiddleware::new();
    assert_eq!(middleware.name(), "logger");
    assert_eq!(middleware.priority(), 5);

    let request = RequestContext::new(HttpMethod::GET, "/test".to_string());
    let mut context = MiddlewareContext::new(request);

    let next = |ctx: MiddlewareContext| (ctx, Ok(MiddlewareResult::Continue));

    let result = process(&middleware, &mut context, next).unwrap();
    match result {
        MiddlewareResult::Continue => {}
        _ => panic!("Logger middleware should continue"),
    }
}

#[test]
fn test_auth_middleware() {
    let middleware = AuthMiddleware::new("secret".to_string());
    assert_eq!(middleware.name(), "auth_jwt");
    assert_eq!(middleware.priority(), 20);

    let request = RequestContext::new(HttpMethod::GET, "/health".to_string());
    let mut context = MiddlewareContext::new(request);

    let next = |ctx: MiddlewareContext| (ctx, Ok(MiddlewareResult::Continue));

    let result = process(&middleware, &mut context, next).unwrap();
    match result {
        MiddlewareResult::Continue => {}
        _ => panic!("Health check should skip auth"),
    }

    let request = RequestContext::new(HttpMethod::GET, "/protected".to_string());
    let mut context = MiddlewareContext::new(request);

    let next = |ctx: MiddlewareContext| (ctx, Ok(MiddlewareResult::Continue));

    let result = process(&middleware, &mut context, next).unwrap();
    match result {
        MiddlewareResult::Response(response) => {
            assert_eq!(response.status.as_u16(), 401);
        }
        _ => panic!("Should return unauthorized for missing token"),
    }
}

#[test]
fn test_rate_limit_middleware() {
    let middleware = RateLimitMiddleware::new(2, 60);
    assert_eq!(middleware.name(), "rate_limit");
    assert_eq!(middleware.priority(), 15);

    let request = RequestContext::new(HttpMethod::GET, "/test".to_string());
    let mut context = MiddlewareContext::new(request);

    let next = |ctx: MiddlewareContext| (ctx, Ok(MiddlewareResult::Continue));

    let result = process(&middleware, &mut context, next).unwrap();
    match result {
        MiddlewareResult::Continue => {}
        _ => panic!("First request should continue"),
    }

    let result = process(&middleware, &mut context, next).unwrap();
    match result {
        MiddlewareResult::Continue => {}
        _ => panic!("Second request should continue"),
    }

    let result = process(&middleware, &mut context, next).unwrap();
    match result {
        MiddlewareResult::Response(response) => {
            assert_eq!(response.status.as_u16(), 429);
            assert!(response.headers.contains_key("X-RateLimit-Limit"));
            assert!(response.headers.contains_key("Retry-After"));
        }
        _ => panic!("Third request should be rate limited"),
    }
}

#[test]
fn test_rate_limit_by_user_middleware() {
    let middleware = RateLimitMiddleware::by_user_id();
    assert_eq!(middleware.name(), "rate_limit");

    let request = RequestContext::new(HttpMethod::GET, "/test".to_string());
    let mut context = MiddlewareContext::new(request);

    context.set_data("user_id".to_string(), "user123".to_string());

    let next = |ctx: MiddlewareContext| (ctx, Ok(MiddlewareResult::Continue));

    let result = process(&middleware, &mut context, next).unwrap();
    match result {
        MiddlewareResult::Continue => {}
        _ => panic!("User rate limit should continue for first request"),
    }
}

#[test]
fn builtin_test_logger_middleware_detailed() {
    let middleware = LoggerMiddleware::detailed();
    assert_eq!(middleware.name(), "logger");
    assert_eq!(middleware.priority(), 5);

    let mut request = RequestContext::new(HttpMethod::POST, "/api/test".to_string());
    request.add_header("Content-Type".to_string(), "application/json".to_string());
    request.set_body(r#"{"test": "data"}"#.as_bytes().to_vec());

    let mut context = MiddlewareContext::new(request);

    let next = |ctx: MiddlewareContext| {
        (
            ctx,
            Ok(MiddlewareResult::Response(ResponseContext::with_json(
                HttpStatus::OK,
                r#"{"result": "success"}"#,
            ))),
        )
    };

    let result = process(&middleware, &mut context, next).unwrap();
    match result {
        MiddlewareResult::Response(response) => {
            assert_eq!(response.status.as_u16(), 200);
        }
        _ => panic!("Logger middleware should return response"),
    }
}
