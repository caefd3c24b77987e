use hush::error::HushError;
use hush::middleware::builtin::Stage;
use hush::middleware::chain::{Either, FunctionMiddleware, MiddlewareContext, MiddlewareResult, Outcome};
use hush::types::{HttpMethod, HttpStatus, RequestContext, ResponseContext};
use hush::web::handler::{Answer, FunctionHandler, RequestHandler};
use hush::web::server::{WebServer, WebServerConfig};

type StageFn = Box<dyn Fn(MiddlewareContext) -> (MiddlewareContext, Outcome) + Send + Sync>;
type HandlerFn = Box<dyn Fn(&RequestContext) -> Answer + Send + Sync>;
type Handlers = FunctionHandler<HandlerFn>;
type Server = WebServer<FunctionMiddleware<StageFn>, Handlers>;

fn stage(f: impl Fn(MiddlewareContext) -> (MiddlewareContext, Outcome) + Send + Sync + 'static) -> StageFn {
    Box::new(f)
}

fn handler(f: impl Fn(&RequestContext) -> Answer + Send + Sync + 'static) -> RequestHandler<Handlers> {
    let boxed: HandlerFn = Box::new(f);
    RequestHandler::new(boxed)
}

fn create_test_server() -> Server {
    let config = WebServerConfig {
        host: "127.0.0.1".to_string(),
        port: 0,
        max_connections: 100,
        keep_alive: 10,
        request_timeout: 10,
    };
    WebServer::new(config)
}

fn create_test_handler(response_text: &'static str) -> RequestHandler<Handlers> {
    handler(move |_context| Ok(ResponseContext::with_text(HttpStatus::OK, response_text)))
}

#[test]
fn test_demo_setup() {
    let config = WebServerConfig::default();
    let mut server: Server = WebServer::new(config);

    server.add_logger_middleware().unwrap();
    server.add_cors_middleware("*".to_string()).unwrap();

    let handler = handler(|_| Ok(ResponseContext::with_text(HttpStatus::OK, "Demo test")));
    server.add_route(HttpMethod::GET, "/demo", handler).unwrap();

    assert!(server.middleware_count() > 0);
}

#[test]
fn test_middleware_integration_basic() {
    let mut server = create_test_server();

    let handler = create_test_handler("Hello, World!");
    server.add_route(HttpMethod::GET, "/test", handler).unwrap();

    assert_eq!(server.middleware_count(), 0);

    server
        .add_middleware("test_middleware".to_string(), stage(|mut ctx: MiddlewareContext| {
            ctx.set_data("middleware_executed".to_string(), "true".to_string());
            (ctx, Ok(MiddlewareResult::Continue))
        }))
        .unwrap();

    assert_eq!(server.middleware_count(), 1);
}

#[test]
fn test_cors_middleware_integration() {
    let mut server = create_test_server();

    server.add_cors_middleware("*".to_string()).unwrap();

    let handler = create_test_handler("CORS test");
    server.add_route(HttpMethod::GET, "/cors-test", handler).unwrap();

    assert!(server.middleware_count() > 0);
}

#[test]
fn test_logger_middleware_integration() {
    let mut server = create_test_server();

    server.add_logger_middleware().unwrap();

    let handler = create_test_handler("Logger test");
    server.add_route(HttpMethod::GET, "/logger-test", handler).unwrap();

    assert!(server.middleware_count() > 0);
}

#[test]
fn test_auth_middleware_integration() {
    let mut server = create_test_server();

    server.add_auth_middleware("test_secret".to_string()).unwrap();

    let handler = create_test_handler("Auth test");
    server.add_route(HttpMethod::GET, "/auth-test", handler).unwrap();

    assert!(server.middleware_count() > 0);
}

#[test]
fn test_multiple_middleware_integration() {
    let mut server = create_test_server();

    server.add_logger_middleware().unwrap();
    server.add_cors_middleware("https://example.com".to_string()).unwrap();
    server.add_auth_middleware("secret_key".to_string()).unwrap();

    server
        .add_middleware("custom_middleware".to_string(), stage(|mut ctx: MiddlewareContext| {
            ctx.set_data("custom_data".to_string(), "processed".to_string());
            (ctx, Ok(MiddlewareResult::Continue))
        }))
        .unwrap();

    let handler = create_test_handler("Multiple middleware test");
    server.add_route(HttpMethod::GET, "/multi-test", handler).unwrap();

    assert_eq!(server.middleware_count(), 4);
}

#[test]
fn middleware_integration_tests_test_middleware_error_handling() {
    let mut server = create_test_server();

    server
        .add_middleware("error_middleware".to_string(), stage(|ctx: MiddlewareContext| {
            (
                ctx,
                Ok(MiddlewareResult::Error(HushError::InternalError("Test error".to_string()))),
            )
        }))
        .unwrap();

    let handler = create_test_handler("Error test");
    server.add_route(HttpMethod::GET, "/error-test", handler).unwrap();

    assert!(server.middleware_count() > 0);
}

#[test]
fn test_middleware_early_response() {
    let mut server = create_test_server();

    server
        .add_middleware("early_response_middleware".to_string(), stage(|ctx: MiddlewareContext| {
            let response = ResponseContext::with_json(
                HttpStatus::OK,
                r#"{"message": "Early response from middleware"}"#,
            );
            (ctx, Ok(MiddlewareResult::Response(response)))
        }))
        .unwrap();

    let handler = create_test_handler("This should not be reached");
    server.add_route(HttpMethod::GET, "/early-response-test", handler).unwrap();

    assert!(server.middleware_count() > 0);
}

#[test]
fn test_middleware_chain_execution_order() {
    let mut server = create_test_server();

    server
        .add_middleware("first_middleware".to_string(), stage(|mut ctx: MiddlewareContext| {
            ctx.set_data("execution_order".to_string(), "first".to_string());
            (ctx, Ok(MiddlewareResult::Continue))
        }))
        .unwrap();

    server
        .add_middleware("second_middleware".to_string(), stage(|mut ctx: MiddlewareContext| {
            let current = ctx.get_data("execution_order").unwrap_or(&"".to_string()).clone();
            ctx.set_data("execution_order".to_string(), format!("{},second", current));
            (ctx, Ok(MiddlewareResult::Continue))
        }))
        .unwrap();

    let handler = handler(|context| {
        let default_order = "".to_string();
        let execution_order = context.get_user_data("execution_order").unwrap_or(&default_order);
        let response_text = format!("Execution order: {}", execution_order);
        Ok(ResponseContext::with_text(HttpStatus::OK, &response_text))
    });
    server.add_route(HttpMethod::GET, "/order-test", handler).unwrap();

    assert_eq!(server.middleware_count(), 2);
}

#[test]
fn test_server_startup_with_middleware() {
    let mut server = create_test_server();

    server.add_logger_middleware().unwrap();
    server.add_cors_middleware("*".to_string()).unwrap();

    let handler = create_test_handler("Startup test");
    server.add_route(HttpMethod::GET, "/startup-test", handler).unwrap();

    let port = 18080;
    let result = server.start_with_port(port);

    assert!(result.is_ok());
    assert!(server.is_running());

    server.stop().unwrap();
}

#[test]
fn test_middleware_with_different_http_methods() {
    let mut server = create_test_server();

    server
        .add_middleware("method_logger".to_string(), stage(|ctx: MiddlewareContext| {
            println!("Processing {} request to {}", ctx.request.method.as_str(), ctx.request.path);
            (ctx, Ok(MiddlewareResult::Continue))
        }))
        .unwrap();

    server.add_route(HttpMethod::GET, "/method-test", create_test_handler("GET response")).unwrap();
    server.add_route(HttpMethod::POST, "/method-test", create_test_handler("POST response")).unwrap();
    server.add_route(HttpMethod::PUT, "/method-test", create_test_handler("PUT response")).unwrap();
    server
        .add_route(HttpMethod::DELETE, "/method-test", create_test_handler("DELETE response"))
        .unwrap();

    assert!(server.middleware_count() > 0);
}

#[test]
fn test_middleware_context_data_sharing() {
    let mut server = create_test_server();

    server
        .add_middleware("data_setter".to_string(), stage(|mut ctx: MiddlewareContext| {
            ctx.set_data("user_id".to_string(), "12345".to_string());
            ctx.set_data("session_id".to_string(), "abcdef".to_string());
            (ctx, Ok(MiddlewareResult::Continue))
        }))
        .unwrap();

    server
        .add_middleware("data_reader".to_string(), stage(|mut ctx: MiddlewareContext| {
            let user_id = ctx.get_data("user_id").cloned().unwrap_or_default();
            let session_id = ctx.get_data("session_id").cloned().unwrap_or_default();
            ctx.set_data(
                "combined_data".to_string(),
                format!("user:{},session:{}", user_id, session_id),
            );
            (ctx, Ok(MiddlewareResult::Continue))
        }))
        .unwrap();

    let handler = handler(|context| {
        let default_data = "no_data".to_string();
        let combined_data = context.get_user_data("combined_data").unwrap_or(&default_data);
        Ok(ResponseContext::with_text(HttpStatus::OK, combined_data))
    });
    server.add_route(HttpMethod::GET, "/data-test", handler).unwrap();

    assert_eq!(server.middleware_count(), 2);
}

#[test]
fn test_end_to_end_middleware_chain() {
    let port = 18081;
    let mut server = create_test_server();

    server.add_logger_middleware().unwrap();
    server.add_cors_middleware("*".to_string()).unwrap();
    server
        .add_middleware("request_counter".to_string(), stage(|mut ctx: MiddlewareContext| {
            ctx.set_data("processed_by_counter".to_string(), "true".to_string());
            (ctx, Ok(MiddlewareResult::Continue))
        }))
        .unwrap();

    let handler = handler(|context| {
        let processed = context.get_user_data("processed_by_counter").map(|s| s.as_str()).unwrap_or("false");
        let response_text = format!("Hello! Processed by counter: {}", processed);
        Ok(ResponseContext::with_text(HttpStatus::OK, &response_text))
    });
    server.add_route(HttpMethod::GET, "/test", handler).unwrap();

    let start_result = server.start_with_port(port);
    assert!(start_result.is_ok(), "Server should start successfully");
    assert!(server.is_running(), "Server should be running");
    assert!(server.middleware_count() > 3, "Should have multiple middleware");

    server.stop().unwrap();
}

#[test]
fn test_middleware_crash_recovery() {
    let port = 18087;
    let mut server = create_test_server();

    server
        .add_middleware("crash_test".to_string(), stage(|ctx: MiddlewareContext| {
            (
                ctx,
                Ok(MiddlewareResult::Error(HushError::InternalError("Simulated crash".to_string()))),
            )
        }))
        .unwrap();

    let handler = create_test_handler("Should not reach here");
    server.add_route(HttpMethod::GET, "/crash-test", handler).unwrap();

    let start_result = server.start_with_port(port);
    assert!(start_result.is_ok(), "Server should start successfully even with problematic middleware");
    assert!(server.is_running(), "Server should still be running after middleware error");

    server.stop().unwrap();
}

#[test]
fn test_middleware_error_handling_end_to_end() {
    let port = 18082;
    let mut server = create_test_server();

    server
        .add_middleware("error_middleware".to_string(), stage(|ctx: MiddlewareContext| {
            (
                ctx,
                Ok(MiddlewareResult::Error(HushError::InternalError(
                    "Middleware error test".to_string(),
                ))),
            )
        }))
        .unwrap();

    let handler = create_test_handler("This should not be reached");
    server.add_route(HttpMethod::GET, "/error-test", handler).unwrap();

    let start_result = server.start_with_port(port);
    assert!(start_result.is_ok(), "Server should start successfully");
    assert!(server.is_running(), "Server should be running");

    server.stop().unwrap();
}

#[test]
fn test_middleware_early_response_end_to_end() {
    let port = 18083;
    let mut server = create_test_server();

    server
        .add_middleware("early_response".to_string(), stage(|ctx: MiddlewareContext| {
            let response = ResponseContext::with_json(
                HttpStatus::OK,
                r#"{"message": "Early response from middleware", "source": "middleware"}"#,
            );
            (ctx, Ok(MiddlewareResult::Response(response)))
        }))
        .unwrap();

    let handler = create_test_handler("This should not be reached");
    server.add_route(HttpMethod::GET, "/early-test", handler).unwrap();

    let start_result = server.start_with_port(port);
    assert!(start_result.is_ok(), "Server should start successfully");
    assert!(server.is_running(), "Server should be running");

    server.stop().unwrap();
}

#[test]
fn test_cors_middleware_end_to_end() {
    let port = 18084;
    let mut server = create_test_server();

    server.add_cors_middleware("https://example.com".to_string()).unwrap();

    let handler = create_test_handler("CORS test response");
    server.add_route(HttpMethod::GET, "/cors", handler).unwrap();

    let options_handler = create_test_handler("OPTIONS response");
    server.add_route(HttpMethod::OPTIONS, "/cors", options_handler).unwrap();

    let start_result = server.start_with_port(port);
    assert!(start_result.is_ok(), "Server should start successfully");
    assert!(server.is_running(), "Server should be running");

    server.stop().unwrap();
}

#[test]
fn test_auth_middleware_end_to_end() {
    let port = 18085;
    let mut server = create_test_server();

    server.add_auth_middleware("test_secret_key".to_string()).unwrap();

    let protected_handler = create_test_handler("Protected resource");
    server.add_route(HttpMethod::GET, "/protected", protected_handler).unwrap();

    let health_handler = create_test_handler("OK");
    server.add_route(HttpMethod::GET, "/health", health_handler).unwrap();

    let start_result = server.start_with_port(port);
    assert!(start_result.is_ok(), "Server should start successfully");
    assert!(server.is_running(), "Server should be running");

    server.stop().unwrap();
}

struct ResponseHeaders;

impl hush::middleware::chain::Middleware for ResponseHeaders {
    fn name(&self) -> &str {
        "response_headers"
    }

    fn priority(&self) -> i32 {
        100
    }

    fn before(&self, _context: &mut MiddlewareContext) -> hush::middleware::chain::Outcome {
        Ok(MiddlewareResult::Continue)
    }

    fn after(
        &self,
        context: &mut MiddlewareContext,
        inner: hush::middleware::chain::Outcome,
    ) -> hush::middleware::chain::Outcome {
        match inner? {
            MiddlewareResult::Response(mut response) => {
                response.add_header("X-Powered-By".to_string(), "Hush Framework".to_string());
                if let Some(request_id) = context.get_data("request_id") {
                    response.add_header("X-Request-ID".to_string(), request_id.clone());
                }
                Ok(MiddlewareResult::Response(response))
            }
            other => Ok(other),
        }
    }
}

#[test]
fn test_complex_middleware_chain_end_to_end() {
    let port = 18086;
    let config = WebServerConfig::default();
    let mut server: WebServer<Either<FunctionMiddleware<StageFn>, ResponseHeaders>, Handlers> =
        WebServer::new(config);

    server.add_logger_middleware().unwrap();
    server.add_cors_middleware("*".to_string()).unwrap();

    server
        .add_stage(Stage::Other(Either::Left(FunctionMiddleware::new(
            "request_id".to_string(),
            stage(|mut ctx: MiddlewareContext| {
                let request_id = format!("req_{}", hush::types::unix_millis());
                ctx.set_data("request_id".to_string(), request_id);
                (ctx, Ok(MiddlewareResult::Continue))
            }),
        ))))
        .unwrap();

    server
        .add_stage(Stage::Other(Either::Left(FunctionMiddleware::new(
            "performance".to_string(),
            stage(|ctx: MiddlewareContext| (ctx, Ok(MiddlewareResult::Continue))),
        ))))
        .unwrap();

    server.add_stage(Stage::Other(Either::Right(ResponseHeaders))).unwrap();

    let handler = handler(|context| {
        let default_id = "unknown".to_string();
        let request_id = context.get_user_data("request_id").unwrap_or(&default_id);
        let response_text = format!("Complex middleware test - Request ID: {}", request_id);
        Ok(ResponseContext::with_text(HttpStatus::OK, &response_text))
    });
    server.add_route(HttpMethod::GET, "/complex", handler).unwrap();

    let start_result = server.start_with_port(port);
    assert!(start_result.is_ok(), "Server should start successfully");
    assert!(server.is_running(), "Server should be running");

    println!("Total middleware count: {}", server.middleware_count());
    assert!(server.middleware_count() >= 5, "Should have at least 5 middleware");

    server.stop().unwrap();
}

#[test]
fn the_default_server_has_the_default_configuration() {
    let server: Server = WebServer::with_default_config();
    let config = server.config();
    assert_eq!(config.host, "127.0.0.1");
    assert_eq!(config.port, 8080);
    assert_eq!(config.max_connections, 1000);
    assert_eq!(config.keep_alive, 30);
    assert_eq!(config.request_timeout, 30);
    assert!(!server.is_running());
    assert_eq!(server.middleware_count(), 0);
}
