use hush::types::{HttpMethod, HttpStatus, RequestContext, ResponseContext};
use hush::web::handler::{Answer, FunctionHandler, RequestHandler};
use hush::web::router::{RouteMatcher, Router};

type HandlerFn = Box<dyn Fn(&RequestContext) -> Answer + Send + Sync>;

fn handler(f: impl Fn(&RequestContext) -> Answer + Send + Sync + 'static) -> RequestHandler<FunctionHandler<HandlerFn>> {
    let boxed: HandlerFn = Box::new(f);
    RequestHandler::new(boxed)
}

#[test]
fn test_route_matcher() {
    let matcher = RouteMatcher::new("/users/:id/posts/:post_id");

    let params = matcher.matches("/users/123/posts/456").unwrap();
    assert_eq!(params.get("id"), Some(&"123".to_string()));
    assert_eq!(params.get("post_id"), Some(&"456".to_string()));

    assert!(matcher.matches("/users/123").is_none());
    assert!(matcher.matches("/users/123/posts").is_none());
    assert!(matcher.matches("/posts/123/users/456").is_none());
}

#[test]
fn test_router_basic_operations() {
    let mut router = Router::new();

    let handler1 = handler(|_| Ok(ResponseContext::with_text(HttpStatus::OK, "test")));

    assert!(router.add_route(HttpMethod::GET, "/test".to_string(), handler1).is_ok());
    assert_eq!(router.route_count(), 1);
    assert!(router.has_route(HttpMethod::GET, "/test"));

    let handler2 = handler(|_| Ok(ResponseContext::with_text(HttpStatus::OK, "test2")));
    assert!(router.add_route(HttpMethod::GET, "/test".to_string(), handler2).is_err());

    assert!(router.remove_route(HttpMethod::GET, "/test").is_ok());
    assert_eq!(router.route_count(), 0);
    assert!(!router.has_route(HttpMethod::GET, "/test"));
}
