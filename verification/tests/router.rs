use rinf_router::router::{IntoRoute, Router};

#[derive(Clone, Debug, PartialEq)]
struct Named(&'static str);

impl IntoRoute<u32, String> for Named {
    fn into_route(self, state: u32) -> String {
        format!("{}:{}", self.0, state)
    }
}

impl IntoRoute<(), String> for Named {
    fn into_route(self, _state: ()) -> String {
        format!("{}:unit", self.0)
    }
}

impl IntoRoute<String, String> for Named {
    fn into_route(self, state: String) -> String {
        format!("{}:{}", self.0, state)
    }
}

#[test]
fn empty_router_starts_nothing() {
    let router: Router<(), Named, String> = Router::new();
    assert!(router.into_routes().is_empty());
}

#[test]
fn routes_start_in_registration_order() {
    let router: Router<(), Named, String> = Router::new().route(Named("a")).route(Named("b"));
    assert_eq!(router.into_routes(), vec!["a:unit".to_string(), "b:unit".to_string()]);
}

#[test]
fn with_state_seals_waiting_routes() {
    let router: Router<(), Named, String> = Router::<u32, Named, String>::new()
        .route(Named("a"))
        .route(Named("b"))
        .with_state(7);
    assert_eq!(router.into_routes(), vec!["a:7".to_string(), "b:7".to_string()]);
}

#[test]
fn later_state_keeps_earlier_routes() {
    let router: Router<(), Named, String> = Router::<u32, Named, String>::new()
        .route(Named("first"))
        .with_state::<String, Named>(1)
        .route(Named("second"))
        .with_state("state".to_string())
        .route(Named("third"));
    assert_eq!(
        router.into_routes(),
        vec!["first:1".to_string(), "second:state".to_string(), "third:unit".to_string()]
    );
}
