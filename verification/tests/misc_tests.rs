use ukiapi::ws::{echo_step, WsAction, WsEvent};
use ukiapi::docs::{build_redoc_page, build_swagger_page};
use ukiapi::extractors::{json_body_outcome, json_rejection, query_outcome, query_rejection, validation_rejection};
use ukiapi::health::HealthInfo;
use ukiapi::json::JsonValue;
use ukiapi::models::{ListItemsQuery, TokenResponse, UserClaims};
use ukiapi::perf::{eq_ignore_ascii_case, method_as_bytes_eq, method_to_lowercase};
use ukiapi::route_plan::{plan_route, Registration, TypeShape};
use ukiapi::status::{is_client_error, is_redirection, is_server_error, status_text};

fn get<'a>(v: &'a JsonValue, k: &str) -> Option<&'a JsonValue> {
    match v {
        JsonValue::Object(es) => es.iter().find(|(n, _)| n == k).map(|(_, v)| v),
        _ => None,
    }
}

fn shape(name: &str, arg: Option<&str>) -> Option<TypeShape> {
    Some(TypeShape { name: name.to_string(), first_type_arg: arg.map(|a| a.to_string()) })
}

#[test]
fn test_health_handler_returns_ok() {
    let body = HealthInfo::new().body(0);
    assert_eq!(get(&body, "status"), Some(&JsonValue::Str("ok".to_string())));
}

#[test]
fn test_health_handler_has_title() {
    let body = HealthInfo::new().body(0);
    assert!(matches!(get(&body, "title"), Some(JsonValue::Str(_))));
}

#[test]
fn test_health_handler_has_version() {
    let body = HealthInfo::new().body(0);
    assert!(matches!(get(&body, "version"), Some(JsonValue::Str(_))));
}

#[test]
fn test_health_handler_has_uptime() {
    let body = HealthInfo::new().body(12);
    assert_eq!(get(&body, "uptime_seconds"), Some(&JsonValue::Number("12".to_string())));
}

#[test]
fn test_health_handler_json_structure() {
    let body = HealthInfo::new().body(5);
    assert!(get(&body, "status").is_some());
    assert!(get(&body, "title").is_some());
    assert!(get(&body, "version").is_some());
    assert!(get(&body, "uptime_seconds").is_some());
}

#[test]
fn health_defaults_and_first_start_wins() {
    let mut h = HealthInfo::new();
    let body = h.body(1);
    assert_eq!(get(&body, "title"), Some(&JsonValue::Str("Ukidama".to_string())));
    assert_eq!(get(&body, "version"), Some(&JsonValue::Str("0.0.0".to_string())));
    h.init("Shop", "1.0.0");
    h.init("Other", "9.9.9");
    let body = h.body(1);
    assert_eq!(get(&body, "title"), Some(&JsonValue::Str("Shop".to_string())));
    assert_eq!(get(&body, "version"), Some(&JsonValue::Str("1.0.0".to_string())));
}

#[test]
fn rejections() {
    let (code, body) = query_rejection("missing field `name`");
    assert_eq!(code, 422);
    assert_eq!(
        get(&body, "detail"),
        Some(&JsonValue::Str("Invalid query parameters: missing field `name`".to_string()))
    );
    assert_eq!(get(&body, "errors"), Some(&JsonValue::Null));
    let (code, body) = json_rejection("EOF");
    assert_eq!(code, 422);
    assert_eq!(get(&body, "detail"), Some(&JsonValue::Str("Invalid JSON: EOF".to_string())));
    let (_, body) = validation_rejection("name: too short");
    assert_eq!(get(&body, "detail"), Some(&JsonValue::Str("Validation failed: name: too short".to_string())));
}

#[test]
fn docs_pages() {
    let swagger = build_swagger_page();
    assert!(swagger.starts_with("<!DOCTYPE html>"));
    assert!(swagger.contains("url: '/openapi.json'"));
    assert!(swagger.contains("RustAPI — Swagger UI"));
    let redoc = build_redoc_page();
    assert!(redoc.contains("<redoc spec-url='/openapi.json'></redoc>"));
}

#[test]
fn item_query_validation() {
    let q = |limit| ListItemsQuery { q: None, limit };
    assert!(q(None).validate());
    assert!(q(Some(1)).validate());
    assert!(q(Some(100)).validate());
    assert!(!q(Some(0)).validate());
    assert!(!q(Some(101)).validate());
    assert_eq!(q(None).page_size(), 10);
    assert_eq!(q(Some(7)).page_size(), 7);
}

#[test]
fn tokens_and_claims() {
    let t = TokenResponse::bearer("abc".to_string());
    assert_eq!(t.token_type, "Bearer");
    let c = UserClaims::issued("alice".to_string(), 1_700_000_000);
    assert_eq!(c.exp, 1_700_003_600);
}

#[test]
fn method_recognition() {
    assert_eq!(method_to_lowercase(), "get");
    assert!(method_as_bytes_eq());
    assert!(eq_ignore_ascii_case("Content-Type", "content-TYPE"));
    assert!(!eq_ignore_ascii_case("abc", "abd"));
    assert!(!eq_ignore_ascii_case("ab", "abc"));
}

#[test]
fn route_plans() {
    let params = vec![
        shape("State", Some("AppState")),
        None,
        shape("ValidatedJson", Some("ItemCreate")),
        shape("Query", Some("ListItemsQuery")),
        shape("Json", Some("Other")),
    ];
    let plan = plan_route("create_item", &params, &shape("Json", Some("ItemResponse")), Some("ItemsRoute"));
    assert_eq!(plan.route_fn, "create_item_route");
    assert_eq!(plan.state_type, "AppState");
    assert_eq!(plan.request_schema, Some("ItemCreate".to_string()));
    assert_eq!(plan.query_schema, Some("ListItemsQuery".to_string()));
    assert_eq!(plan.response_schema, Some("ItemResponse".to_string()));
    assert!(matches!(plan.registration, Registration::Stateful(ref r) if r == "ItemsRoute"));

    let plan = plan_route("hello", &vec![], &shape("str", None), None);
    assert_eq!(plan.state_type, "()");
    assert_eq!(plan.request_schema, None);
    assert_eq!(plan.response_schema, None);
    assert!(matches!(plan.registration, Registration::Default));

    let plan = plan_route("me", &vec![shape("State", Some("S"))], &shape("Result", Some("Json<T>")), None);
    assert!(matches!(plan.registration, Registration::Unregistered));
    assert_eq!(plan.response_schema, None);

    let plan = plan_route("login", &vec![shape("Json", None), shape("Json", Some("Login"))], &None, Some("AuthRoute"));
    assert_eq!(plan.request_schema, Some("Login".to_string()));
    assert!(matches!(plan.registration, Registration::Stateless(ref r) if r == "AuthRoute"));
}

#[test]
fn status_classes_and_text() {
    assert!(is_server_error(500) && is_server_error(599) && !is_server_error(600));
    assert!(is_client_error(404) && !is_client_error(500));
    assert!(is_redirection(307) && !is_redirection(200));
    assert_eq!(status_text(201), "201 Created");
    assert_eq!(status_text(999), "999 <unknown status code>");
}

#[test]
fn websocket_echo_steps() {
    assert!(matches!(echo_step(WsEvent::Text("hi".to_string())), WsAction::SendText(ref t) if t == "hi"));
    assert!(matches!(echo_step(WsEvent::Binary(vec![1, 2])), WsAction::SendBinary(ref b) if b == &vec![1, 2]));
    assert!(matches!(echo_step(WsEvent::Other), WsAction::Wait));
    assert!(matches!(echo_step(WsEvent::Close), WsAction::Stop));
    assert!(matches!(echo_step(WsEvent::Ended), WsAction::Stop));
}

#[test]
fn extraction_outcomes() {
    use_outcomes();
}

fn use_outcomes() {
    let ok: Result<(), String> = Ok(());
    assert!(query_outcome(ok.clone(), ok.clone()).is_ok());
    let (code, body) = query_outcome(Err("bad".to_string()), Err("ignored".to_string())).unwrap_err();
    assert_eq!(code, 422);
    assert_eq!(get(&body, "detail"), Some(&JsonValue::Str("Invalid query parameters: bad".to_string())));
    let (_, body) = query_outcome(ok.clone(), Err("page: range".to_string())).unwrap_err();
    assert_eq!(get(&body, "detail"), Some(&JsonValue::Str("Validation failed: page: range".to_string())));
    let (_, body) = json_body_outcome(Err("EOF".to_string()), ok.clone()).unwrap_err();
    assert_eq!(get(&body, "detail"), Some(&JsonValue::Str("Invalid JSON: EOF".to_string())));
    assert!(json_body_outcome(ok.clone(), ok).is_ok());
}
