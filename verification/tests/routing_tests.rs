use ukiapi::json::JsonValue;
use ukiapi::openapi::{fix_refs_string, process_openapi_schema};
use ukiapi::routing::{APIRouter, Method, Mount, Routable, Route, RustAPI};

fn s(x: &str) -> JsonValue {
    JsonValue::Str(x.to_string())
}

fn obj(members: Vec<(&str, JsonValue)>) -> JsonValue {
    JsonValue::Object(members.into_iter().map(|(k, v)| (k.to_string(), v)).collect())
}

fn get<'a>(v: &'a JsonValue, k: &str) -> Option<&'a JsonValue> {
    match v {
        JsonValue::Object(es) => es.iter().find(|(n, _)| n == k).map(|(_, v)| v),
        _ => None,
    }
}

fn keys(v: &JsonValue) -> Vec<String> {
    match v {
        JsonValue::Object(es) => es.iter().map(|(k, _)| k.clone()).collect(),
        _ => vec![],
    }
}

#[test]
fn method_names() {
    assert_eq!(Method::Get.as_str(), "GET");
    assert_eq!(Method::Patch.to_lowercase(), "patch");
    assert_eq!(Method::Delete.to_lowercase(), "delete");
}

#[test]
fn router_prefixes_and_tags_routes() {
    let users = APIRouter::new()
        .prefix("/users")
        .tag("users")
        .route(Routable::Route(Route::get("/{id}", 1u8).tag("read")))
        .route(Routable::Route(Route::post("", 2u8)));
    let api = APIRouter::new().prefix("/api").tag("v1").route(Routable::Router(users));
    let paths: Vec<&str> = api.routes.iter().map(|r| r.path.as_str()).collect();
    assert_eq!(paths, vec!["/api/users/{id}", "/api/users"]);
    assert_eq!(api.routes[0].tags, vec!["read", "users", "v1"]);
    assert_eq!(api.routes[1].tags, vec!["users", "v1"]);
    assert_eq!(api.routes[1].handler, 2u8);
}

#[test]
fn mounts_take_prefixes() {
    let inner = APIRouter::<u8>::new().prefix("/static").mount("/img", "./img");
    let outer = APIRouter::new().prefix("/site").route(Routable::Router(inner));
    assert_eq!(outer.mounts[0].path, "/site/static/img");
    assert_eq!(outer.mounts[0].directory, "./img");
    let app = RustAPI::<u8>::new().mount("/files", "./files").route(Routable::Mount(Mount::new("/a", "./a")));
    assert_eq!(app.mounts.len(), 2);
}

#[test]
fn app_defaults() {
    let app = RustAPI::<u8>::new();
    assert_eq!(app.title, "RustAPI");
    assert_eq!(app.version, "0.1.0");
    let app = app.title("Shop").version("2.1.0");
    assert_eq!((app.title.as_str(), app.version.as_str()), ("Shop", "2.1.0"));
}

#[test]
fn document_lists_every_route() {
    let schema = obj(vec![
        ("type", s("object")),
        ("definitions", obj(vec![("Item", obj(vec![("type", s("object"))]))])),
        ("properties", obj(vec![("item", obj(vec![("$ref", s("#/definitions/Item"))]))])),
    ]);
    let app = RustAPI::new()
        .title("Shop")
        .version("1.0.0")
        .route(Routable::Route(Route::get("/items", 0u8).with_response_schema(schema).tag("items")))
        .route(Routable::Route(Route::post("/items", 1u8)))
        .route(Routable::Route(Route::delete("/items/{id}", 2u8)));
    let doc = app.openapi_json();
    assert_eq!(get(&doc, "openapi"), Some(&s("3.0.0")));
    let info = get(&doc, "info").unwrap();
    assert_eq!(get(info, "title"), Some(&s("Shop")));
    let paths = get(&doc, "paths").unwrap();
    assert_eq!(keys(paths), vec!["/items", "/items/{id}"]);
    assert_eq!(keys(get(paths, "/items").unwrap()), vec!["get", "post"]);
    let op = get(get(paths, "/items").unwrap(), "get").unwrap();
    assert_eq!(get(op, "tags"), Some(&JsonValue::Array(vec![s("items")])));
    let comps = get(get(&doc, "components").unwrap(), "schemas").unwrap();
    assert_eq!(keys(comps), vec!["Item"]);
    let content = get(get(get(op, "responses").unwrap(), "200").unwrap(), "content").unwrap();
    let sch = get(get(content, "application/json").unwrap(), "schema").unwrap();
    let r = get(get(get(sch, "properties").unwrap(), "item").unwrap(), "$ref").unwrap();
    assert_eq!(r, &s("#/components/schemas/Item"));
    assert!(get(sch, "definitions").is_none());
}

#[test]
fn later_route_replaces_earlier_on_same_path_and_method() {
    let app = RustAPI::new()
        .route(Routable::Route(Route::get("/x", 0u8).tag("first")))
        .route(Routable::Route(Route::get("/x", 1u8).tag("second")));
    let doc = app.openapi_json();
    let op = get(get(get(&doc, "paths").unwrap(), "/x").unwrap(), "get").unwrap();
    assert_eq!(get(op, "tags"), Some(&JsonValue::Array(vec![s("second")])));
}

#[test]
fn definitions_move_to_components() {
    let schema = obj(vec![
        ("title", s("Outer")),
        ("definitions", obj(vec![("A", s("x")), ("B", s("y"))])),
    ]);
    let mut comps = vec![];
    let out = process_openapi_schema(&schema, &mut comps);
    assert_eq!(out, obj(vec![("title", s("Outer"))]));
    assert_eq!(comps, vec![("A".to_string(), s("x")), ("B".to_string(), s("y"))]);
}

#[test]
fn refs_are_rewritten() {
    assert_eq!(
        fix_refs_string(&"#/definitions/A and #/definitions/B".to_string()),
        "#/components/schemas/A and #/components/schemas/B"
    );
}
