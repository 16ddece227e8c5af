use ukiapi::cli::{
    app_bins, banner_lines, bind_address, build_env, cargo_args, choose_bin, complete_manifest,
    detect_bin, startup_lines, NEW_PROJECT_DEPENDENCIES,
};
use ukiapi::text::contains_str;
use ukiapi::cli::{bin_from_metadata, BinError};
use ukiapi::json::{parse_json, JsonValue};

fn s(x: &str) -> JsonValue {
    JsonValue::Str(x.to_string())
}

fn obj(members: Vec<(&str, JsonValue)>) -> JsonValue {
    JsonValue::Object(members.into_iter().map(|(k, v)| (k.to_string(), v)).collect())
}

fn target(name: &str, kinds: &[&str]) -> JsonValue {
    obj(vec![
        ("kind", JsonValue::Array(kinds.iter().map(|k| s(k)).collect())),
        ("name", s(name)),
    ])
}

fn metadata(packages: Vec<Vec<JsonValue>>) -> JsonValue {
    obj(vec![(
        "packages",
        JsonValue::Array(
            packages
                .into_iter()
                .map(|ts| obj(vec![("name", s("p")), ("targets", JsonValue::Array(ts))]))
                .collect(),
        ),
    )])
}

fn strings(v: &[&str]) -> Vec<String> {
    v.iter().map(|x| x.to_string()).collect()
}

#[test]
fn environment_for_the_app() {
    assert_eq!(
        build_env("0.0.0.0", 8080, 0),
        vec![
            ("RUSTAPI_HOST".to_string(), "0.0.0.0".to_string()),
            ("RUSTAPI_PORT".to_string(), "8080".to_string())
        ]
    );
    let env = build_env("127.0.0.1", 3000, 4);
    assert_eq!(env.len(), 3);
    assert_eq!(env[2], ("TOKIO_WORKER_THREADS".to_string(), "4".to_string()));
}

#[test]
fn binaries_found_in_metadata() {
    let m = metadata(vec![
        vec![target("mylib", &["lib"]), target("server", &["bin"]), target("rustapi", &["bin"])],
        vec![target("rustapi-new", &["bin"]), target("tool", &["bin", "test"])],
    ]);
    assert_eq!(app_bins(&m), strings(&["server", "tool"]));
}

#[test]
fn binary_choice() {
    assert_eq!(choose_bin(&strings(&[]), "x"), None);
    assert_eq!(choose_bin(&strings(&["only"]), "x"), Some("only".to_string()));
    assert_eq!(choose_bin(&strings(&["a", "myapp", "example"]), "myapp"), Some("myapp".to_string()));
    assert_eq!(choose_bin(&strings(&["a", "example"]), "myapp"), Some("example".to_string()));
    assert_eq!(choose_bin(&strings(&["b", "a"]), "myapp"), Some("b".to_string()));
}

#[test]
fn detect_bin_reads_metadata() {
    let m = metadata(vec![vec![target("rustapi", &["bin"]), target("example", &["bin"]), target("demo", &["bin"])]]);
    assert_eq!(detect_bin(&m, "elsewhere"), Some("example".to_string()));
    assert_eq!(detect_bin(&m, "demo"), Some("demo".to_string()));
    let none = metadata(vec![vec![target("rustapi", &["bin"])]]);
    assert_eq!(detect_bin(&none, "x"), None);
}

#[test]
fn cargo_invocations() {
    assert_eq!(cargo_args("app", true, false), strings(&["run", "--release", "--bin", "app"]));
    assert_eq!(cargo_args("app", false, true), strings(&["watch", "-x", "run --bin app"]));
    assert_eq!(cargo_args("app", false, false), strings(&["run", "--bin", "app"]));
}

#[test]
fn manifest_completion() {
    let plain = "[package]\nname = \"demo\"\n";
    let done = complete_manifest(plain);
    assert_eq!(done, format!("{}\n[dependencies]\n{}", plain, NEW_PROJECT_DEPENDENCIES));
    let with = "[package]\nname = \"demo\"\n\n[dependencies]\n";
    assert_eq!(complete_manifest(with), format!("{}{}", with, NEW_PROJECT_DEPENDENCIES));
    assert!(contains_str(&done, "[dependencies]"));
}

#[test]
fn substring_search() {
    assert!(contains_str("abcabd", "abd"));
    assert!(!contains_str("abcab", "abd"));
    assert!(contains_str("x", ""));
    assert!(!contains_str("", "x"));
}

#[test]
fn banners() {
    let dev = banner_lines("dev", "127.0.0.1", 3000, true, "0.1.0");
    let dev: Vec<(&str, &str)> = dev.iter().map(|(a, b)| (a.as_str(), b.as_str())).collect();
    assert_eq!(
        dev,
        vec![
            ("🦀 RustAPI", "v0.1.0"),
            ("mode:", "development"),
            ("addr:", "http://127.0.0.1:3000"),
            ("reload:", "enabled"),
            ("docs:", "http://127.0.0.1:3000/docs"),
        ]
    );
    let run = banner_lines("run", "0.0.0.0", 80, false, "1.2.3");
    assert_eq!(run.len(), 3);
    assert_eq!(run[1].1, "production");
}

#[test]
fn server_address() {
    assert_eq!(bind_address(None, None), "127.0.0.1:3000");
    assert_eq!(bind_address(Some("0.0.0.0"), Some("8080")), "0.0.0.0:8080");
    let lines = startup_lines("127.0.0.1:3000");
    assert_eq!(lines[0], "🚀  Listening on  http://127.0.0.1:3000");
    assert_eq!(lines[3], "🔧  OpenAPI JSON  http://127.0.0.1:3000/openapi.json");
}

#[test]
fn binary_from_cargo_output() {
    let out = br#"{"packages":[{"name":"p","targets":[{"kind":["bin"],"name":"rustapi"},{"kind":["bin"],"name":"server"}]}],"version":1}"#;
    assert_eq!(bin_from_metadata(out, "x").unwrap(), "server");
    assert!(matches!(bin_from_metadata(b"not json", "x"), Err(BinError::Unparsable(_))));
    assert!(matches!(bin_from_metadata(br#"{"version":1}"#, "x"), Err(BinError::NoPackages)));
    assert!(matches!(bin_from_metadata(br#"[1,2]"#, "x"), Err(BinError::NoPackages)));
    assert!(matches!(bin_from_metadata(br#"{"packages":[]}"#, "x"), Err(BinError::NoBinary)));
}

#[test]
fn json_read_from_bytes() {
    assert_eq!(
        parse_json(br#"{"b":[1,2.5,"x"],"a":null,"c":true}"#).unwrap(),
        JsonValue::Object(vec![
            ("a".to_string(), JsonValue::Null),
            ("b".to_string(), JsonValue::Array(vec![
                JsonValue::Number("1".to_string()),
                JsonValue::Number("2.5".to_string()),
                JsonValue::Str("x".to_string()),
            ])),
            ("c".to_string(), JsonValue::Bool(true)),
        ])
    );
    assert!(parse_json(b"{").is_err());
}
