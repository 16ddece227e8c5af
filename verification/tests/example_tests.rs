use ukiapi::auth::decode_jwt;
use ukiapi::example::{
    claims_text, find_item, list_positions, login, new_item_id, request_info_text,
    upload_summary,
};
use ukiapi::json::JsonValue;
use ukiapi::status::{INTERNAL_SERVER_ERROR, NOT_FOUND};

fn names(v: &[&str]) -> Vec<String> {
    v.iter().map(|x| x.to_string()).collect()
}

#[test]
fn claim_names_written_as_serde_json_writes_them() {
    for sub in ["plain", "quote\"back\\slash", "tab\tnl\ncr\r", "\u{8}\u{c}\u{1}\u{1f}", "caf\u{e9} \u{7f}", ""] {
        let expected = format!("{{\"sub\":{},\"exp\":7}}", serde_json::to_string(sub).unwrap());
        assert_eq!(claims_text(sub, 7), expected, "name {:?}", sub);
    }
}

#[test]
fn claims_as_serde_json_writes_them() {
    let text = claims_text("al\"ice", 1700003600);
    assert_eq!(text, "{\"sub\":\"al\\\"ice\",\"exp\":1700003600}");
    let v: serde_json::Value = serde_json::from_str(&text).unwrap();
    assert_eq!(v["sub"], "al\"ice");
    assert_eq!(v["exp"], 1700003600u64);
}

#[test]
fn login_issues_a_bearer_token() {
    let t = login("alice", 4_000_000_000, Some("k")).unwrap();
    assert_eq!(t.token_type, "Bearer");
    let claims = decode_jwt(&t.access_token, "k").unwrap();
    assert_eq!(
        claims,
        JsonValue::Object(vec![
            ("exp".to_string(), JsonValue::Number("4000003600".to_string())),
            ("sub".to_string(), JsonValue::Str("alice".to_string())),
        ])
    );
}

#[test]
fn login_without_secret_is_refused() {
    let e = login("alice", 0, None).unwrap_err();
    assert_eq!(e.status_code, INTERNAL_SERVER_ERROR);
    assert_eq!(e.detail, "JWT_SECRET environment variable is not set");
}

#[test]
fn item_listing() {
    let items = names(&["apple", "banana", "pineapple", "grape", "apple pie"]);
    assert_eq!(list_positions(&items, Some("apple"), 10), vec![0, 2, 4]);
    assert_eq!(list_positions(&items, Some("apple"), 2), vec![0, 2]);
    assert_eq!(list_positions(&items, None, 3), vec![0, 1, 2]);
    assert_eq!(list_positions(&items, Some("kiwi"), 10), Vec::<usize>::new());
    assert_eq!(list_positions(&items, Some(""), 10).len(), 5);
}

#[test]
fn item_lookup() {
    let ids = vec![3, 7, 7, 9];
    assert_eq!(find_item(&ids, 7).unwrap(), 1);
    let e = find_item(&ids, 4).unwrap_err();
    assert_eq!(e.status_code, NOT_FOUND);
    assert_eq!(e.detail, "Item 4 not found");
    assert_eq!(find_item(&ids, -12).unwrap_err().detail, "Item -12 not found");
    assert_eq!(find_item(&vec![], i32::MIN).unwrap_err().detail, "Item -2147483648 not found");
}

#[test]
fn new_items_are_numbered() {
    assert_eq!(new_item_id(0, Some("s")).unwrap(), 1);
    assert_eq!(new_item_id(41, Some("s")).unwrap(), 42);
    let e = new_item_id(3, None).unwrap_err();
    assert_eq!(e.status_code, INTERNAL_SERVER_ERROR);
    assert_eq!(e.detail, "Server misconfiguration");
}

#[test]
fn route_texts() {
    assert_eq!(request_info_text("GET", "/request-info"), "Request method: GET, Path: /request-info");
    let body = upload_summary("test.txt", 5, Some("text/plain"));
    assert_eq!(
        body,
        JsonValue::Object(vec![
            ("content_type".to_string(), JsonValue::Str("text/plain".to_string())),
            ("filename".to_string(), JsonValue::Str("test.txt".to_string())),
            ("message".to_string(), JsonValue::Str("File uploaded successfully".to_string())),
            ("size".to_string(), JsonValue::Number("5".to_string())),
        ])
    );
    let body = upload_summary("a", 0, None);
    match body {
        JsonValue::Object(es) => assert_eq!(es[0].1, JsonValue::Null),
        _ => panic!("expected an object"),
    }
}

#[test]
fn claims_read_back_for_every_ascii_name() {
    let all: String = (0u32..128).filter_map(char::from_u32).collect();
    let v: serde_json::Value = serde_json::from_str(&claims_text(&all, 1)).unwrap();
    assert_eq!(v["sub"], all.as_str());
}
