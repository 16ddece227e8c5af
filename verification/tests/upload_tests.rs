use ukiapi::status::BAD_REQUEST;
use ukiapi::upload::{
    bytes_error, final_component, multipart_error, next_step, safe_filename, FieldEvent,
    UploadFile, UploadStep,
};

#[test]
fn safe_names_of_uploads() {
    assert_eq!(safe_filename("test.txt"), "test.txt");
    assert_eq!(safe_filename("../../etc/passwd"), "passwd");
    assert_eq!(safe_filename("C:\\Users\\me\\photo.jpg"), "photo.jpg");
    assert_eq!(safe_filename("dir/sub/"), "sub");
    assert_eq!(safe_filename("a/./"), "a");
    assert_eq!(safe_filename(".."), "unknown.txt");
    assert_eq!(safe_filename("x/.."), "unknown.txt");
    assert_eq!(safe_filename("/"), "unknown.txt");
    assert_eq!(safe_filename(""), "unknown.txt");
    assert_eq!(safe_filename("."), "unknown.txt");
    assert_eq!(safe_filename("..\\..\\boot.ini"), "boot.ini");
}

#[test]
fn final_component_agrees_with_std_path() {
    for p in ["a/b", "a/b/", "a//b", "/a", "./a", "a/.", "a/..", "..", ".", "", "/", "a/./b", "...", ".hidden", "a/.b/"] {
        let expected = std::path::Path::new(p)
            .file_name()
            .and_then(|n| n.to_str())
            .map(|n| n.to_string());
        assert_eq!(final_component(p), expected, "path {:?}", p);
    }
}

#[test]
fn first_file_field_is_read() {
    let step = next_step(FieldEvent::Field {
        file_name: Some("dir/test.txt".to_string()),
        content_type: Some("text/plain".to_string()),
    });
    match step {
        UploadStep::Read { filename, content_type } => {
            assert_eq!(filename, "test.txt");
            assert_eq!(content_type, Some("text/plain".to_string()));
        }
        _ => panic!("expected the file to be read"),
    }
}

#[test]
fn plain_fields_are_skipped() {
    let step = next_step(FieldEvent::Field { file_name: None, content_type: None });
    assert!(matches!(step, UploadStep::Skip));
}

#[test]
fn end_without_file_is_refused() {
    match next_step(FieldEvent::End) {
        UploadStep::Reject(e) => {
            assert_eq!(e.status_code, BAD_REQUEST);
            assert_eq!(e.detail, "No file uploaded");
        }
        _ => panic!("expected a refusal"),
    }
}

#[test]
fn unreadable_parts_are_refused() {
    match next_step(FieldEvent::Failed("incomplete".to_string())) {
        UploadStep::Reject(e) => {
            assert_eq!(e.status_code, BAD_REQUEST);
            assert_eq!(e.detail, "Multipart field error: incomplete");
        }
        _ => panic!("expected a refusal"),
    }
    let e = multipart_error("no boundary");
    assert_eq!((e.status_code, e.detail.as_str()), (BAD_REQUEST, "Multipart error: no boundary"));
    let e = bytes_error("reset");
    assert_eq!(e.detail, "Failed to read multipart bytes: reset");
}

#[test]
fn received_file_keeps_its_parts() {
    let f = UploadFile::received("a.txt".to_string(), None, b"hello".to_vec());
    assert_eq!(f.filename, Some("a.txt".to_string()));
    assert_eq!(f.content_type, None);
    assert_eq!(f.content, b"hello".to_vec());
}
