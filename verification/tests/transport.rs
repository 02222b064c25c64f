use rgh::errors::UploadError;
use rgh::transport::{
    build_upload_request, classify_response, filesystem_failure, make_tasks, network_failure,
    UploadOutcome, UploadTask,
};

fn task(path: &str, release_id: usize) -> UploadTask {
    UploadTask { file_path: path.to_string(), release_id }
}

#[test]
fn request_for_simple_file() {
    let r = build_upload_request("o", "r", "t", task("pkg/a.tar.gz", 42), 1234);
    assert_eq!(r.url, "https://uploads.github.com/repos/o/r/releases/42/assets?name=a.tar.gz");
    assert_eq!(r.auth_header, "token t");
    assert_eq!(r.content_length, "1234");
    assert_eq!(r.file_path, "pkg/a.tar.gz");
}

#[test]
fn request_name_is_base_name_of_nested_path() {
    let r = build_upload_request("me", "proj", "secret", task("a/b/c.bin", 7), 0);
    assert_eq!(r.url, "https://uploads.github.com/repos/me/proj/releases/7/assets?name=c.bin");
    assert_eq!(r.content_length, "0");
}

#[test]
fn request_name_is_percent_encoded() {
    let r = build_upload_request("o", "r", "t", task("out/my file+1.tar.gz", 1), 9);
    assert_eq!(
        r.url,
        "https://uploads.github.com/repos/o/r/releases/1/assets?name=my%20file%2b1.tar.gz"
    );
}

#[test]
fn request_name_encodes_utf8_bytes() {
    let r = build_upload_request("o", "r", "t", task("h\u{e9}llo", 1), 9);
    assert_eq!(r.url, "https://uploads.github.com/repos/o/r/releases/1/assets?name=h%c3%a9llo");
}

#[test]
fn large_release_id_and_length_render_in_decimal() {
    let r = build_upload_request("o", "r", "t", task("f", 9007199254740993), 18446744073709551615);
    assert_eq!(
        r.url,
        "https://uploads.github.com/repos/o/r/releases/9007199254740993/assets?name=f"
    );
    assert_eq!(r.content_length, "18446744073709551615");
}

#[test]
fn status_201_is_success() {
    let outcome = classify_response("a".to_string(), 201, "ignored".to_string());
    match outcome {
        UploadOutcome::Success(p) => assert_eq!(p, "a"),
        UploadOutcome::Failure(_, _) => panic!("201 must classify as success"),
    }
}

#[test]
fn other_status_is_rejection_with_body() {
    let outcome = classify_response("b".to_string(), 500, "500: server error".to_string());
    match outcome {
        UploadOutcome::Success(_) => panic!("non-201 must classify as failure"),
        UploadOutcome::Failure(p, e) => {
            assert_eq!(p, "b");
            assert_eq!(e, UploadError::RemoteRejection("500: server error".to_string()));
        }
    }
}

#[test]
fn network_fault_becomes_failure_outcome() {
    let outcome = network_failure("c".to_string(), "connection refused".to_string());
    match outcome {
        UploadOutcome::Failure(p, UploadError::Network(d)) => {
            assert_eq!(p, "c");
            assert_eq!(d, "connection refused");
        }
        _ => panic!("expected a network failure"),
    }
}

#[test]
fn filesystem_fault_becomes_failure_outcome() {
    let outcome = filesystem_failure("d".to_string(), "no such file".to_string());
    match outcome {
        UploadOutcome::Failure(p, UploadError::Filesystem(d)) => {
            assert_eq!(p, "d");
            assert_eq!(d, "no such file");
        }
        _ => panic!("expected a filesystem failure"),
    }
}

#[test]
fn tasks_share_the_release_and_keep_order() {
    let tasks = make_tasks(42, vec!["a".to_string(), "b".to_string()]);
    assert_eq!(tasks.len(), 2);
    assert_eq!(tasks[0].file_path, "a");
    assert_eq!(tasks[1].file_path, "b");
    assert!(tasks.iter().all(|t| t.release_id == 42));
}

#[test]
fn outcome_accessors_report_path_and_kind() {
    let ok = UploadOutcome::Success("p".to_string());
    let bad = UploadOutcome::Failure("q".to_string(), UploadError::Network("x".to_string()));
    assert_eq!(ok.path().as_str(), "p");
    assert!(!ok.is_failure());
    assert_eq!(bad.path().as_str(), "q");
    assert!(bad.is_failure());
}
