use fileserv::resolve::{is_confined, plan_request, RequestPlan};

#[test]
fn test_parse_requested_path_root() {
    let request = "GET / HTTP/1.1\r\nHost: localhost\r\n\r\n";
    // The empty tail resolves to the root directory itself.
    let plan = plan_request(request);
    assert!(matches!(plan, RequestPlan::UseRoot));
}

#[test]
fn test_parse_requested_path_malformed() {
    let request = "GET";
    let plan = plan_request(request);
    assert!(matches!(plan, RequestPlan::Reject));
}

#[test]
fn test_parse_requested_path_empty() {
    let request = "";
    let plan = plan_request(request);
    assert!(matches!(plan, RequestPlan::Reject));
}

#[test]
fn test_parse_requested_path_with_encoding() {
    let request = "GET /tests%2Fsample.jpg HTTP/1.1\r\nHost: localhost\r\n\r\n";
    let plan = plan_request(request);
    match plan {
        RequestPlan::Probe { tail } => {
            assert!(tail.contains("sample.jpg"));
            assert_eq!(tail, "tests/sample.jpg");
        }
        _ => panic!("expected a probe"),
    }
}

#[test]
fn test_parse_requested_path_prevents_directory_traversal() {
    let request = "GET /../etc/passwd HTTP/1.1\r\nHost: localhost\r\n\r\n";
    let plan = plan_request(request);
    assert!(matches!(plan, RequestPlan::Reject));
}

#[test]
fn test_plan_rejects_encoded_traversal() {
    // the traversal only appears after percent-decoding
    let request = "GET /..%2F..%2Fetc%2Fpasswd HTTP/1.1\r\nHost: localhost\r\n\r\n";
    let plan = plan_request(request);
    assert!(matches!(plan, RequestPlan::Reject));
}

#[test]
fn test_plan_rejects_inner_traversal() {
    let plan = plan_request("GET /a/../b HTTP/1.1\r\n\r\n");
    assert!(matches!(plan, RequestPlan::Reject));
    // a name that merely contains dots is no parent reference
    match plan_request("GET /a..b/..c HTTP/1.1\r\n\r\n") {
        RequestPlan::Probe { tail } => assert_eq!(tail, "a..b/..c"),
        _ => panic!("expected a probe"),
    }
}

#[test]
fn test_plan_strips_repeated_slashes() {
    match plan_request("GET //docs HTTP/1.1\r\n\r\n") {
        RequestPlan::Probe { tail } => assert_eq!(tail, "docs"),
        _ => panic!("expected a probe"),
    }
    assert!(matches!(
        plan_request("GET /// HTTP/1.1\r\n\r\n"),
        RequestPlan::UseRoot
    ));
}

#[test]
fn test_plan_trailing_space_gives_empty_target() {
    // "GET " still has a second, empty token: the root is served
    assert!(matches!(plan_request("GET "), RequestPlan::UseRoot));
}

#[test]
fn test_is_confined_descendants() {
    assert!(is_confined("/srv/root", "/srv/root"));
    assert!(is_confined("/srv/root/sub/file.txt", "/srv/root"));
    assert!(is_confined("/srv/root/sub", "/"));
    assert!(!is_confined("/srv/rootextra", "/srv/root"));
    assert!(!is_confined("/etc/passwd", "/srv/root"));
    assert!(!is_confined("/srv", "/srv/root"));
}

#[test]
fn test_is_confined_strips_long_path_marker() {
    assert!(is_confined("\\\\?\\D:/root/sub", "D:/root"));
    assert!(is_confined("D:/root/sub", "\\\\?\\D:/root"));
}
