use fileserv::dispatch::{handle_request, FsNode, FsProbe};
use fileserv::response::DirEntryInfo;

fn empty_probe() -> FsProbe {
    FsProbe {
        root_display: String::from("/srv/root"),
        canonical_root: None,
        node: None,
    }
}

fn file_node(path: &str, bytes: Option<Vec<u8>>, text: Option<String>) -> FsNode {
    FsNode {
        path: String::from(path),
        is_file: true,
        is_dir: false,
        bytes,
        text,
        entries: None,
    }
}

fn dir_node(path: &str, entries: Option<Vec<DirEntryInfo>>) -> FsNode {
    FsNode {
        path: String::from(path),
        is_file: false,
        is_dir: true,
        bytes: None,
        text: None,
        entries,
    }
}

fn probe_with(node: FsNode) -> FsProbe {
    FsProbe {
        root_display: String::from("/srv/root"),
        canonical_root: Some(String::from("/srv/root")),
        node: Some(node),
    }
}

#[test]
fn test_handle_request_malformed() {
    let request = "INVALID REQUEST FORMAT";
    let response = handle_request(request, &empty_probe());
    let response_str = String::from_utf8_lossy(&response);
    assert!(response_str.contains("400 Bad Request"));
}

#[test]
fn test_handle_request_empty() {
    let request = "";
    let response = handle_request(request, &empty_probe());
    let response_str = String::from_utf8_lossy(&response);
    assert!(response_str.contains("400 Bad Request"));
}

#[test]
fn test_parse_requested_path_invalid_request() {
    // "INVALID REQUEST" carries "REQUEST" as its target; nothing of that
    // name canonicalizes, so the probe holds no node and the request fails
    let request = "INVALID REQUEST";
    let response = handle_request(request, &empty_probe());
    let response_str = String::from_utf8_lossy(&response);
    assert!(response_str.contains("400 Bad Request"));
}

#[test]
fn test_parse_requested_path_prevents_absolute_paths() {
    // a canonical path outside the root is refused even when the probe
    // found a node there
    let request = "GET /C:/Windows/System32 HTTP/1.1\r\nHost: localhost\r\n\r\n";
    let mut probe = probe_with(file_node(
        "/windows/system32",
        None,
        Some(String::from("secrets")),
    ));
    probe.canonical_root = Some(String::from("/srv/root"));
    let response = handle_request(request, &probe);
    let response_str = String::from_utf8_lossy(&response);
    assert!(response_str.contains("400 Bad Request"));
    assert!(!response_str.contains("secrets"));
}

#[test]
fn test_traversal_rejected_whatever_the_probe_holds() {
    // the encoded traversal is rejected before any filesystem fact counts
    let request = "GET /..%2F..%2Fetc%2Fpasswd HTTP/1.1\r\nHost: localhost\r\n\r\n";
    let probe = probe_with(file_node(
        "/etc/passwd",
        None,
        Some(String::from("root:x:0:0:")),
    ));
    let response = handle_request(request, &probe);
    let response_str = String::from_utf8_lossy(&response);
    assert!(response_str.contains("400 Bad Request"));
    assert!(!response_str.contains("root:x:0:0:"));
}

#[test]
fn test_text_file_response_exact() {
    let request = "GET /notes.txt HTTP/1.1\r\nHost: localhost\r\n\r\n";
    let probe = probe_with(file_node(
        "/srv/root/notes.txt",
        None,
        Some(String::from("hello there\n")),
    ));
    let response = handle_request(request, &probe);
    assert_eq!(
        response,
        b"HTTP/1.1 200 OK\r\nContent-Type: text/plain\r\n\r\nhello there\n".to_vec()
    );
}

#[test]
fn test_binary_file_response_exact() {
    let request = "GET /pic.png HTTP/1.1\r\nHost: localhost\r\n\r\n";
    let probe = probe_with(file_node(
        "/srv/root/pic.png",
        Some(vec![0x89, 0x50, 0x4E]),
        None,
    ));
    let response = handle_request(request, &probe);
    let mut expected =
        b"HTTP/1.1 200 OK\r\nContent-Type: image/png\r\nContent-Length: 3\r\n\r\n".to_vec();
    expected.extend_from_slice(&[0x89, 0x50, 0x4E]);
    assert_eq!(response, expected);
}

#[test]
fn test_image_read_failure() {
    let request = "GET /pic.jpg HTTP/1.1\r\n\r\n";
    let probe = probe_with(file_node("/srv/root/pic.jpg", None, None));
    let response = handle_request(request, &probe);
    assert_eq!(
        response,
        b"HTTP/1.1 500 Internal Server Error\r\n\r\nError reading image file".to_vec()
    );
}

#[test]
fn test_video_read_failure() {
    let request = "GET /clip.mp4 HTTP/1.1\r\n\r\n";
    let probe = probe_with(file_node("/srv/root/clip.mp4", None, None));
    let response = handle_request(request, &probe);
    assert_eq!(
        response,
        b"HTTP/1.1 500 Internal Server Error\r\n\r\nError reading video file".to_vec()
    );
}

#[test]
fn test_text_read_failure() {
    let request = "GET /notes.txt HTTP/1.1\r\n\r\n";
    let probe = probe_with(file_node("/srv/root/notes.txt", None, None));
    let response = handle_request(request, &probe);
    assert_eq!(
        response,
        b"HTTP/1.1 500 Internal Server Error\r\n\r\nError reading file".to_vec()
    );
}

#[test]
fn test_directory_listing_links() {
    let request = "GET /docs HTTP/1.1\r\n\r\n";
    let entries = vec![
        DirEntryInfo {
            name: String::from("sub dir"),
            is_dir: true,
        },
        DirEntryInfo {
            name: String::from("a b.txt"),
            is_dir: false,
        },
    ];
    let probe = probe_with(dir_node("/srv/root/docs", Some(entries)));
    let response = handle_request(request, &probe);
    let text = String::from_utf8_lossy(&response);
    assert!(text.starts_with("HTTP/1.1 200 OK\r\nContent-Type: text/html\r\n\r\n"));
    // one link per child entry, percent-encoded (the slash becomes %2F)
    assert!(text.contains("<a href=\"/docs%2Fsub%20dir\">sub dir</a>"));
    assert!(text.contains("<a href=\"/docs%2Fa%20b.txt\" download>Download</a>"));
    assert!(text.contains("<a href=\"/docs%2Fa%20b.txt\">View</a>"));
    // a subdirectory shows the parent link; here the parent is the root
    assert!(text.contains("<a href=\"/\">Parent Directory</a>"));
}

#[test]
fn test_nested_directory_parent_link() {
    let request = "GET /docs/deep HTTP/1.1\r\n\r\n";
    let probe = probe_with(dir_node("/srv/root/docs/deep", Some(vec![])));
    let response = handle_request(request, &probe);
    let text = String::from_utf8_lossy(&response);
    assert!(text.contains("<a href=\"/docs\">Parent Directory</a>"));
}

#[test]
fn test_root_directory_omits_parent_link() {
    let request = "GET / HTTP/1.1\r\nHost: localhost\r\n\r\n";
    let entries = vec![DirEntryInfo {
        name: String::from("readme.txt"),
        is_dir: false,
    }];
    // the root itself: the node's path is the served root
    let probe = FsProbe {
        root_display: String::from("/srv/root"),
        canonical_root: Some(String::from("/srv/root")),
        node: Some(dir_node("/srv/root", Some(entries))),
    };
    let response = handle_request(request, &probe);
    let text = String::from_utf8_lossy(&response);
    assert!(text.starts_with("HTTP/1.1 200 OK\r\nContent-Type: text/html\r\n\r\n"));
    assert!(!text.contains("Parent Directory"));
    assert!(text.contains("<a href=\"/readme.txt\" download>Download</a>"));
}

#[test]
fn test_directory_read_failure() {
    let request = "GET /docs HTTP/1.1\r\n\r\n";
    let probe = probe_with(dir_node("/srv/root/docs", None));
    let response = handle_request(request, &probe);
    assert_eq!(
        response,
        b"HTTP/1.1 500 Internal Server Error\r\n\r\nError reading directory".to_vec()
    );
}

#[test]
fn test_neither_file_nor_directory() {
    let request = "GET /sock HTTP/1.1\r\n\r\n";
    let node = FsNode {
        path: String::from("/srv/root/sock"),
        is_file: false,
        is_dir: false,
        bytes: None,
        text: None,
        entries: None,
    };
    let probe = probe_with(node);
    let response = handle_request(request, &probe);
    let text = String::from_utf8_lossy(&response);
    assert!(text.contains("400 Bad Request"));
}

#[test]
fn test_missing_canonical_root_rejected() {
    let request = "GET /notes.txt HTTP/1.1\r\n\r\n";
    let mut probe = probe_with(file_node(
        "/srv/root/notes.txt",
        None,
        Some(String::from("hello")),
    ));
    probe.canonical_root = None;
    let response = handle_request(request, &probe);
    let text = String::from_utf8_lossy(&response);
    assert!(text.contains("400 Bad Request"));
}

#[test]
fn test_long_path_marker_annotated() {
    let request = "GET /docs HTTP/1.1\r\n\r\n";
    let mut probe = probe_with(dir_node("\\\\?\\D:/root/docs", Some(vec![])));
    probe.canonical_root = Some(String::from("D:/root"));
    probe.root_display = String::from("D:/root");
    let response = handle_request(request, &probe);
    let text = String::from_utf8_lossy(&response);
    assert!(text.contains("<abbr title=\"'\\\\?\\' is a Windows MAX_PATH feature"));
    assert!(text.contains("\\\\?\\D:/root/docs</abbr></h1>"));
}
