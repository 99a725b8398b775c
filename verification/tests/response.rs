use backend_rust_server::resource::{fallback, has_parent_segment, resolve};
use backend_rust_server::response::{
    bare_not_found_response, decimal_string, error_response, file_response, found_status_line,
};

#[test]
fn decimal_of_small_and_large_numbers() {
    assert_eq!(decimal_string(0), "0");
    assert_eq!(decimal_string(7), "7");
    assert_eq!(decimal_string(10), "10");
    assert_eq!(decimal_string(13), "13");
    assert_eq!(decimal_string(109), "109");
    assert_eq!(decimal_string(1234567890), "1234567890");
    assert_eq!(decimal_string(usize::MAX), usize::MAX.to_string());
}

#[test]
fn status_line_names_the_version_of_the_request() {
    assert_eq!(found_status_line("1.1"), "HTTP/1.1 200 OK");
    assert_eq!(found_status_line("1.2"), "HTTP/1.2 200 OK");
}

#[test]
fn response_with_body_has_the_exact_layout() {
    assert_eq!(
        file_response("HTTP/1.1 200 OK", "<html></html>"),
        "HTTP/1.1 200 OK\r\nContent-Length: 13\r\n\r\n<html></html>"
    );
    assert_eq!(
        file_response("HTTP/1.1 404 NOT FOUND", "404"),
        "HTTP/1.1 404 NOT FOUND\r\nContent-Length: 3\r\n\r\n404"
    );
}

#[test]
fn empty_body_has_length_zero() {
    assert_eq!(file_response("HTTP/1.2 200 OK", ""), "HTTP/1.2 200 OK\r\nContent-Length: 0\r\n\r\n");
}

#[test]
fn content_length_counts_bytes_not_characters() {
    assert_eq!(
        file_response("HTTP/1.1 200 OK", "\u{e9}"),
        "HTTP/1.1 200 OK\r\nContent-Length: 2\r\n\r\n\u{e9}"
    );
    assert_eq!(
        file_response("HTTP/1.1 200 OK", "a\u{20ac}\u{1f600}"),
        "HTTP/1.1 200 OK\r\nContent-Length: 8\r\n\r\na\u{20ac}\u{1f600}"
    );
}

#[test]
fn responses_without_body() {
    assert_eq!(error_response(), "HTTP/1.1 500 Internal server Error\r\n\r\n");
    assert_eq!(bare_not_found_response(), "HTTP/1.1 404 NOT FOUND\r\n\r\n");
}

#[test]
fn slash_resolves_to_the_default_resource() {
    assert_eq!(resolve("/"), "./src/pages/index.html");
}

#[test]
fn other_paths_resolve_to_a_page_of_that_name() {
    assert_eq!(resolve("/missing"), "./src/pages//missing.html");
    assert_eq!(resolve("/a/b"), "./src/pages//a/b.html");
    assert_eq!(resolve("//"), "./src/pages///.html");
    assert_eq!(fallback(), "./src/pages/404.html");
}

#[test]
fn parent_segments_are_found() {
    for path in ["/..", "/../", "/../etc/passwd", "/a/../b", "/a/..", "..", "/a\\..\\b", "/..\\x"] {
        assert!(has_parent_segment(path), "{:?}", path);
    }
}

#[test]
fn dots_inside_names_are_no_parent_segments() {
    for path in ["/", "/a", "/a.b", "/...", "/a..", "/..a", "/a/.../b", "/.", "/./a", "", "/a..b/c"] {
        assert!(!has_parent_segment(path), "{:?}", path);
    }
}
