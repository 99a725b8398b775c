use backend_rust_server::parser::is_supported_method;
use backend_rust_server::server::Server;
use backend_rust_server::text::{chars_of, is_whitespace, token_spans};
use backend_rust_server::types::{HttpRequestStatus, ParseError};

fn parse(line: &str) -> Result<HttpRequestStatus, ParseError> {
    Server::parse_status_line(&line.to_string())
}

fn words(line: &str) -> Vec<String> {
    let chars = chars_of(line);
    token_spans(&chars).iter().map(|&(a, b)| chars[a..b].iter().collect()).collect()
}

#[test]
fn parses_a_plain_request_line() {
    let request = parse("GET / HTTP/1.1").unwrap();
    assert_eq!(request.method, "GET");
    assert_eq!(request.http_version, "1.1");
    assert_eq!(request.path, "/");
    assert_eq!(request.query, None);
}

#[test]
fn splits_the_target_at_the_first_question_mark_only() {
    let request = parse("GET /a?b=1&c=2?3 HTTP/1.1").unwrap();
    assert_eq!(request.path, "/a");
    assert_eq!(request.query, Some("b=1&c=2?3".to_string()));
}

#[test]
fn keeps_an_empty_query() {
    let request = parse("GET /a? HTTP/1.2").unwrap();
    assert_eq!(request.path, "/a");
    assert_eq!(request.query, Some(String::new()));
    assert_eq!(request.http_version, "1.2");
}

#[test]
fn a_target_that_is_only_slash_and_query() {
    let request = parse("POST /?x HTTP/1.1").unwrap();
    assert_eq!(request.method, "POST");
    assert_eq!(request.path, "/");
    assert_eq!(request.query, Some("x".to_string()));
}

#[test]
fn refuses_lines_without_exactly_three_tokens() {
    assert_eq!(parse(""), Err(ParseError::MalformedStatusLine));
    assert_eq!(parse("   "), Err(ParseError::MalformedStatusLine));
    assert_eq!(parse("GET"), Err(ParseError::MalformedStatusLine));
    assert_eq!(parse("GET /"), Err(ParseError::MalformedStatusLine));
    assert_eq!(parse("GET / HTTP/1.1 extra"), Err(ParseError::MalformedStatusLine));
    assert_eq!(parse("BREW /"), Err(ParseError::MalformedStatusLine));
}

#[test]
fn token_count_is_checked_before_anything_else() {
    assert_eq!(parse("BREW nowhere"), Err(ParseError::MalformedStatusLine));
    assert_eq!(parse("BREW nowhere FTP and more"), Err(ParseError::MalformedStatusLine));
}

#[test]
fn refuses_unknown_methods() {
    assert_eq!(parse("BREW / HTTP/1.1"), Err(ParseError::UnsupportedMethod));
    assert_eq!(parse("get / HTTP/1.1"), Err(ParseError::UnsupportedMethod));
    assert_eq!(parse("GETS / HTTP/1.1"), Err(ParseError::UnsupportedMethod));
    assert_eq!(parse("GE / HTTP/1.1"), Err(ParseError::UnsupportedMethod));
    assert_eq!(parse("BREW nowhere FTP"), Err(ParseError::UnsupportedMethod));
}

#[test]
fn accepts_each_of_the_nine_methods() {
    let methods =
        ["GET", "HEAD", "POST", "PUT", "DELETE", "CONNECT", "OPTIONS", "TRACE", "PATCH"];
    for method in methods {
        assert!(is_supported_method(method));
        let request = parse(&format!("{} /x HTTP/1.1", method)).unwrap();
        assert_eq!(request.method, method);
    }
    for other in ["", "G", "get", "Get", "GET ", "PATCHY", "LINK", "OPTION", "TRACES"] {
        assert!(!is_supported_method(other));
    }
}

#[test]
fn refuses_targets_that_do_not_begin_with_a_slash() {
    assert_eq!(parse("GET index.html HTTP/1.1"), Err(ParseError::InvalidPath));
    assert_eq!(parse("GET ?a=1 HTTP/1.1"), Err(ParseError::InvalidPath));
    assert_eq!(parse("GET http://host/ HTTP/1.1"), Err(ParseError::InvalidPath));
    assert_eq!(parse("GET * HTTP/9.9"), Err(ParseError::InvalidPath));
}

#[test]
fn refuses_version_markers_of_another_shape() {
    assert_eq!(parse("GET / HTTP/1.10"), Err(ParseError::InvalidVersion));
    assert_eq!(parse("GET / HTTP/1"), Err(ParseError::InvalidVersion));
    assert_eq!(parse("GET / HTTP"), Err(ParseError::InvalidVersion));
    assert_eq!(parse("GET / http/1.1"), Err(ParseError::InvalidVersion));
    assert_eq!(parse("GET / XXXXX1.1"), Err(ParseError::InvalidVersion));
    assert_eq!(parse("GET / HTTPS1.1"), Err(ParseError::InvalidVersion));
}

#[test]
fn refuses_versions_that_are_not_served() {
    assert_eq!(parse("GET / HTTP/1.0"), Err(ParseError::UnsupportedVersion));
    assert_eq!(parse("GET / HTTP/2.0"), Err(ParseError::UnsupportedVersion));
    assert_eq!(parse("GET / HTTP/1.3"), Err(ParseError::UnsupportedVersion));
    assert_eq!(parse("GET / HTTP/abc"), Err(ParseError::UnsupportedVersion));
    assert_eq!(parse("GET / HTTP/1,1"), Err(ParseError::UnsupportedVersion));
}

#[test]
fn version_length_is_counted_in_characters() {
    assert_eq!(parse("GET / HTTP/1.\u{e9}"), Err(ParseError::UnsupportedVersion));
    assert_eq!(parse("GET / aaaa\u{e9}11"), Err(ParseError::InvalidVersion));
}

#[test]
fn accepts_both_served_versions() {
    assert_eq!(parse("HEAD /a HTTP/1.1").unwrap().http_version, "1.1");
    assert_eq!(parse("HEAD /a HTTP/1.2").unwrap().http_version, "1.2");
}

#[test]
fn any_run_of_whitespace_separates_tokens() {
    let request = parse("  GET\t\t/a/b?q   HTTP/1.1 \r").unwrap();
    assert_eq!(request.method, "GET");
    assert_eq!(request.path, "/a/b");
    assert_eq!(request.query, Some("q".to_string()));
    let request = parse("PUT\u{a0}/x\u{2003}HTTP/1.2").unwrap();
    assert_eq!(request.method, "PUT");
    assert_eq!(request.path, "/x");
}

#[test]
fn non_ascii_targets_are_kept_as_they_are() {
    let request = parse("GET /caf\u{e9}?na\u{ef}ve=\u{1f600} HTTP/1.1").unwrap();
    assert_eq!(request.path, "/caf\u{e9}");
    assert_eq!(request.query, Some("na\u{ef}ve=\u{1f600}".to_string()));
}

#[test]
fn whitespace_is_what_std_calls_whitespace() {
    let mut n: u32 = 0;
    while n <= 0x10FFFF {
        if let Some(c) = char::from_u32(n) {
            assert_eq!(is_whitespace(c), c.is_whitespace(), "U+{:04X}", n);
        }
        n += 1;
    }
}

#[test]
fn tokens_are_what_std_splits() {
    let lines = [
        "",
        " ",
        "a",
        " a",
        "a ",
        "GET / HTTP/1.1",
        "\tGET  /a\u{3000}b\n c\r\n",
        "one\u{85}two\u{2028}three\u{1680}four",
        "x\u{200b}y z",
        "  \u{e9}\u{1f600}  \u{a0}",
    ];
    for line in lines {
        let expected: Vec<String> = line.split_whitespace().map(|w| w.to_string()).collect();
        assert_eq!(words(line), expected, "{:?}", line);
    }
}

#[test]
fn chars_of_keeps_every_character() {
    let text = "a\u{e9}\u{1f600} z";
    let expected: Vec<char> = text.chars().collect();
    assert_eq!(chars_of(text), expected);
    assert_eq!(chars_of(""), Vec::<char>::new());
}

#[test]
fn each_refusal_has_its_message() {
    assert_eq!(ParseError::MalformedStatusLine.message(), "The HTTP Request status is invalid");
    assert_eq!(ParseError::UnsupportedMethod.message(), "The method is not correct.");
    assert_eq!(ParseError::InvalidPath.message(), "The path is invalid.");
    assert_eq!(ParseError::InvalidVersion.message(), "The HTTP version is invalid.");
    assert_eq!(
        ParseError::UnsupportedVersion.message(),
        "The HTTP version is invalid/not supported."
    );
}
