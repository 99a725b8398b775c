use backend_rust_server::handler::{Action, Event, Handler};

/// Runs one connection: `input` is what the client sends, `files` what the
/// disk holds. Gives back the response, the resources that were loaded and
/// the number of lines that were read.
fn serve(input: &str, files: &[(&str, &str)]) -> (String, Vec<String>, usize) {
    let mut lines = input.lines();
    let mut loaded: Vec<String> = Vec::new();
    let mut read = 0;
    let (mut state, mut action) = Handler::start();
    loop {
        let event = match action {
            Action::ReadLine => match lines.next() {
                Some(line) => {
                    read += 1;
                    Event::Line(line.to_string())
                }
                None => Event::EndOfStream,
            },
            Action::Load(resource) => {
                let found = files.iter().find(|(name, _)| *name == resource);
                loaded.push(resource);
                match found {
                    Some((_, content)) => Event::Found(content.to_string()),
                    None => Event::Missing,
                }
            }
            Action::Respond(buffer) => {
                assert!(state.is_closed());
                return (buffer, loaded, read);
            }
            Action::Nothing => panic!("no response"),
        };
        let (next_state, next_action) = state.step(event);
        state = next_state;
        action = next_action;
    }
}

#[test]
fn serves_the_default_resource() {
    let files = [("./src/pages/index.html", "<html></html>")];
    let (response, loaded, _) = serve("GET / HTTP/1.1\r\nHost: x\r\n\r\n", &files);
    assert!(response.starts_with("HTTP/1.1 200 OK"));
    assert!(response.contains("Content-Length: 13"));
    assert_eq!(response, "HTTP/1.1 200 OK\r\nContent-Length: 13\r\n\r\n<html></html>");
    assert_eq!(loaded, vec!["./src/pages/index.html".to_string()]);
}

#[test]
fn serves_the_not_found_page_for_a_missing_resource() {
    let files = [("./src/pages/404.html", "404"), ("./src/pages/index.html", "home")];
    let (response, loaded, _) = serve("GET /nope HTTP/1.1\r\n\r\n", &files);
    assert_eq!(response, "HTTP/1.1 404 NOT FOUND\r\nContent-Length: 3\r\n\r\n404");
    assert_eq!(
        loaded,
        vec!["./src/pages//nope.html".to_string(), "./src/pages/404.html".to_string()]
    );
}

#[test]
fn refuses_an_unknown_method_without_reading_on() {
    let files = [("./src/pages/index.html", "home")];
    let (state, action) = Handler::start();
    assert_eq!(action, Action::ReadLine);
    let (state, action) = state.step(Event::Line("BREW / HTTP/1.1".to_string()));
    assert_eq!(action, Action::ReadLine);
    let (state, action) = state.step(Event::EndOfStream);
    assert_eq!(action, Action::Respond("HTTP/1.1 500 Internal server Error\r\n\r\n".to_string()));
    assert!(state.is_closed());
    let (response, loaded, read) = serve("BREW / HTTP/1.1\r\n\r\nnever read\r\n", &files);
    assert!(response.starts_with("HTTP/1.1 500"));
    assert!(loaded.is_empty());
    assert_eq!(read, 2);
}

#[test]
fn bare_not_found_when_the_not_found_page_is_missing_too() {
    let (response, loaded, _) = serve("GET /missing HTTP/1.1\r\n\r\n", &[]);
    assert_eq!(response, "HTTP/1.1 404 NOT FOUND\r\n\r\n");
    assert_eq!(
        loaded,
        vec!["./src/pages//missing.html".to_string(), "./src/pages/404.html".to_string()]
    );
}

#[test]
fn nothing_is_loaded_after_the_not_found_page() {
    let (state, _) = Handler::start();
    let (state, _) = state.step(Event::Line("GET /missing HTTP/1.1".to_string()));
    let (state, action) = state.step(Event::Line(String::new()));
    assert_eq!(action, Action::Load("./src/pages//missing.html".to_string()));
    let (state, action) = state.step(Event::Missing);
    assert_eq!(state, Handler::FallbackLoad);
    assert_eq!(action, Action::Load("./src/pages/404.html".to_string()));
    let (state, action) = state.step(Event::Missing);
    assert_eq!(state, Handler::Closed);
    assert_eq!(action, Action::Respond("HTTP/1.1 404 NOT FOUND\r\n\r\n".to_string()));
    let (state, action) = state.step(Event::Missing);
    assert_eq!(state, Handler::Closed);
    assert_eq!(action, Action::Nothing);
    let (state, action) = state.step(Event::Found("late".to_string()));
    assert_eq!(state, Handler::Closed);
    assert_eq!(action, Action::Nothing);
}

#[test]
fn the_status_line_carries_the_version_of_the_request() {
    let files = [("./src/pages//about.html", "about")];
    let (response, _, _) = serve("GET /about?x=1 HTTP/1.2\r\n\r\n", &files);
    assert_eq!(response, "HTTP/1.2 200 OK\r\nContent-Length: 5\r\n\r\nabout");
}

#[test]
fn the_not_found_page_is_always_answered_as_http_1_1() {
    let files = [("./src/pages/404.html", "gone")];
    let (response, _, _) = serve("GET /nope HTTP/1.2\r\n\r\n", &files);
    assert_eq!(response, "HTTP/1.1 404 NOT FOUND\r\nContent-Length: 4\r\n\r\ngone");
}

#[test]
fn header_lines_are_collected_and_not_interpreted() {
    let files = [("./src/pages/index.html", "home")];
    let input = "GET / HTTP/1.1\r\nBREW / HTTP/1.1\r\nContent-Length: 99\r\n\r\nbody";
    let (response, _, read) = serve(input, &files);
    assert_eq!(response, "HTTP/1.1 200 OK\r\nContent-Length: 4\r\n\r\nhome");
    assert_eq!(read, 4);
    let (state, _) = Handler::start();
    let (state, _) = state.step(Event::Line("GET / HTTP/1.1".to_string()));
    let (state, _) = state.step(Event::Line("Host: x".to_string()));
    assert_eq!(
        state,
        Handler::ReadLine { lines: vec!["GET / HTTP/1.1".to_string(), "Host: x".to_string()] }
    );
}

#[test]
fn a_request_that_ends_without_a_blank_line_is_answered() {
    let files = [("./src/pages/index.html", "home")];
    let (response, _, _) = serve("GET / HTTP/1.1", &files);
    assert_eq!(response, "HTTP/1.1 200 OK\r\nContent-Length: 4\r\n\r\nhome");
}

#[test]
fn an_empty_request_is_refused() {
    let (response, loaded, _) = serve("", &[]);
    assert_eq!(response, "HTTP/1.1 500 Internal server Error\r\n\r\n");
    assert!(loaded.is_empty());
    let (response, _, read) = serve("\r\nGET / HTTP/1.1\r\n\r\n", &[]);
    assert_eq!(response, "HTTP/1.1 500 Internal server Error\r\n\r\n");
    assert_eq!(read, 1);
}

#[test]
fn a_failed_read_is_refused() {
    let (state, _) = Handler::start();
    let (state, _) = state.step(Event::Line("GET / HTTP/1.1".to_string()));
    let (state, action) = state.step(Event::ReadFailed);
    assert_eq!(state, Handler::Closed);
    assert_eq!(action, Action::Respond("HTTP/1.1 500 Internal server Error\r\n\r\n".to_string()));
}

#[test]
fn each_parse_error_is_answered_with_the_error_response() {
    let lines = [
        "GET /",
        "BREW / HTTP/1.1",
        "GET index.html HTTP/1.1",
        "GET / HTTP/1.10",
        "GET / HTTP/2.0",
    ];
    for line in lines {
        let (response, loaded, _) = serve(line, &[("./src/pages/index.html", "home")]);
        assert_eq!(response, "HTTP/1.1 500 Internal server Error\r\n\r\n", "{:?}", line);
        assert!(loaded.is_empty());
    }
}

#[test]
fn a_path_with_a_parent_segment_is_never_loaded() {
    let files = [
        ("./src/pages//../secret.html", "secret"),
        ("./src/pages//a/../../secret.html", "secret"),
        ("./src/pages/404.html", "404"),
    ];
    for line in ["GET /../secret HTTP/1.1", "GET /a/../../secret HTTP/1.1"] {
        let (response, loaded, _) = serve(line, &files);
        assert_eq!(response, "HTTP/1.1 404 NOT FOUND\r\nContent-Length: 3\r\n\r\n404");
        assert_eq!(loaded, vec!["./src/pages/404.html".to_string()]);
    }
    let (response, loaded, _) = serve("GET /../secret HTTP/1.1", &files[..2]);
    assert_eq!(response, "HTTP/1.1 404 NOT FOUND\r\n\r\n");
    assert_eq!(loaded, vec!["./src/pages/404.html".to_string()]);
}

#[test]
fn a_parent_segment_in_the_query_does_not_matter() {
    let files = [("./src/pages//a.html", "a")];
    let (response, loaded, _) = serve("GET /a?next=/../b HTTP/1.1", &files);
    assert_eq!(response, "HTTP/1.1 200 OK\r\nContent-Length: 1\r\n\r\na");
    assert_eq!(loaded, vec!["./src/pages//a.html".to_string()]);
}

#[test]
fn an_event_out_of_turn_ends_the_connection() {
    let (state, _) = Handler::start();
    let (state, action) = state.step(Event::Found("x".to_string()));
    assert_eq!(state, Handler::Closed);
    assert_eq!(action, Action::Respond("HTTP/1.1 500 Internal server Error\r\n\r\n".to_string()));
    let (state, action) = Handler::Load { status_line: "HTTP/1.1 200 OK".to_string() }
        .step(Event::Line("GET / HTTP/1.1".to_string()));
    assert_eq!(state, Handler::Closed);
    assert_eq!(action, Action::Respond("HTTP/1.1 500 Internal server Error\r\n\r\n".to_string()));
    let (state, action) = Handler::FallbackLoad.step(Event::EndOfStream);
    assert_eq!(state, Handler::Closed);
    assert_eq!(action, Action::Respond("HTTP/1.1 500 Internal server Error\r\n\r\n".to_string()));
}

#[test]
fn at_most_two_loads_and_one_response_whatever_comes() {
    let events = [
        Event::Line("GET /x HTTP/1.1".to_string()),
        Event::Missing,
        Event::EndOfStream,
        Event::Missing,
        Event::Found("a".to_string()),
        Event::Missing,
        Event::Line(String::new()),
        Event::ReadFailed,
    ];
    for first in 0..events.len() {
        for second in 0..events.len() {
            for third in 0..events.len() {
                for fourth in 0..events.len() {
                    let (mut state, _) = Handler::start();
                    let mut loads = 0;
                    let mut responses = 0;
                    for index in [first, second, third, fourth, first, second] {
                        let (next_state, action) = state.step(events[index].clone());
                        state = next_state;
                        match action {
                            Action::Load(_) => loads += 1,
                            Action::Respond(_) => responses += 1,
                            _ => {}
                        }
                    }
                    assert!(loads <= 2);
                    assert!(responses <= 1);
                    assert_eq!(responses == 1, state.is_closed());
                }
            }
        }
    }
}
