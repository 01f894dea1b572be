use werver::dispatch::ErrorHistory;
use werver::http_server::ErrorPage;
use werver::http_server::ErrorResponse;
use werver::http_server::HttpStatus;
use werver::request::keep_line;
use werver::request::parse_request_line;
use werver::request::request_line;
use werver::request::take_line;
use werver::http_server::Page;
use werver::http_server::Response;
use werver::template::take_template;
use werver::template::take_written;
use werver::http_server::ConnectionHandlingError;
use werver::http_server::RequestType;

fn report(message: &str) -> ErrorResponse {
    ErrorResponse::new(ErrorPage::new("error.html".to_string(), message.to_string()))
}

fn message_of(h: &ErrorHistory) -> Option<String> {
    h.next_override().map(|r| {
        assert_eq!(r.status(), HttpStatus::OK);
        assert_eq!(r.page().template_path(), "error.html");
        r.page().args().expect("args").get("error").expect("the message").clone()
    })
}

#[test]
fn no_report_no_override() {
    let h = ErrorHistory::new();
    assert_eq!(h.len(), 0);
    assert_eq!(message_of(&h), None);
}

#[test]
fn single_report_is_passed_on() {
    let mut h = ErrorHistory::new();
    h.record(Some(report("a")));
    assert_eq!(message_of(&h), Some("a".to_string()));
}

#[test]
fn two_equal_reports_pass_nothing_on() {
    let mut h = ErrorHistory::new();
    h.record(Some(report("a")));
    h.record(Some(report("a")));
    assert_eq!(h.len(), 2);
    assert_eq!(message_of(&h), None);
}

#[test]
fn latest_of_two_different_reports_is_passed_on() {
    let mut h = ErrorHistory::new();
    h.record(Some(report("a")));
    h.record(Some(report("b")));
    assert_eq!(message_of(&h), Some("b".to_string()));
    h.record(Some(report("b")));
    assert_eq!(message_of(&h), None);
    h.record(Some(report("a")));
    assert_eq!(message_of(&h), Some("a".to_string()));
}

#[test]
fn a_poll_without_report_starts_anew() {
    let mut h = ErrorHistory::new();
    h.record(Some(report("a")));
    h.record(Some(report("a")));
    h.record(None);
    assert_eq!(h.len(), 0);
    assert_eq!(message_of(&h), None);
    h.record(Some(report("a")));
    assert_eq!(message_of(&h), Some("a".to_string()));
}

#[test]
fn reading_stops_at_the_first_empty_line() {
    let mut lines = Vec::new();
    assert!(keep_line(&mut lines, "GET / HTTP/1.1".to_string()));
    assert!(keep_line(&mut lines, "Host: x".to_string()));
    assert!(!keep_line(&mut lines, String::new()));
    assert_eq!(lines, vec!["GET / HTTP/1.1", "Host: x"]);
    assert_eq!(request_line(&lines).expect("a line"), "GET / HTTP/1.1");
}

#[test]
fn empty_stream_has_no_request_line() {
    let mut lines = Vec::new();
    assert!(!keep_line(&mut lines, String::new()));
    match request_line(&lines) {
        Err(ConnectionHandlingError::MalformedRequest(m)) => assert_eq!(m, "Empty incoming TCP stream"),
        _ => panic!("a request line out of nothing"),
    }
}

#[test]
fn request_line_gives_method_and_path() {
    let (t, path) = parse_request_line("GET /random/1/20 HTTP/1.1").expect("parsed");
    assert_eq!(t, RequestType::GET);
    assert_eq!(path, "/random/1/20");
    let (_, path) = parse_request_line("GET  x").expect("parsed");
    assert_eq!(path, "");
}

fn broken() -> std::io::Error {
    std::io::Error::new(std::io::ErrorKind::Other, "broken pipe")
}

#[test]
fn lines_are_taken_until_the_blank_line_or_the_end() {
    let mut lines = Vec::new();
    assert!(matches!(take_line(&mut lines, Some(Ok("GET / HTTP/1.1".to_string()))), Ok(true)));
    assert!(matches!(take_line(&mut lines, Some(Ok(String::new()))), Ok(false)));
    assert!(matches!(take_line(&mut lines, None), Ok(false)));
    assert_eq!(lines, vec!["GET / HTTP/1.1"]);
}

#[test]
fn transport_failures_end_the_connection() {
    let mut lines = vec!["GET / HTTP/1.1".to_string()];
    match take_line(&mut lines, Some(Err(broken()))) {
        Err(ConnectionHandlingError::IOError(e)) => assert_eq!(e.to_string(), "broken pipe"),
        _ => panic!("the failure was lost"),
    }
    assert_eq!(lines.len(), 1);
    let r = Response::new(HttpStatus::OK, Page::new("missing.html".to_string(), None));
    match take_template(&r, Err(broken())) {
        Err(ConnectionHandlingError::IOError(e)) => assert_eq!(e.to_string(), "broken pipe"),
        _ => panic!("the failure was lost"),
    }
    assert!(matches!(take_written(Err(broken())), Err(ConnectionHandlingError::IOError(_))));
    assert!(take_written(Ok(())).is_ok());
}

#[test]
fn template_that_was_read_is_rendered() {
    let r = Response::new(HttpStatus::OK, Page::new("page.html".to_string(), None));
    assert_eq!(
        take_template(&r, Ok("hi".to_string())).ok(),
        Some("HTTP/1.1 200 OK\r\nContent-Length: 2\r\n\r\nhi".to_string())
    );
}
