use werver::http_server::ErrorPage;
use werver::http_server::ErrorResponse;
use werver::html_args::HtmlArgs;
use werver::http_server::HttpStatus;
use werver::http_server::NotFoundResponse;
use werver::http_server::Page;
use werver::http_server::Response;
use werver::template::format_response;
use werver::template::render_page;
use werver::template::render_response;

fn args(pairs: &[(&str, &str)]) -> HtmlArgs {
    let mut a = HtmlArgs::new();
    for (k, v) in pairs {
        a.insert(k.to_string(), v.to_string());
    }
    a
}

#[test]
fn placeholder_is_replaced() {
    let a = args(&[("name", "World")]);
    assert_eq!(render_page("Hello {name}!", Some(&a)), "Hello World!");
}

#[test]
fn without_args_contents_pass_through() {
    assert_eq!(render_page("Hello {name}!", None), "Hello {name}!");
    assert_eq!(render_page("Hello {name}!", Some(&HtmlArgs::new())), "Hello {name}!");
    assert_eq!(render_page("", None), "");
}

#[test]
fn unknown_placeholder_is_left_literal() {
    let a = args(&[("name", "World")]);
    assert_eq!(render_page("Hello {who}!", Some(&a)), "Hello {who}!");
    assert_eq!(render_page("{name} and {who}", Some(&a)), "World and {who}");
    assert_eq!(render_page("{ name } {name", Some(&a)), "{ name } {name");
}

#[test]
fn every_occurrence_is_replaced() {
    let a = args(&[("x", "ab")]);
    assert_eq!(render_page("{x}{x}-{x}", Some(&a)), "abab-ab");
    assert_eq!(render_page("{{x}}", Some(&a)), "{ab}");
}

#[test]
fn replacement_is_not_scanned_again() {
    let a = args(&[("x", "{x}{x}")]);
    assert_eq!(render_page("a{x}b", Some(&a)), "a{x}{x}b");
}

#[test]
fn keys_are_replaced_in_insertion_order() {
    let a = args(&[("a", "{b}"), ("b", "done")]);
    assert_eq!(render_page("{a} {b}", Some(&a)), "done done");
    let b = args(&[("b", "done"), ("a", "{b}")]);
    assert_eq!(render_page("{a} {b}", Some(&b)), "{b} done");
}

#[test]
fn empty_key_and_empty_value() {
    let a = args(&[("", "nothing"), ("gone", "")]);
    assert_eq!(render_page("{}|{gone}|", Some(&a)), "nothing||");
}

#[test]
fn values_with_wide_characters() {
    let a = args(&[("caf\u{e9}", "\u{1f600}")]);
    assert_eq!(render_page("<{caf\u{e9}}>", Some(&a)), "<\u{1f600}>");
}

#[test]
fn response_text_of_a_plain_page() {
    let contents = "<h1>meow</h1>\n";
    let r = Response::new(HttpStatus::OK, Page::new("pages/meow.html".to_string(), None));
    assert_eq!(
        render_response(&r, contents),
        "HTTP/1.1 200 OK\r\nContent-Length: 14\r\n\r\n<h1>meow</h1>\n"
    );
}

#[test]
fn content_length_counts_bytes() {
    let contents = "h\u{e9}llo \u{1f600}";
    assert_eq!(contents.len(), 11);
    let r = Response::new(HttpStatus::OK, Page::new("x".to_string(), None));
    let text = render_response(&r, contents);
    assert_eq!(text, format!("HTTP/1.1 200 OK\r\nContent-Length: 11\r\n\r\n{}", contents));
    let body = text.split("\r\n\r\n").nth(1).expect("a body");
    assert_eq!(body.as_bytes(), contents.as_bytes());
}

#[test]
fn content_length_of_the_rendered_body() {
    let a = args(&[("name", "World")]);
    let r = Response::new(HttpStatus::NotFound, Page::new("x".to_string(), Some(a)));
    assert_eq!(
        render_response(&r, "Hello {name}!"),
        "HTTP/1.1 404 NOT FOUND\r\nContent-Length: 12\r\n\r\nHello World!"
    );
}

#[test]
fn empty_body() {
    assert_eq!(format_response(HttpStatus::OK, ""), "HTTP/1.1 200 OK\r\nContent-Length: 0\r\n\r\n");
}

#[test]
fn long_body_length_is_written_in_full() {
    let body = "x".repeat(12345);
    let text = format_response(HttpStatus::OK, &body);
    assert!(text.starts_with("HTTP/1.1 200 OK\r\nContent-Length: 12345\r\n\r\nxxx"));
    assert_eq!(text.len(), "HTTP/1.1 200 OK\r\nContent-Length: 12345\r\n\r\n".len() + 12345);
}

#[test]
fn args_insert_get_and_overwrite() {
    let mut a = HtmlArgs::new();
    assert_eq!(a.len(), 0);
    assert_eq!(a.get("k"), None);
    assert_eq!(a.insert("k".to_string(), "1".to_string()), None);
    assert_eq!(a.insert("l".to_string(), "2".to_string()), None);
    assert_eq!(a.len(), 2);
    assert_eq!(a.insert("k".to_string(), "3".to_string()), Some("1".to_string()));
    assert_eq!(a.len(), 2);
    assert_eq!(a.get("k"), Some(&"3".to_string()));
    assert_eq!(a.get("l"), Some(&"2".to_string()));
    assert_eq!((a.key_at(0), a.value_at(0)), ("k", "3"));
    assert_eq!((a.key_at(1), a.value_at(1)), ("l", "2"));
    let b = a.clone();
    assert_eq!(b.len(), 2);
    assert_eq!(b.get("k"), Some(&"3".to_string()));
}

#[test]
fn error_page_becomes_a_page_with_the_error() {
    let e = ErrorPage::new("error.html".to_string(), "it broke".to_string());
    let p = Page::from(e);
    assert_eq!(p.template_path(), "error.html");
    let a = p.args().expect("args");
    assert_eq!(a.len(), 1);
    assert_eq!(a.get("error"), Some(&"it broke".to_string()));
    assert_eq!(render_page("<p>{error}</p>", p.args()), "<p>it broke</p>");
}

#[test]
fn error_response_becomes_an_ok_response() {
    let e = ErrorResponse::new(ErrorPage::new("error.html".to_string(), "it broke".to_string()));
    let r: Response = e.clone().into();
    assert_eq!(r.status(), HttpStatus::OK);
    assert_eq!(r.page().template_path(), "error.html");
    assert_eq!(
        render_response(&r, "{error}"),
        "HTTP/1.1 200 OK\r\nContent-Length: 8\r\n\r\nit broke"
    );
    assert_eq!(e, e.clone());
    assert_ne!(
        e,
        ErrorResponse::new(ErrorPage::new("error.html".to_string(), "other".to_string()))
    );
    assert_ne!(
        e,
        ErrorResponse::new(ErrorPage::new("other.html".to_string(), "it broke".to_string()))
    );
}

#[test]
fn not_found_response_becomes_an_ok_response() {
    let n = NotFoundResponse::new(Page::new("404.html".to_string(), None));
    let r = Response::from(n);
    assert_eq!(r.status(), HttpStatus::OK);
    assert_eq!(r.page().template_path(), "404.html");
    assert!(r.page().args().is_none());
    let copy = r.clone();
    assert_eq!(copy.page().template_path(), "404.html");
}
