use werver::registration::check_arg_count;
use werver::registration::finish_route;
use werver::registration::handler_failure;
use werver::registration::parse_failure;
use werver::registration::route_pattern;
use werver::registration::u32_argument;
use werver::registration::u64_argument;
use werver::http_server::HttpStatus;
use werver::http_server::Page;
use werver::http_server::Response;
use werver::text::chars_of;
use werver::text::decimal_string;
use werver::text::find_char;
use werver::text::occurs_at;
use werver::text::push_decimal;
use werver::text::replace_chars;
use werver::text::same_chars;
use werver::text::slice_of;
use werver::text::split_chars;

fn chars(s: &str) -> Vec<char> {
    s.chars().collect()
}

fn strings(v: &[&str]) -> Vec<String> {
    v.iter().map(|s| s.to_string()).collect()
}

#[test]
fn characters_of_a_string() {
    assert_eq!(chars_of("h\u{e9}!"), vec!['h', '\u{e9}', '!']);
    assert_eq!(chars_of(""), Vec::<char>::new());
}

#[test]
fn decimal_numerals() {
    assert_eq!(decimal_string(0), "0");
    assert_eq!(decimal_string(7), "7");
    assert_eq!(decimal_string(10), "10");
    assert_eq!(decimal_string(1905), "1905");
    assert_eq!(decimal_string(usize::MAX), usize::MAX.to_string());
    let mut out = chars("n=");
    push_decimal(420, &mut out);
    assert_eq!(out, chars("n=420"));
}

#[test]
fn finding_a_character() {
    let s = chars("a/b/c");
    assert_eq!(find_char(&s, '/', 0), 1);
    assert_eq!(find_char(&s, '/', 1), 1);
    assert_eq!(find_char(&s, '/', 2), 3);
    assert_eq!(find_char(&s, '/', 4), 5);
    assert_eq!(find_char(&s, '/', 5), 5);
    assert_eq!(find_char(&s, 'x', 0), 5);
}

#[test]
fn splitting_keeps_empty_pieces() {
    assert_eq!(split_chars(&chars("a b c"), ' '), strings(&["a", "b", "c"]));
    assert_eq!(split_chars(&chars(""), ' '), strings(&[""]));
    assert_eq!(split_chars(&chars(" "), ' '), strings(&["", ""]));
    assert_eq!(split_chars(&chars("a  b "), ' '), strings(&["a", "", "b", ""]));
    assert_eq!(split_chars(&chars("abc"), ' '), strings(&["abc"]));
}

#[test]
fn splitting_agrees_with_the_standard_library() {
    for s in ["", "/", "//", "/a//b/", "a", "a/b", "/1/20", "\u{e9}/\u{fc}"] {
        let expected: Vec<String> = s.split('/').map(String::from).collect();
        assert_eq!(split_chars(&chars(s), '/'), expected);
    }
}

#[test]
fn replacing_agrees_with_the_standard_library() {
    let cases = [
        ("aaaa", "aa", "b"),
        ("aaa", "aa", "b"),
        ("abcabc", "bc", ""),
        ("abc", "abcd", "x"),
        ("", "a", "b"),
        ("{a}{a", "{a}", "{a}{a}"),
        ("ababab", "aba", "c"),
    ];
    for (s, pat, to) in cases {
        assert_eq!(replace_chars(&chars(s), &chars(pat), &chars(to)), chars(&s.replace(pat, to)));
    }
}

#[test]
fn replacing_an_empty_pattern_changes_nothing() {
    assert_eq!(replace_chars(&chars("abc"), &chars(""), &chars("x")), chars("abc"));
}

#[test]
fn pattern_at_a_position() {
    let s = chars("hello");
    assert!(occurs_at(&s, &chars("ell"), 1));
    assert!(!occurs_at(&s, &chars("ell"), 0));
    assert!(!occurs_at(&s, &chars("lo!"), 3));
    assert!(occurs_at(&s, &chars(""), 5));
    assert!(same_chars(&chars("ab"), &chars("ab")));
    assert!(!same_chars(&chars("ab"), &chars("abc")));
    assert!(!same_chars(&chars("ab"), &chars("ac")));
    assert_eq!(slice_of(&s, 1, 3), chars("el"));
    assert_eq!(slice_of(&s, 2, 2), chars(""));
}

#[test]
fn route_patterns() {
    assert_eq!(route_pattern("/random", &strings(&["low", "high"])), "/random/{low}/{high}");
    assert_eq!(route_pattern("/roll", &strings(&["dice"])), "/roll/{dice}");
    assert_eq!(route_pattern("/home", &strings(&[])), "/home/");
}

#[test]
fn argument_count() {
    assert_eq!(check_arg_count(&strings(&["1", "2"]), 2), Ok(()));
    assert_eq!(check_arg_count(&strings(&[]), 0), Ok(()));
    assert_eq!(
        check_arg_count(&strings(&["1", "2", ""]), 2),
        Err("Incorrect number of arguments given (expected 2, got 3)".to_string())
    );
    assert_eq!(
        check_arg_count(&strings(&[]), 1),
        Err("Incorrect number of arguments given (expected 1, got 0)".to_string())
    );
}

#[test]
fn failure_messages() {
    assert_eq!(
        parse_failure("low", "/random/{low}/{high}", "invalid digit found in string"),
        "Failed to parse argument `low` in route `/random/{low}/{high}`: invalid digit found in string"
    );
    assert_eq!(handler_failure("/roll", "oops"), "Error handling route `/roll`: oops");
}

#[test]
fn finishing_a_route() {
    let ok = finish_route("/x", Ok(Response::new(HttpStatus::OK, Page::new("p".to_string(), None))));
    assert_eq!(ok.expect("a response").page().template_path(), "p");
    let failed = finish_route("/x", Err("oops".to_string()));
    assert_eq!(failed.err(), Some("Error handling route `/x`: oops".to_string()));
}

#[test]
fn number_arguments() {
    assert_eq!(u32_argument("12", "low", "/r/{low}"), Ok(12));
    assert_eq!(u32_argument("+7", "low", "/r/{low}"), Ok(7));
    assert_eq!(u32_argument("007", "low", "/r/{low}"), Ok(7));
    assert_eq!(u32_argument("4294967295", "low", "/r/{low}"), Ok(u32::MAX));
    assert_eq!(u64_argument("4294967296", "secs", "/s/{secs}"), Ok(4294967296));
    assert_eq!(u64_argument("18446744073709551615", "secs", "/s/{secs}"), Ok(u64::MAX));
    for bad in ["", "+", "-1", "1 ", " 1", "1_0", "x", "4294967296", "1.5"] {
        let message = u32_argument(bad, "low", "/r/{low}").expect_err("no number");
        assert!(message.starts_with("Failed to parse argument `low` in route `/r/{low}`: "), "{}", message);
    }
    assert_eq!(
        u32_argument("x", "low", "/r/{low}"),
        Err(format!("Failed to parse argument `low` in route `/r/{{low}}`: {}", "x".parse::<u32>().unwrap_err()))
    );
    assert!(u64_argument("18446744073709551616", "secs", "/s/{secs}").is_err());
}
