use werver::http_server::HttpStatus;
use werver::http_server::QueryParseResult;
use werver::http_server::Response;
use werver::dice_roll::DiceRoll;
use werver::routes::after_sleep;
use werver::routes::error_route_handler;
use werver::routes::home_handler;
use werver::routes::random_handler;
use werver::routes::random_page;
use werver::routes::roll_handler;
use werver::routes::roll_page;
use werver::routes::route_error;
use werver::routes::route_home;
use werver::routes::route_random;
use werver::routes::route_roll;
use werver::routes::sleep_argument;
use werver::routes::try_random_handler;
use werver::routes::try_roll_handler;

fn strings(v: &[&str]) -> Vec<String> {
    v.iter().map(|s| s.to_string()).collect()
}

fn plain(r: QueryParseResult, page: &str) {
    let r = r.expect("a response");
    assert_eq!(r.status(), HttpStatus::OK);
    assert_eq!(r.page().template_path(), page);
    assert!(r.page().args().is_none());
}

fn arg(r: &Response, key: &str) -> String {
    r.page().args().expect("args").get(key).expect("the key").clone()
}

fn dice(s: &str) -> DiceRoll {
    assert!(DiceRoll::can_parse(s));
    DiceRoll::parse(s).ok().expect("dice")
}

#[test]
fn home_and_error_pages() {
    plain(route_home(), "pages/meow.html");
    plain(route_error(), "pages/nonexistent.html");
    plain(after_sleep(), "pages/nonexistent.html");
    plain(home_handler(Vec::new()), "pages/meow.html");
    plain(error_route_handler(Vec::new()), "pages/nonexistent.html");
}

#[test]
fn routes_without_arguments_refuse_arguments() {
    assert_eq!(
        home_handler(strings(&[""])).err(),
        Some("Incorrect number of arguments given (expected 0, got 1)".to_string())
    );
    assert_eq!(
        error_route_handler(strings(&["a", "b"])).err(),
        Some("Incorrect number of arguments given (expected 0, got 2)".to_string())
    );
}

#[test]
fn sleep_route_reads_its_seconds() {
    assert_eq!(sleep_argument(&strings(&["3"])), Ok(3));
    assert_eq!(sleep_argument(&strings(&["0"])), Ok(0));
    assert_eq!(
        sleep_argument(&strings(&[])),
        Err("Incorrect number of arguments given (expected 1, got 0)".to_string())
    );
    assert_eq!(
        sleep_argument(&strings(&["soon"])),
        Err(format!(
            "Failed to parse argument `secs` in route `/sleep/{{secs}}`: {}",
            "soon".parse::<u64>().unwrap_err()
        ))
    );
}

#[test]
fn random_page_shows_the_numbers() {
    let r = random_page(1, 20, 17);
    assert_eq!(r.status(), HttpStatus::OK);
    assert_eq!(r.page().template_path(), "pages/random.html");
    let a = r.page().args().expect("args");
    assert_eq!(a.len(), 3);
    assert_eq!((a.key_at(0), a.value_at(0)), ("result", "17"));
    assert_eq!((a.key_at(1), a.value_at(1)), ("low", "1"));
    assert_eq!((a.key_at(2), a.value_at(2)), ("high", "20"));
}

#[test]
fn random_route_draws_within_the_bounds() {
    for _ in 0..100 {
        let r = route_random(5, 8).expect("a response");
        let drawn: u32 = arg(&r, "result").parse().expect("a number");
        assert!((5..=8).contains(&drawn));
        assert_eq!(arg(&r, "low"), "5");
        assert_eq!(arg(&r, "high"), "8");
    }
    let r = route_random(9, 9).expect("a response");
    assert_eq!(arg(&r, "result"), "9");
    let r = route_random(0, u32::MAX).expect("a response");
    assert_eq!(arg(&r, "high"), "4294967295");
}

#[test]
fn random_route_draws_vary() {
    let first = arg(&route_random(0, u32::MAX).expect("a response"), "result");
    assert!((0..50).any(|_| arg(&route_random(0, u32::MAX).expect("a response"), "result") != first));
}

#[test]
fn random_handler_reads_its_arguments() {
    let r = random_handler(strings(&["1", "20"])).expect("a response");
    let drawn: u32 = arg(&r, "result").parse().expect("a number");
    assert!((1..=20).contains(&drawn));
    assert_eq!(
        random_handler(strings(&["1"])).err(),
        Some("Incorrect number of arguments given (expected 2, got 1)".to_string())
    );
    assert_eq!(
        random_handler(strings(&["1", ""])).err(),
        Some(format!(
            "Failed to parse argument `high` in route `/random/{{low}}/{{high}}`: {}",
            "".parse::<u32>().unwrap_err()
        ))
    );
    assert_eq!(
        random_handler(strings(&["x", "y"])).err(),
        Some(format!(
            "Failed to parse argument `low` in route `/random/{{low}}/{{high}}`: {}",
            "x".parse::<u32>().unwrap_err()
        ))
    );
}

#[test]
fn random_handler_cannot_draw_from_an_empty_range() {
    assert!(try_random_handler(strings(&["5", "1"])).is_none());
    assert!(try_random_handler(strings(&["5", "5"])).expect("handled").is_ok());
    assert!(try_random_handler(strings(&["5", "x"])).expect("handled").is_err());
    assert!(try_random_handler(strings(&["5"])).expect("handled").is_err());
}

#[test]
fn roll_page_shows_the_dice() {
    let d = dice("4d6kh3");
    let r = roll_page(&d, 12);
    assert_eq!(r.page().template_path(), "pages/roll.html");
    let a = r.page().args().expect("args");
    assert_eq!(a.len(), 2);
    assert_eq!((a.key_at(0), a.value_at(0)), ("dice", "4 d6, keeping highest 3 rolls"));
    assert_eq!((a.key_at(1), a.value_at(1)), ("result", "12"));
}

#[test]
fn roll_route_rolls_the_dice() {
    let d = dice("2d6");
    for _ in 0..50 {
        let r = route_roll(&d).expect("a response");
        let rolled: u32 = arg(&r, "result").parse().expect("a number");
        assert!((2..=12).contains(&rolled));
        assert_eq!(arg(&r, "dice"), "2 d6");
    }
}

#[test]
fn roll_handler_reads_its_argument() {
    let r = roll_handler(strings(&["d4"])).expect("a response");
    assert_eq!(arg(&r, "dice"), "1 d4");
    assert_eq!(
        roll_handler(strings(&["2d7"])).err(),
        Some("Failed to parse argument `dice` in route `/roll/{dice}`: Unknown dice type: 7".to_string())
    );
    assert_eq!(
        roll_handler(strings(&["2d6", "x"])).err(),
        Some("Incorrect number of arguments given (expected 1, got 2)".to_string())
    );
}

#[test]
fn roll_handler_cannot_answer_everything() {
    assert!(try_roll_handler(strings(&["2d6k"])).is_none());
    assert!(try_roll_handler(strings(&["42949673d100"])).is_none());
    assert!(try_roll_handler(strings(&["2d6kh1"])).expect("handled").is_ok());
    assert!(try_roll_handler(strings(&["nonsense"])).expect("handled").is_err());
    assert!(try_roll_handler(strings(&[])).expect("handled").is_err());
}
