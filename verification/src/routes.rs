//! The routes that the server program registers.

use vstd::prelude::*;

use crate::dice_roll::english_text;
use crate::dice_roll::keep_clause_is_cut;
use crate::dice_roll::parse_dice;
use crate::dice_roll::DiceParse;
use crate::dice_roll::highest_total;
use crate::dice_roll::kept_count;
use crate::dice_roll::DiceRoll;
use crate::dice_roll::DiceRollView;
use crate::html_args::lemma_key_index_is;
use crate::html_args::HtmlArgs;
use crate::http_server::HttpStatus;
use crate::http_server::Page;
use crate::http_server::PageView;
use crate::http_server::QueryParseResult;
use crate::http_server::Response;
use crate::http_server::ResponseView;
use crate::numbers::numeral_value;
use crate::numbers::reads_within;
use crate::random::random_between;
use crate::registration::check_arg_count;
use crate::registration::finish_route;
use crate::registration::is_parse_failure;
use crate::registration::parse_failure;
use crate::registration::parse_failure_text;
use crate::registration::route_pattern;
use crate::registration::route_pattern_text;
use crate::registration::u32_argument;
use crate::registration::u64_argument;
use crate::registration::wrong_count_text;
use crate::text::views;
use crate::text::decimal;
use crate::text::decimal_string;

verus! {

/// The response that serves the template `page` as it stands.
pub open spec fn plain_response(page: Seq<char>) -> ResponseView {
    ResponseView { status_line: HttpStatus::OK, page: PageView { page, args: None } }
}

/// The response that shows a number drawn between `low` and `high`.
pub open spec fn random_response(low: u32, high: u32, drawn: u32) -> ResponseView {
    ResponseView {
        status_line: HttpStatus::OK,
        page: PageView {
            page: "pages/random.html"@,
            args: Some(
                seq![
                    ("result"@, decimal(drawn as nat)),
                    ("low"@, decimal(low as nat)),
                    ("high"@, decimal(high as nat)),
                ],
            ),
        },
    }
}

/// Serves the home page.
pub fn route_home() -> (r: QueryParseResult)
    ensures
        r matches Ok(response) && response@ == plain_response("pages/meow.html"@),
{
    Ok(Response::new(HttpStatus::OK, Page::new(String::from_str("pages/meow.html"), None)))
}

/// Serves a page whose template does not exist, so that rendering fails.
pub fn route_error() -> (r: QueryParseResult)
    ensures
        r matches Ok(response) && response@ == plain_response("pages/nonexistent.html"@),
{
    Ok(Response::new(HttpStatus::OK, Page::new(String::from_str("pages/nonexistent.html"), None)))
}

/// The response of the sleep route, once it has slept.
pub fn after_sleep() -> (r: QueryParseResult)
    ensures
        r matches Ok(response) && response@ == plain_response("pages/nonexistent.html"@),
{
    Ok(Response::new(HttpStatus::OK, Page::new(String::from_str("pages/nonexistent.html"), None)))
}

/// The page that reports `drawn` as the number drawn between `low` and
/// `high`.
pub fn random_page(low: u32, high: u32, drawn: u32) -> (response: Response)
    ensures
        response@ == random_response(low, high, drawn),
{
    let mut args = HtmlArgs::new();
    proof {
        reveal_strlit("result");
        reveal_strlit("low");
        reveal_strlit("high");
    }
    args.insert(String::from_str("result"), decimal_string(drawn as usize));
    proof {
        assert("result"@.len() != "low"@.len());
        lemma_key_index_is(args@, "low"@, 1);
    }
    args.insert(String::from_str("low"), decimal_string(low as usize));
    proof {
        assert("result"@.len() != "high"@.len());
        assert("low"@.len() != "high"@.len());
        lemma_key_index_is(args@, "high"@, 2);
    }
    args.insert(String::from_str("high"), decimal_string(high as usize));
    let response = Response::new(
        HttpStatus::OK,
        Page::new(String::from_str("pages/random.html"), Some(args)),
    );
    proof {
        assert(response@.page.args->0 =~= random_response(low, high, drawn).page.args->0);
    }
    response
}

/// Draws a number between `low` and `high` and serves the page that shows
/// it.
pub fn route_random(low: u32, high: u32) -> (r: QueryParseResult)
    requires
        low <= high,
    ensures
        r matches Ok(response) && exists|drawn: u32|
            low <= drawn <= high && response@ == #[trigger] random_response(low, high, drawn),
{
    let drawn: u32 = random_between(low, high);
    Ok(random_page(low, high, drawn))
}

/// The response that shows what the dice `roll` added up to.
pub open spec fn roll_response(roll: DiceRollView, rolled: u32) -> ResponseView {
    ResponseView {
        status_line: HttpStatus::OK,
        page: PageView {
            page: "pages/roll.html"@,
            args: Some(seq![("dice"@, english_text(roll)), ("result"@, decimal(rolled as nat))]),
        },
    }
}

/// The page that reports `rolled` as what `dice` added up to.
pub fn roll_page(dice: &DiceRoll, rolled: u32) -> (response: Response)
    ensures
        response@ == roll_response(dice@, rolled),
{
    let mut args = HtmlArgs::new();
    proof {
        reveal_strlit("dice");
        reveal_strlit("result");
    }
    args.insert(String::from_str("dice"), dice.to_english());
    proof {
        assert("dice"@.len() != "result"@.len());
        lemma_key_index_is(args@, "result"@, 1);
    }
    args.insert(String::from_str("result"), decimal_string(rolled as usize));
    let response = Response::new(
        HttpStatus::OK,
        Page::new(String::from_str("pages/roll.html"), Some(args)),
    );
    proof {
        assert(response@.page.args->0 =~= roll_response(dice@, rolled).page.args->0);
    }
    response
}

/// Rolls `dice` and serves the page that shows the total.
pub fn route_roll(dice: &DiceRoll) -> (r: QueryParseResult)
    requires
        highest_total(dice@) <= u32::MAX,
    ensures
        r matches Ok(response) && exists|rolled: u32|
            kept_count(dice@.dice_count as nat, dice@.roll_processing) <= rolled <= highest_total(
                dice@,
            ) && response@ == #[trigger] roll_response(dice@, rolled),
{
    let rolled: u32 = dice.roll();
    Ok(roll_page(dice, rolled))
}

/// What the handler of a route without arguments returns, whose function
/// serves the template `page`.
pub open spec fn plainly_handled(args: Seq<Seq<char>>, page: Seq<char>, r: QueryParseResult) -> bool {
    if args.len() == 0 {
        r matches Ok(response) && response@ == plain_response(page)
    } else {
        r matches Err(message) && message@ == wrong_count_text(0, args.len())
    }
}

/// The registered handler of the home route: it takes no arguments.
pub fn home_handler(args: Vec<String>) -> (r: QueryParseResult)
    ensures
        plainly_handled(views(args@), "pages/meow.html"@, r),
{
    match check_arg_count(&args, 0) {
        Err(message) => Err(message),
        Ok(_) => finish_route("/", route_home()),
    }
}

/// The registered handler of the error route: it takes no arguments.
pub fn error_route_handler(args: Vec<String>) -> (r: QueryParseResult)
    ensures
        plainly_handled(views(args@), "pages/nonexistent.html"@, r),
{
    match check_arg_count(&args, 0) {
        Err(message) => Err(message),
        Ok(_) => finish_route("/error", route_error()),
    }
}

/// The pattern of the sleep route.
pub open spec fn sleep_pattern() -> Seq<char> {
    route_pattern_text("/sleep"@, seq!["secs"@])
}

/// The seconds that the sleep route is asked to sleep: its one argument,
/// read as a number.
pub fn sleep_argument(args: &Vec<String>) -> (r: Result<u64, String>)
    ensures
        match r {
            Ok(secs) => args.len() == 1 && reads_within(args[0]@, u64::MAX as nat) && secs
                == numeral_value(args[0]@),
            Err(message) => if args.len() != 1 {
                message@ == wrong_count_text(1, args.len() as nat)
            } else {
                !reads_within(args[0]@, u64::MAX as nat) && is_parse_failure(
                    message@,
                    "secs"@,
                    sleep_pattern(),
                )
            },
        },
{
    match check_arg_count(args, 1) {
        Err(message) => Err(message),
        Ok(_) => {
            let mut names: Vec<String> = Vec::new();
            names.push(String::from_str("secs"));
            proof {
                assert(views(names@) =~= seq!["secs"@]);
            }
            let pattern: String = route_pattern("/sleep", &names);
            u64_argument(args[0].as_str(), "secs", pattern.as_str())
        },
    }
}

/// The pattern of the roll route.
pub open spec fn roll_pattern() -> Seq<char> {
    route_pattern_text("/roll"@, seq!["dice"@])
}

/// Whether the roll route can answer `args`: its one argument, if it is
/// there, can be cut, and the dice it asks for can be rolled.
pub open spec fn roll_can_be_handled(args: Seq<Seq<char>>) -> bool {
    args.len() == 1 ==> keep_clause_is_cut(args[0]) && (parse_dice(args[0]) matches DiceParse::Parsed(
        roll,
    ) ==> highest_total(roll) <= u32::MAX)
}

/// What the registered handler of the roll route returns.
pub open spec fn roll_handled(args: Seq<Seq<char>>, r: QueryParseResult) -> bool {
    if args.len() != 1 {
        r matches Err(message) && message@ == wrong_count_text(1, args.len())
    } else {
        match parse_dice(args[0]) {
            DiceParse::Parsed(roll) => r matches Ok(response) && exists|rolled: u32|
                kept_count(roll.dice_count as nat, roll.roll_processing) <= rolled
                    <= highest_total(roll) && response@ == #[trigger] roll_response(roll, rolled),
            DiceParse::Refused(cause) => r matches Err(message) && message@ == parse_failure_text(
                "dice"@,
                roll_pattern(),
                cause,
            ),
            DiceParse::BadCount(_) => r matches Err(message) && is_parse_failure(
                message@,
                "dice"@,
                roll_pattern(),
            ),
        }
    }
}

/// The registered handler of the roll route: its one argument is a roll
/// string.
pub fn roll_handler(args: Vec<String>) -> (r: QueryParseResult)
    requires
        roll_can_be_handled(views(args@)),
    ensures
        roll_handled(views(args@), r),
{
    match check_arg_count(&args, 1) {
        Err(message) => Err(message),
        Ok(_) => {
            let mut names: Vec<String> = Vec::new();
            names.push(String::from_str("dice"));
            proof {
                assert(views(names@) =~= seq!["dice"@]);
                assert(views(args@)[0] == args@[0]@);
            }
            let pattern: String = route_pattern("/roll", &names);
            match DiceRoll::parse(args[0].as_str()) {
                Err(e) => {
                    let cause: String = e.to_string();
                    let message: String = parse_failure("dice", pattern.as_str(), cause.as_str());
                    proof {
                        assert(message@ == parse_failure_text("dice"@, roll_pattern(), cause@));
                    }
                    Err(message)
                },
                Ok(dice) => finish_route("/roll", route_roll(&dice)),
            }
        },
    }
}

/// Answers `args` as the roll route does, where it can.
pub fn try_roll_handler(args: Vec<String>) -> (r: Option<QueryParseResult>)
    ensures
        r is Some <==> roll_can_be_handled(views(args@)),
        r matches Some(result) ==> roll_handled(views(args@), result),
{
    if args.len() == 1 {
        proof {
            assert(views(args@)[0] == args@[0]@);
        }
        if !DiceRoll::can_parse(args[0].as_str()) {
            return None;
        }
        match DiceRoll::parse(args[0].as_str()) {
            Ok(dice) => {
                if !dice.can_roll() {
                    return None;
                }
            },
            Err(_) => {},
        }
    }
    Some(roll_handler(args))
}

/// The pattern of the random route.
pub open spec fn random_pattern() -> Seq<char> {
    route_pattern_text("/random"@, seq!["low"@, "high"@])
}

/// Whether the random route can answer `args`: where both arguments are
/// numbers, the first is not above the second.
pub open spec fn random_can_be_handled(args: Seq<Seq<char>>) -> bool {
    args.len() == 2 && reads_within(args[0], u32::MAX as nat) && reads_within(
        args[1],
        u32::MAX as nat,
    ) ==> numeral_value(args[0]) <= numeral_value(args[1])
}

/// What the registered handler of the random route returns.
pub open spec fn random_handled(args: Seq<Seq<char>>, r: QueryParseResult) -> bool {
    if args.len() != 2 {
        r matches Err(message) && message@ == wrong_count_text(2, args.len())
    } else if !reads_within(args[0], u32::MAX as nat) {
        r matches Err(message) && is_parse_failure(message@, "low"@, random_pattern())
    } else if !reads_within(args[1], u32::MAX as nat) {
        r matches Err(message) && is_parse_failure(message@, "high"@, random_pattern())
    } else {
        r matches Ok(response) && exists|drawn: u32|
            numeral_value(args[0]) <= drawn <= numeral_value(args[1]) && response@
                == #[trigger] random_response(
                numeral_value(args[0]) as u32,
                numeral_value(args[1]) as u32,
                drawn,
            )
    }
}

/// The low and the high argument of the random route.
fn random_arguments(args: &Vec<String>) -> (r: Result<(u32, u32), String>)
    ensures
        match r {
            Ok((low, high)) => args.len() == 2 && reads_within(args[0]@, u32::MAX as nat)
                && reads_within(args[1]@, u32::MAX as nat) && low == numeral_value(args[0]@)
                && high == numeral_value(args[1]@),
            Err(message) => if args.len() != 2 {
                message@ == wrong_count_text(2, args.len() as nat)
            } else if !reads_within(args[0]@, u32::MAX as nat) {
                is_parse_failure(message@, "low"@, random_pattern())
            } else {
                !reads_within(args[1]@, u32::MAX as nat) && is_parse_failure(
                    message@,
                    "high"@,
                    random_pattern(),
                )
            },
        },
{
    match check_arg_count(args, 2) {
        Err(message) => Err(message),
        Ok(_) => {
            let mut names: Vec<String> = Vec::new();
            names.push(String::from_str("low"));
            names.push(String::from_str("high"));
            proof {
                assert(views(names@) =~= seq!["low"@, "high"@]);
            }
            let pattern: String = route_pattern("/random", &names);
            match u32_argument(args[0].as_str(), "low", pattern.as_str()) {
                Err(message) => Err(message),
                Ok(low) => match u32_argument(args[1].as_str(), "high", pattern.as_str()) {
                    Err(message) => Err(message),
                    Ok(high) => Ok((low, high)),
                },
            }
        },
    }
}

/// The registered handler of the random route: its two arguments are the
/// bounds of the draw.
pub fn random_handler(args: Vec<String>) -> (r: QueryParseResult)
    requires
        random_can_be_handled(views(args@)),
    ensures
        random_handled(views(args@), r),
{
    proof {
        if args.len() == 2 {
            assert(views(args@)[0] == args@[0]@);
            assert(views(args@)[1] == args@[1]@);
        }
    }
    match random_arguments(&args) {
        Err(message) => Err(message),
        Ok((low, high)) => finish_route("/random", route_random(low, high)),
    }
}

/// Answers `args` as the random route does, where it can.
pub fn try_random_handler(args: Vec<String>) -> (r: Option<QueryParseResult>)
    ensures
        r is Some <==> random_can_be_handled(views(args@)),
        r matches Some(result) ==> random_handled(views(args@), result),
{
    proof {
        if args.len() == 2 {
            assert(views(args@)[0] == args@[0]@);
            assert(views(args@)[1] == args@[1]@);
        }
    }
    match random_arguments(&args) {
        Ok((low, high)) => {
            if low > high {
                return None;
            }
        },
        Err(_) => {},
    }
    Some(random_handler(args))
}

} // verus!
