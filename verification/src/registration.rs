//! What a registered handler does around the function it wraps: it counts
//! the arguments, names the argument that does not parse, and says which
//! route a failure came from.

use vstd::prelude::*;

use crate::http_server::QueryParseResult;
use crate::numbers::int_error_text;
use crate::numbers::numeral_value;
use crate::numbers::parse_u32;
use crate::numbers::reads_within;
use crate::numbers::parse_u64;
use crate::template::placeholder;
use crate::text::decimal;
use crate::text::decimal_string;
use crate::text::joined;
use crate::text::views;

verus! {

/// Trusted: `itertools::join` on the strings of `items`. It writes the first
/// item and then, for each further item, `sep` and the item; without items
/// the result is empty.
#[verifier::external_body]
fn join_strings(items: &Vec<String>, sep: &str) -> (text: String)
    ensures
        text@ == joined(views(items@), sep@),
{
    itertools::join(items, sep)
}

/// The placeholders of `names`, in order.
pub open spec fn placeholders(names: Seq<Seq<char>>) -> Seq<Seq<char>> {
    Seq::new(names.len(), |i: int| placeholder(names[i]))
}

/// The pattern by which a route is named in messages: its prefix, a `/`, and
/// the placeholders of its arguments with `/` between them.
pub open spec fn route_pattern_text(prefix: Seq<char>, names: Seq<Seq<char>>) -> Seq<char> {
    prefix + "/"@ + joined(placeholders(names), "/"@)
}

/// The message for a handler that was given `got` arguments in place of
/// `expected`.
pub open spec fn wrong_count_text(expected: nat, got: nat) -> Seq<char> {
    "Incorrect number of arguments given (expected "@ + decimal(expected) + ", got "@ + decimal(
        got,
    ) + ")"@
}

/// The message for an argument that does not parse.
pub open spec fn parse_failure_text(name: Seq<char>, pattern: Seq<char>, cause: Seq<char>) -> Seq<
    char,
> {
    "Failed to parse argument `"@ + name + "` in route `"@ + pattern + "`: "@ + cause
}

/// The message for a handler that failed.
pub open spec fn handler_failure_text(prefix: Seq<char>, cause: Seq<char>) -> Seq<char> {
    "Error handling route `"@ + prefix + "`: "@ + cause
}

/// The pattern of the route registered under `prefix` whose handler takes
/// the arguments `arg_names`.
pub fn route_pattern(prefix: &str, arg_names: &Vec<String>) -> (pattern: String)
    ensures
        pattern@ == route_pattern_text(prefix@, views(arg_names@)),
{
    let mut tokens: Vec<String> = Vec::new();
    let mut i: usize = 0;
    while i < arg_names.len()
        invariant
            i <= arg_names.len(),
            views(tokens@) == placeholders(views(arg_names@)).take(i as int),
        decreases arg_names.len() - i,
    {
        let ghost before = views(tokens@);
        let mut token: String = String::from_str("{");
        token.append(arg_names[i].as_str());
        token.append("}");
        proof {
            reveal_strlit("{");
            reveal_strlit("}");
            assert(token@ =~= placeholder(arg_names@[i as int]@));
        }
        tokens.push(token);
        proof {
            assert(views(tokens@) =~= before.push(token@));
            assert(views(tokens@) =~= placeholders(views(arg_names@)).take(i + 1));
        }
        i += 1;
    }
    proof {
        assert(views(tokens@) =~= placeholders(views(arg_names@)));
    }
    let mut pattern: String = String::from_str(prefix);
    pattern.append("/");
    let list: String = join_strings(&tokens, "/");
    pattern.append(list.as_str());
    pattern
}

/// Checks that a handler was given as many arguments as it takes.
pub fn check_arg_count(args: &Vec<String>, expected: usize) -> (r: Result<(), String>)
    ensures
        match r {
            Ok(_) => args.len() == expected,
            Err(message) => args.len() != expected && message@ == wrong_count_text(
                expected as nat,
                args.len() as nat,
            ),
        },
{
    if args.len() == expected {
        Ok(())
    } else {
        let mut message: String = String::from_str("Incorrect number of arguments given (expected ");
        message.append(decimal_string(expected).as_str());
        message.append(", got ");
        message.append(decimal_string(args.len()).as_str());
        message.append(")");
        Err(message)
    }
}

/// The message for the argument `name` of the route `pattern` that does not
/// parse, for the reason `cause`.
pub fn parse_failure(name: &str, pattern: &str, cause: &str) -> (message: String)
    ensures
        message@ == parse_failure_text(name@, pattern@, cause@),
{
    let mut message: String = String::from_str("Failed to parse argument `");
    message.append(name);
    message.append("` in route `");
    message.append(pattern);
    message.append("`: ");
    message.append(cause);
    message
}

/// The message for the handler of the route under `prefix` that failed for
/// the reason `cause`.
pub fn handler_failure(prefix: &str, cause: &str) -> (message: String)
    ensures
        message@ == handler_failure_text(prefix@, cause@),
{
    let mut message: String = String::from_str("Error handling route `");
    message.append(prefix);
    message.append("`: ");
    message.append(cause);
    message
}

/// What a registered handler returns for the result of the function it
/// wraps: a failure is reported under the route's prefix.
pub open spec fn finished(prefix: Seq<char>, result: QueryParseResult, r: QueryParseResult) -> bool {
    match result {
        Ok(response) => r == Ok::<crate::http_server::Response, String>(response),
        Err(cause) => r matches Err(message) && message@ == handler_failure_text(prefix, cause@),
    }
}

/// Passes a response on, and reports a failure under the route's prefix.
pub fn finish_route(prefix: &str, result: QueryParseResult) -> (r: QueryParseResult)
    ensures
        finished(prefix@, result, r),
{
    match result {
        Ok(response) => Ok(response),
        Err(cause) => Err(handler_failure(prefix, cause.as_str())),
    }
}

/// Whether `message` reports that the argument `name` of the route `pattern`
/// does not parse.
pub open spec fn is_parse_failure(message: Seq<char>, name: Seq<char>, pattern: Seq<char>) -> bool {
    exists|cause: Seq<char>| message == #[trigger] parse_failure_text(name, pattern, cause)
}

/// Reads the argument `name` of the route `pattern` as a number of 32 bits.
pub fn u32_argument(arg: &str, name: &str, pattern: &str) -> (r: Result<u32, String>)
    ensures
        match r {
            Ok(n) => reads_within(arg@, u32::MAX as nat) && n == numeral_value(arg@),
            Err(message) => !reads_within(arg@, u32::MAX as nat) && is_parse_failure(message@, name@, pattern@),
        },
{
    match parse_u32(arg) {
        Ok(n) => Ok(n),
        Err(e) => {
            let cause: String = int_error_text(&e);
            let message: String = parse_failure(name, pattern, cause.as_str());
            proof {
                assert(message@ == parse_failure_text(name@, pattern@, cause@));
            }
            Err(message)
        },
    }
}

/// Reads the argument `name` of the route `pattern` as a number of 64 bits.
pub fn u64_argument(arg: &str, name: &str, pattern: &str) -> (r: Result<u64, String>)
    ensures
        match r {
            Ok(n) => reads_within(arg@, u64::MAX as nat) && n == numeral_value(arg@),
            Err(message) => !reads_within(arg@, u64::MAX as nat) && is_parse_failure(message@, name@, pattern@),
        },
{
    match parse_u64(arg) {
        Ok(n) => Ok(n),
        Err(e) => {
            let cause: String = int_error_text(&e);
            let message: String = parse_failure(name, pattern, cause.as_str());
            proof {
                assert(message@ == parse_failure_text(name@, pattern@, cause@));
            }
            Err(message)
        },
    }
}

} // verus!
