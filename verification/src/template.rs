//! Rendering: a template's placeholders are replaced by a page's values, and
//! the body goes out behind a status line and its length.

use vstd::prelude::*;

use crate::http_server::status_text;
use crate::http_server::ConnectionHandlingError;
use crate::http_server::ConnectionHandlingResult;
use crate::html_args::HtmlArgs;
use crate::http_server::HttpStatus;
use crate::http_server::Response;
use crate::http_server::ResponseView;
use crate::text::chars_of;
use crate::text::decimal;
use crate::text::lemma_replace_absent;
use crate::text::occurs_in;
use crate::text::push_decimal;
use crate::text::replace_all;
use crate::text::replace_chars;
use crate::text::string_from_chars;

verus! {

/// The token that stands in a template for the value of `key`.
pub open spec fn placeholder(key: Seq<char>) -> Seq<char> {
    seq!['{'] + key + seq!['}']
}

/// `contents` after the placeholder of each key in `args` has been replaced
/// by the key's value, one key after the other in the order of `args`.
pub open spec fn substitute(contents: Seq<char>, args: Seq<(Seq<char>, Seq<char>)>) -> Seq<char>
    decreases args.len(),
{
    if args.len() == 0 {
        contents
    } else {
        substitute(replace_all(contents, placeholder(args[0].0), args[0].1), args.drop_first())
    }
}

/// The body of a page: the template's contents, filled with the page's
/// values if it has any.
pub open spec fn render(contents: Seq<char>, args: Option<Seq<(Seq<char>, Seq<char>)>>) -> Seq<
    char,
> {
    match args {
        Some(a) => substitute(contents, a),
        None => contents,
    }
}

/// The number of bytes that `body` takes on the wire.
pub open spec fn byte_len(body: Seq<char>) -> usize {
    vstd::utf8::encode_utf8(body).len() as usize
}

/// What goes out for a status and a body: the status line, the length of the
/// body in bytes, an empty line, and the body.
pub open spec fn response_text(status: HttpStatus, body: Seq<char>) -> Seq<char> {
    status_text(status) + "\r\nContent-Length: "@ + decimal(byte_len(body) as nat) + "\r\n\r\n"@
        + body
}

/// What goes out for a response whose template holds `contents`.
pub open spec fn rendered(response: ResponseView, contents: Seq<char>) -> Seq<char> {
    response_text(response.status_line, render(contents, response.page.args))
}

/// Without values a template passes through unchanged.
pub proof fn lemma_render_without_args(contents: Seq<char>)
    ensures
        render(contents, None) == contents,
        render(contents, Some(Seq::empty())) == contents,
{
}

/// A template that holds the placeholder of none of the keys passes through
/// unchanged: what is not named in `args` is left as it stands.
pub proof fn lemma_unnamed_placeholders_stay(
    contents: Seq<char>,
    args: Seq<(Seq<char>, Seq<char>)>,
)
    requires
        forall|i: int| 0 <= i < args.len() ==> !occurs_in(placeholder(#[trigger] args[i].0), contents),
    ensures
        substitute(contents, args) == contents,
    decreases args.len(),
{
    if args.len() > 0 {
        lemma_replace_absent(contents, placeholder(args[0].0), args[0].1);
        let rest = args.drop_first();
        assert forall|i: int| 0 <= i < rest.len() implies !occurs_in(
            placeholder(#[trigger] rest[i].0),
            contents,
        ) by {
            assert(rest[i] == args[i + 1]);
        }
        lemma_unnamed_placeholders_stay(contents, rest);
    }
}

/// A response without values goes out with the template's contents as its
/// body, byte for byte, and with their length in bytes as its length.
pub proof fn lemma_plain_page_round_trip(response: ResponseView, contents: Seq<char>)
    requires
        response.page.args is None,
    ensures
        rendered(response, contents) == status_text(response.status_line)
            + "\r\nContent-Length: "@ + decimal(vstd::utf8::encode_utf8(contents).len() as usize as nat)
            + "\r\n\r\n"@ + contents,
{
}

/// Fills a template with the values of `args`.
pub fn render_page(contents: &str, args: Option<&HtmlArgs>) -> (body: String)
    ensures
        body@ == render(
            contents@,
            match args {
                Some(a) => Some(a@),
                None => None,
            },
        ),
{
    match args {
        None => String::from_str(contents),
        Some(a) => {
            let mut text: Vec<char> = chars_of(contents);
            let n: usize = a.len();
            let mut i: usize = 0;
            proof {
                assert(a@.skip(0) =~= a@);
            }
            while i < n
                invariant
                    i <= n,
                    n == a@.len(),
                    substitute(contents@, a@) == substitute(text@, a@.skip(i as int)),
                decreases n - i,
            {
                let mut pattern: Vec<char> = Vec::new();
                pattern.push('{');
                let mut key: Vec<char> = chars_of(a.key_at(i));
                pattern.append(&mut key);
                pattern.push('}');
                let value: Vec<char> = chars_of(a.value_at(i));
                proof {
                    assert(pattern@ =~= placeholder(a@[i as int].0));
                    assert(a@.skip(i as int).drop_first() =~= a@.skip(i + 1));
                }
                text = replace_chars(&text, &pattern, &value);
                i += 1;
            }
            string_from_chars(&text)
        },
    }
}

/// Writes out a status and a body as the text of a response.
pub fn format_response(status: HttpStatus, body: &str) -> (text: String)
    ensures
        text@ == response_text(status, body@),
{
    let mut text: String = status.to_string();
    text.append("\r\nContent-Length: ");
    let mut length: Vec<char> = Vec::new();
    push_decimal(body.len(), &mut length);
    let length_text: String = string_from_chars(&length);
    text.append(length_text.as_str());
    text.append("\r\n\r\n");
    text.append(body);
    text
}

/// Renders a response whose template holds `contents`.
pub fn render_response(response: &Response, contents: &str) -> (text: String)
    ensures
        text@ == rendered(response@, contents@),
{
    let body: String = render_page(contents, response.page().args());
    format_response(response.status(), body.as_str())
}

/// Takes in what reading the template of `response` gave: with the contents
/// the response is rendered; a failure of the template store ends the
/// connection.
pub fn take_template(response: &Response, read: Result<String, std::io::Error>) -> (r: Result<
    String,
    ConnectionHandlingError,
>)
    ensures
        match read {
            Ok(contents) => r matches Ok(text) && text@ == rendered(response@, contents@),
            Err(e) => r == Err::<String, ConnectionHandlingError>(
                ConnectionHandlingError::IOError(e),
            ),
        },
{
    match read {
        Ok(contents) => Ok(render_response(response, contents.as_str())),
        Err(e) => Err(ConnectionHandlingError::IOError(e)),
    }
}

/// Takes in what writing the response gave: the connection is handled, or
/// the transport failed.
pub fn take_written(written: Result<(), std::io::Error>) -> (r: ConnectionHandlingResult)
    ensures
        match written {
            Ok(_) => r is Ok,
            Err(e) => r == Err::<(), ConnectionHandlingError>(ConnectionHandlingError::IOError(e)),
        },
{
    match written {
        Ok(_) => Ok(()),
        Err(e) => Err(ConnectionHandlingError::IOError(e)),
    }
}

} // verus!
