//! The request line: three tokens separated by single spaces, of which the
//! first names the method and the second the path.

use vstd::prelude::*;

use crate::http_server::is_get;
use crate::http_server::uppercase_of;
use crate::http_server::ConnectionHandlingError;
use crate::http_server::RequestType;
use crate::text::chars_of;
use crate::text::split_chars;
use crate::text::split_on;
use crate::text::views;

verus! {

/// The message for a stream that ended before any request line.
pub open spec fn empty_stream_message() -> Seq<char> {
    "Empty incoming TCP stream"@
}

/// The message for a request line that does not hold three tokens.
pub open spec fn malformed_line_message() -> Seq<char> {
    "Malformed request line"@
}

/// The message for a request line whose method `token` is not supported.
pub open spec fn unknown_type_message(token: Seq<char>) -> Seq<char> {
    "Unknown request type: "@ + token
}

/// What a request line asks for: the method and the path, or the message
/// that says why the line is malformed.
pub open spec fn parse_request(line: Seq<char>) -> Result<(RequestType, Seq<char>), Seq<char>> {
    let tokens = split_on(line, ' ');
    if tokens.len() != 3 {
        Err(malformed_line_message())
    } else if !is_get(uppercase_of(tokens[0])) {
        Err(unknown_type_message(tokens[0]))
    } else {
        Ok((RequestType::GET, tokens[1]))
    }
}

/// Whether `r` is what parsing `line` gives.
pub open spec fn is_parse_of(
    r: Result<(RequestType, String), ConnectionHandlingError>,
    line: Seq<char>,
) -> bool {
    match parse_request(line) {
        Ok((request_type, path)) => r matches Ok((t, p)) && t == request_type && p@ == path,
        Err(message) => r matches Err(ConnectionHandlingError::MalformedRequest(m)) && m@
            == message,
    }
}

/// Parses a request line into its method and path.
pub fn parse_request_line(line: &str) -> (r: Result<(RequestType, String), ConnectionHandlingError>)
    ensures
        is_parse_of(r, line@),
{
    let chars: Vec<char> = chars_of(line);
    let tokens: Vec<String> = split_chars(&chars, ' ');
    if tokens.len() != 3 {
        return Err(
            ConnectionHandlingError::MalformedRequest(String::from_str("Malformed request line")),
        );
    }
    assert(views(tokens@)[0] == tokens@[0]@);
    assert(views(tokens@)[1] == tokens@[1]@);
    match RequestType::parse(tokens[0].as_str()) {
        Ok(request_type) => Ok((request_type, tokens[1].clone())),
        Err(_) => {
            let mut message: String = String::from_str("Unknown request type: ");
            message.append(tokens[0].as_str());
            Err(ConnectionHandlingError::MalformedRequest(message))
        },
    }
}

/// The first of the lines read from a connection, which is its request line.
pub fn request_line(lines: &Vec<String>) -> (r: Result<&String, ConnectionHandlingError>)
    ensures
        match r {
            Ok(line) => lines.len() > 0 && line == lines[0],
            Err(e) => lines.len() == 0 && (e matches ConnectionHandlingError::MalformedRequest(m)
                && m@ == empty_stream_message()),
        },
{
    if lines.len() > 0 {
        Ok(&lines[0])
    } else {
        Err(ConnectionHandlingError::MalformedRequest(String::from_str("Empty incoming TCP stream")))
    }
}

/// Takes in one line read from a connection. A line that is not empty joins
/// `lines`, and reading goes on; the first empty line ends the reading.
pub fn keep_line(lines: &mut Vec<String>, line: String) -> (more: bool)
    ensures
        more == (line@.len() > 0),
        more ==> final(lines)@ == old(lines)@.push(line),
        !more ==> final(lines)@ == old(lines)@,
{
    if line.as_str().is_empty() {
        false
    } else {
        lines.push(line);
        true
    }
}

/// Takes in what reading the next line of a connection gave: a line, a
/// failure of the transport, or nothing at the end of the stream. Reading
/// goes on after a line that is not empty; a failure ends the connection.
pub fn take_line(lines: &mut Vec<String>, read: Option<Result<String, std::io::Error>>) -> (r:
    Result<bool, ConnectionHandlingError>)
    ensures
        match read {
            Some(Ok(line)) => {
                &&& r == Ok::<bool, ConnectionHandlingError>(line@.len() > 0)
                &&& line@.len() > 0 ==> final(lines)@ == old(lines)@.push(line)
                &&& line@.len() == 0 ==> final(lines)@ == old(lines)@
            },
            Some(Err(e)) => {
                &&& r == Err::<bool, ConnectionHandlingError>(ConnectionHandlingError::IOError(e))
                &&& final(lines)@ == old(lines)@
            },
            None => {
                &&& r == Ok::<bool, ConnectionHandlingError>(false)
                &&& final(lines)@ == old(lines)@
            },
        },
{
    match read {
        Some(Ok(line)) => Ok(keep_line(lines, line)),
        Some(Err(e)) => Err(ConnectionHandlingError::IOError(e)),
        None => Ok(false),
    }
}

} // verus!
