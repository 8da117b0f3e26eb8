//! Responses and their wire format: a status line, a `Content-Length`
//! header that gives the length of the body in bytes, a blank line, and the
//! body.

use crate::path::RoutePath;
use vstd::prelude::*;
use vstd::string::StringSliceAdditionalSpecFns;
use vstd::utf8::{encode_utf8, is_ascii_chars, is_ascii_chars_concat};

verus! {

/// The statuses a response can carry.
#[derive(Debug, Clone, Copy, PartialEq, Eq, Structural)]
pub enum Status {
    Success,
    NotFound,
    InternalServerError,
}

/// The status line of a response that succeeded.
pub const STATUS_LINE_OK: &'static str = "HTTP/1.1 200 OK\r\n";

/// The status line of a response to a request for an unknown path.
pub const STATUS_LINE_NOT_FOUND: &'static str = "HTTP/1.1 404 Not Found\r\n";

/// The status line of the response sent for a handler that failed.
pub const STATUS_LINE_SERVER_ERROR: &'static str = "HTTP/1.1 500 Internal Server Error\r\n";

/// The name of the one header every response carries.
pub const CONTENT_LENGTH: &'static str = "Content-Length: ";

/// The end of the header line, and the blank line behind it.
pub const END_OF_HEAD: &'static str = "\r\n\r\n";

/// The status line of `status`, line end included.
pub open spec fn status_line(status: Status) -> Seq<char> {
    match status {
        Status::Success => STATUS_LINE_OK@,
        Status::NotFound => STATUS_LINE_NOT_FOUND@,
        Status::InternalServerError => STATUS_LINE_SERVER_ERROR@,
    }
}

/// The decimal digit that stands for `value`, which is below ten.
pub open spec fn digit(value: nat) -> char {
    if value == 0 {
        '0'
    } else if value == 1 {
        '1'
    } else if value == 2 {
        '2'
    } else if value == 3 {
        '3'
    } else if value == 4 {
        '4'
    } else if value == 5 {
        '5'
    } else if value == 6 {
        '6'
    } else if value == 7 {
        '7'
    } else if value == 8 {
        '8'
    } else {
        '9'
    }
}

/// `number` in decimal, without leading zeros.
pub open spec fn decimal(number: nat) -> Seq<char>
    decreases number,
{
    if number < 10 {
        seq![digit(number)]
    } else {
        decimal(number / 10).push(digit(number % 10))
    }
}

/// The head of a response with `status` whose body is `length` bytes long.
pub open spec fn head(status: Status, length: nat) -> Seq<char> {
    status_line(status) + CONTENT_LENGTH@ + decimal(length) + END_OF_HEAD@
}

/// A response on the wire: the head in UTF-8, then the body as it is.
pub open spec fn wire_format(status: Status, body: Seq<u8>) -> Seq<u8> {
    encode_utf8(head(status, body.len())) + body
}

/// A decimal numeral is made of ASCII digits.
pub proof fn lemma_decimal_is_ascii(number: nat)
    ensures
        is_ascii_chars(decimal(number)),
        decimal(number).len() > 0,
    decreases number,
{
    if number >= 10 {
        lemma_decimal_is_ascii(number / 10);
    }
}

/// The head of every response is plain ASCII, so on the wire it takes one
/// byte for each of its characters.
pub proof fn lemma_head_is_ascii(status: Status, length: nat)
    ensures
        is_ascii_chars(head(status, length)),
        encode_utf8(head(status, length)).len() == head(status, length).len(),
{
    reveal_strlit("HTTP/1.1 200 OK\r\n");
    reveal_strlit("HTTP/1.1 404 Not Found\r\n");
    reveal_strlit("HTTP/1.1 500 Internal Server Error\r\n");
    reveal_strlit("Content-Length: ");
    reveal_strlit("\r\n\r\n");
    lemma_decimal_is_ascii(length);
    let line = status_line(status);
    assert(is_ascii_chars(line));
    assert(is_ascii_chars(CONTENT_LENGTH@));
    assert(is_ascii_chars(END_OF_HEAD@));
    is_ascii_chars_concat(line + CONTENT_LENGTH@, line, CONTENT_LENGTH@);
    is_ascii_chars_concat(
        line + CONTENT_LENGTH@ + decimal(length),
        line + CONTENT_LENGTH@,
        decimal(length),
    );
    is_ascii_chars_concat(
        head(status, length),
        line + CONTENT_LENGTH@ + decimal(length),
        END_OF_HEAD@,
    );
    vstd::utf8::is_ascii_chars_encode_utf8(head(status, length));
}

/// The text of one decimal digit.
fn digit_text(value: usize) -> (text: &'static str)
    requires
        value < 10,
    ensures
        text@ == seq![digit(value as nat)],
{
    proof {
        reveal_strlit("0");
        reveal_strlit("1");
        reveal_strlit("2");
        reveal_strlit("3");
        reveal_strlit("4");
        reveal_strlit("5");
        reveal_strlit("6");
        reveal_strlit("7");
        reveal_strlit("8");
        reveal_strlit("9");
    }
    let text = if value == 0 {
        "0"
    } else if value == 1 {
        "1"
    } else if value == 2 {
        "2"
    } else if value == 3 {
        "3"
    } else if value == 4 {
        "4"
    } else if value == 5 {
        "5"
    } else if value == 6 {
        "6"
    } else if value == 7 {
        "7"
    } else if value == 8 {
        "8"
    } else {
        "9"
    };
    assert(text@ =~= seq![digit(value as nat)]);
    text
}

/// `number` written in decimal.
pub fn decimal_text(number: usize) -> (text: String)
    ensures
        text@ == decimal(number as nat),
    decreases number,
{
    if number < 10 {
        String::from_str(digit_text(number))
    } else {
        let mut text = decimal_text(number / 10);
        text.append(digit_text(number % 10));
        text
    }
}

impl Status {
    /// The status line, line end included.
    pub fn line(self) -> (text: &'static str)
        ensures
            text@ == status_line(self),
    {
        match self {
            Status::Success => STATUS_LINE_OK,
            Status::NotFound => STATUS_LINE_NOT_FOUND,
            Status::InternalServerError => STATUS_LINE_SERVER_ERROR,
        }
    }

    /// The three-digit code of the status.
    pub fn code(self) -> (code: u16)
        ensures
            code == match self {
                Status::Success => 200u16,
                Status::NotFound => 404u16,
                Status::InternalServerError => 500u16,
            },
    {
        match self {
            Status::Success => 200,
            Status::NotFound => 404,
            Status::InternalServerError => 500,
        }
    }
}

/// A status and a body, ready to be sent.
#[derive(Debug, PartialEq, Eq)]
pub struct Response {
    pub status: Status,
    pub body: Vec<u8>,
}

impl Response {
    /// The response as the bytes to write to the connection.
    pub fn to_bytes(&self) -> (bytes: Vec<u8>)
        ensures
            bytes@ == wire_format(self.status, self.body@),
    {
        let mut text = String::from_str(self.status.line());
        text.append(CONTENT_LENGTH);
        text.append(decimal_text(self.body.len()).as_str());
        text.append(END_OF_HEAD);
        let mut bytes = text.as_str().as_bytes_vec();
        bytes.extend_from_slice(self.body.as_slice());
        assert(bytes@ =~= wire_format(self.status, self.body@));
        bytes
    }
}

impl Clone for Response {
    fn clone(&self) -> (copy: Response)
        ensures
            copy.status == self.status,
            copy.body@ == self.body@,
    {
        Response { status: self.status, body: self.body.clone() }
    }
}

} // verus!
