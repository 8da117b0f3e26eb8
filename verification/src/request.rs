//! Reading the request line off the bytes a connection delivered, and the
//! request path out of it.

use vstd::prelude::*;
use vstd::slice::slice_subrange;
use vstd::string::StringSliceAdditionalSpecFns;
use vstd::utf8::{decode_utf8, encode_utf8_decode_utf8, valid_utf8};

verus! {

/// The space that parts the tokens of a request line.
pub const SPACE: u8 = 0x20;

/// The first byte of a line end.
pub const CARRIAGE_RETURN: u8 = 0x0d;

/// The second byte of a line end.
pub const LINE_FEED: u8 = 0x0a;

/// The question mark that parts a path from its query.
pub const QUESTION_MARK: u8 = 0x3f;

/// Whether `byte` ends a token of the request line.
pub open spec fn ends_token(byte: u8) -> bool {
    byte == SPACE || byte == CARRIAGE_RETURN || byte == LINE_FEED
}

/// Whether `bytes` can stand as one token: not empty, and free of the bytes
/// that end a token.
pub open spec fn is_token(bytes: Seq<u8>) -> bool {
    &&& bytes.len() > 0
    &&& forall|i: int| 0 <= i < bytes.len() ==> !ends_token(#[trigger] bytes[i])
}

/// Where the token that starts at `from` ends: at the first byte from there
/// on that ends a token, or at the end of the buffer.
pub open spec fn token_end(buffer: Seq<u8>, from: int) -> int
    decreases buffer.len() - from,
{
    if 0 <= from < buffer.len() && !ends_token(buffer[from]) {
        token_end(buffer, from + 1)
    } else {
        from
    }
}

/// The three tokens of a request line, as contracts see them.
pub struct RequestLineView {
    pub method: Seq<u8>,
    pub target: Seq<u8>,
    pub version: Seq<u8>,
}

/// The request line at the start of `buffer`: a method, a target and a
/// version, each a token, with one space between them and a carriage return
/// and line feed behind. `None` where the buffer does not start with one,
/// be it malformed or not yet complete.
pub open spec fn request_line(buffer: Seq<u8>) -> Option<RequestLineView> {
    let method_end = token_end(buffer, 0);
    let target_end = token_end(buffer, method_end + 1);
    let version_end = token_end(buffer, target_end + 1);
    if {
        &&& 0 < method_end
        &&& method_end + 1 < target_end
        &&& target_end + 1 < version_end
        &&& version_end + 1 < buffer.len()
        &&& buffer[method_end] == SPACE
        &&& buffer[target_end] == SPACE
        &&& buffer[version_end] == CARRIAGE_RETURN
        &&& buffer[version_end + 1] == LINE_FEED
    } {
        Some(
            RequestLineView {
                method: buffer.subrange(0, method_end),
                target: buffer.subrange(method_end + 1, target_end),
                version: buffer.subrange(target_end + 1, version_end),
            },
        )
    } else {
        None
    }
}

/// Where the query of `target` starts: at its first question mark from
/// `from` on, or at its end.
pub open spec fn query_start(target: Seq<u8>, from: int) -> int
    decreases target.len() - from,
{
    if 0 <= from < target.len() && target[from] != QUESTION_MARK {
        query_start(target, from + 1)
    } else {
        from
    }
}

/// The part of `target` that names the path: what stands before the query.
pub open spec fn path_bytes(target: Seq<u8>) -> Seq<u8> {
    target.subrange(0, query_start(target, 0))
}

/// The request path that `buffer` asks for: the path part of the target of
/// its request line, read as UTF-8. `None` where there is no request line
/// or the path is not UTF-8.
pub open spec fn request_path(buffer: Seq<u8>) -> Option<Seq<char>> {
    match request_line(buffer) {
        Some(line) => if valid_utf8(path_bytes(line.target)) {
            Some(decode_utf8(path_bytes(line.target)))
        } else {
            None
        },
        None => None,
    }
}

/// The token from `from` on ends no earlier than it starts and within the
/// buffer, holds no byte that ends a token, and is followed by one unless
/// the buffer ends there.
pub proof fn lemma_token_end(buffer: Seq<u8>, from: int)
    requires
        0 <= from <= buffer.len(),
    ensures
        from <= token_end(buffer, from) <= buffer.len(),
        forall|i: int| from <= i < token_end(buffer, from) ==> !ends_token(#[trigger] buffer[i]),
        token_end(buffer, from) < buffer.len() ==> ends_token(buffer[token_end(buffer, from)]),
    decreases buffer.len() - from,
{
    if from < buffer.len() && !ends_token(buffer[from]) {
        lemma_token_end(buffer, from + 1);
    }
}

/// A token that is followed by a byte that ends tokens is found whole.
pub proof fn lemma_token_is_found(buffer: Seq<u8>, from: int, end: int)
    requires
        0 <= from <= end < buffer.len(),
        forall|i: int| from <= i < end ==> !ends_token(#[trigger] buffer[i]),
        ends_token(buffer[end]),
    ensures
        token_end(buffer, from) == end,
    decreases end - from,
{
    if from < end {
        lemma_token_is_found(buffer, from + 1, end);
    }
}

/// Every well-formed request line is read back as the tokens it was made
/// of, whatever follows it in the buffer.
pub proof fn lemma_well_formed_line_is_read(
    method: Seq<u8>,
    target: Seq<u8>,
    version: Seq<u8>,
    rest: Seq<u8>,
)
    requires
        is_token(method),
        is_token(target),
        is_token(version),
    ensures
        request_line(
            method + seq![SPACE] + target + seq![SPACE] + version + seq![
                CARRIAGE_RETURN,
                LINE_FEED,
            ] + rest,
        ) == Some(RequestLineView { method, target, version }),
{
    let buffer = method + seq![SPACE] + target + seq![SPACE] + version + seq![
        CARRIAGE_RETURN,
        LINE_FEED,
    ] + rest;
    let method_end = method.len() as int;
    let target_end = method_end + 1 + target.len();
    let version_end = target_end + 1 + version.len();
    assert(forall|i: int| 0 <= i < method_end ==> buffer[i] == method[i]);
    assert(forall|i: int| method_end < i < target_end ==> buffer[i] == target[i - method_end - 1]);
    assert(forall|i: int|
        target_end < i < version_end ==> buffer[i] == version[i - target_end - 1]);
    assert(buffer[method_end] == SPACE);
    assert(buffer[target_end] == SPACE);
    assert(buffer[version_end] == CARRIAGE_RETURN);
    assert(buffer[version_end + 1] == LINE_FEED);
    lemma_token_is_found(buffer, 0, method_end);
    lemma_token_is_found(buffer, method_end + 1, target_end);
    lemma_token_is_found(buffer, target_end + 1, version_end);
    assert(buffer.subrange(0, method_end) =~= method);
    assert(buffer.subrange(method_end + 1, target_end) =~= target);
    assert(buffer.subrange(target_end + 1, version_end) =~= version);
}

/// Whatever is read as a request line stands at the start of the buffer in
/// just that form, and each part is a token.
pub proof fn lemma_read_line_is_well_formed(buffer: Seq<u8>)
    requires
        request_line(buffer) is Some,
    ensures
        ({
            let line = request_line(buffer)->Some_0;
            let length = (line.method.len() + line.target.len() + line.version.len() + 4) as int;
            &&& is_token(line.method)
            &&& is_token(line.target)
            &&& is_token(line.version)
            &&& length <= buffer.len()
            &&& buffer.subrange(0, length) == line.method + seq![SPACE] + line.target + seq![SPACE]
                + line.version + seq![CARRIAGE_RETURN, LINE_FEED]
        }),
{
    let method_end = token_end(buffer, 0);
    lemma_token_end(buffer, 0);
    let target_end = token_end(buffer, method_end + 1);
    lemma_token_end(buffer, method_end + 1);
    let version_end = token_end(buffer, target_end + 1);
    lemma_token_end(buffer, target_end + 1);
    let line = request_line(buffer)->Some_0;
    assert(forall|i: int| 0 <= i < line.method.len() ==> line.method[i] == buffer[i]);
    assert(forall|i: int|
        0 <= i < line.target.len() ==> line.target[i] == buffer[method_end + 1 + i]);
    assert(forall|i: int|
        0 <= i < line.version.len() ==> line.version[i] == buffer[target_end + 1 + i]);
    assert(buffer.subrange(0, version_end + 2) =~= line.method + seq![SPACE] + line.target + seq![
        SPACE,
    ] + line.version + seq![CARRIAGE_RETURN, LINE_FEED]);
}

/// The three tokens of a request line, each a piece of the buffer it was
/// read from.
#[derive(Debug, Clone, Copy, PartialEq, Eq)]
pub struct RequestLine<'a> {
    pub method: &'a [u8],
    pub target: &'a [u8],
    pub version: &'a [u8],
}

impl<'a> View for RequestLine<'a> {
    type V = RequestLineView;

    open spec fn view(&self) -> RequestLineView {
        RequestLineView {
            method: self.method@,
            target: self.target@,
            version: self.version@,
        }
    }
}

/// Walks from `from` to the end of the token that starts there.
fn scan_token(buffer: &[u8], from: usize) -> (end: usize)
    requires
        from <= buffer@.len(),
    ensures
        end == token_end(buffer@, from as int),
        from <= end <= buffer@.len(),
{
    let mut end: usize = from;
    while end < buffer.len() && buffer[end] != SPACE && buffer[end] != CARRIAGE_RETURN
        && buffer[end] != LINE_FEED
        invariant
            from <= end <= buffer@.len(),
            token_end(buffer@, from as int) == token_end(buffer@, end as int),
        decreases buffer@.len() - end,
    {
        end = end + 1;
    }
    end
}

/// Reads the request line at the start of `buffer`.
pub fn parse_request_line<'a>(buffer: &'a [u8]) -> (parsed: Option<RequestLine<'a>>)
    ensures
        parsed is Some <==> request_line(buffer@) is Some,
        parsed matches Some(line) ==> request_line(buffer@) == Some(line@),
{
    let length: usize = buffer.len();
    let method_end: usize = scan_token(buffer, 0);
    if method_end == 0 || method_end >= length || buffer[method_end] != SPACE {
        return None;
    }
    let target_end: usize = scan_token(buffer, method_end + 1);
    if target_end == method_end + 1 || target_end >= length || buffer[target_end] != SPACE {
        return None;
    }
    let version_end: usize = scan_token(buffer, target_end + 1);
    if version_end == target_end + 1 || version_end >= length - 1 {
        return None;
    }
    if buffer[version_end] != CARRIAGE_RETURN || buffer[version_end + 1] != LINE_FEED {
        return None;
    }
    Some(
        RequestLine {
            method: slice_subrange(buffer, 0, method_end),
            target: slice_subrange(buffer, method_end + 1, target_end),
            version: slice_subrange(buffer, target_end + 1, version_end),
        },
    )
}

/// Cuts the query off `target`.
pub fn path_of_target<'a>(target: &'a [u8]) -> (path: &'a [u8])
    ensures
        path@ == path_bytes(target@),
{
    let mut end: usize = 0;
    while end < target.len() && target[end] != QUESTION_MARK
        invariant
            end <= target@.len(),
            query_start(target@, 0) == query_start(target@, end as int),
        decreases target@.len() - end,
    {
        end = end + 1;
    }
    slice_subrange(target, 0, end)
}

/// The error of `core::str::from_utf8`. Nothing is read from it.
#[verifier::external_type_specification]
#[verifier::external_body]
pub struct ExUtf8Error(core::str::Utf8Error);

/// `core::str::from_utf8`. Trusted: it succeeds exactly on well-formed
/// UTF-8, and the text it hands back is made of the very bytes it was given.
pub assume_specification<'a>[ core::str::from_utf8 ](bytes: &'a [u8]) -> (text: Result<
    &'a str,
    core::str::Utf8Error,
>)
    ensures
        text is Ok <==> valid_utf8(bytes@),
        text matches Ok(read) ==> read.spec_bytes() == bytes@,
;

/// Reads `bytes` as UTF-8 text.
pub fn decode_text<'a>(bytes: &'a [u8]) -> (text: Option<&'a str>)
    ensures
        text is Some <==> valid_utf8(bytes@),
        text matches Some(read) ==> read@ == decode_utf8(bytes@),
{
    match core::str::from_utf8(bytes) {
        Ok(read) => {
            proof {
                encode_utf8_decode_utf8(read@);
            }
            Some(read)
        },
        Err(_) => None,
    }
}

/// The request path that `buffer` asks for.
pub fn parse_request_path<'a>(buffer: &'a [u8]) -> (path: Option<&'a str>)
    ensures
        path is Some <==> request_path(buffer@) is Some,
        path matches Some(text) ==> request_path(buffer@) == Some(text@),
{
    match parse_request_line(buffer) {
        Some(line) => decode_text(path_of_target(line.target)),
        None => None,
    }
}

} // verus!
