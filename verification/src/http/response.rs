//! Reading an HTTP/1.1 response: header lookups, the status line and the
//! chunked transfer coding.

use crate::args::Args;
use crate::bytes::{
    byte_position, decode_text, display_text, find_bytes, find_bytes_from, text_of,
    to_display_text,
};
use crate::numbers::{decimal_text, parse_unsigned, read_unsigned, write_decimal};
use crate::text::{
    after_first_line, after_first_token, contains, find, find_from, first_index, first_line,
    lemma_find_from_props, lemma_first_index_props, lines, lowercase, lowercased, position,
    push_chars, split_line, split_token, starts_with, string_of, to_chars, token, trim, trimmed,
};
use vstd::prelude::*;
use vstd::string::StringExecFns;

verus! {

/// Header lookups read at most this many bytes of a response.
pub const HEADER_WINDOW: usize = 2048;

/// The part of `response` that header lookups read.
pub open spec fn header_window(response: Seq<u8>) -> Seq<u8> {
    if response.len() < HEADER_WINDOW {
        response
    } else {
        response.take(HEADER_WINDOW as int)
    }
}

/// The text of the header window, where it is well-formed UTF-8.
pub open spec fn header_text(response: Seq<u8>) -> Option<Seq<char>> {
    text_of(header_window(response))
}

fn read_header_text(response: &[u8]) -> (r: Option<Vec<char>>)
    ensures
        r is Some <==> header_text(response@) is Some,
        r matches Some(t) ==> header_text(response@) == Some(t@),
{
    if response.len() < HEADER_WINDOW {
        assert(response@.subrange(0, response@.len() as int) =~= response@);
        decode_text(&response[0..response.len()])
    } else {
        decode_text(&response[0..HEADER_WINDOW])
    }
}

/// What stands between the first and the second `:` of `s` (or the end of
/// `s`), if `s` holds a `:`.
pub open spec fn second_field(s: Seq<char>) -> Option<Seq<char>> {
    let a = first_index(s, ':');
    if a < s.len() {
        let rest = s.skip(a + 1);
        Some(rest.take(first_index(rest, ':')))
    } else {
        None
    }
}

fn read_second_field(s: &[char]) -> (r: Option<&[char]>)
    ensures
        r is Some <==> second_field(s@) is Some,
        r matches Some(f) ==> second_field(s@) == Some(f@),
{
    let a = position(s, ':');
    if a < s.len() {
        let rest = &s[a + 1..s.len()];
        let b = position(rest, ':');
        proof {
            lemma_first_index_props(rest@, ':');
        }
        Some(&rest[0..b])
    } else {
        None
    }
}

/// Whether `line`, trimmed and in lowercase, begins with `content-length:`.
pub open spec fn is_content_length_line(line: Seq<char>) -> bool {
    "content-length:"@.is_prefix_of(lowercase(trim(line)))
}

/// The number in a `Content-Length` line: its second `:`-separated field,
/// trimmed, read as a decimal `usize`.
pub open spec fn content_length_value(line: Seq<char>) -> Option<usize> {
    match second_field(lowercase(trim(line))) {
        None => None,
        Some(f) => match parse_unsigned(trim(f), 10, usize::MAX as int) {
            None => None,
            Some(v) => Some(v as usize),
        },
    }
}

/// The value of the first `Content-Length` line among `ls`. A first such
/// line without a readable number gives `None`; later lines are not
/// consulted.
pub open spec fn content_length_in(ls: Seq<Seq<char>>) -> Option<usize>
    decreases ls.len(),
{
    if ls.len() == 0 {
        None
    } else if is_content_length_line(ls[0]) {
        content_length_value(ls[0])
    } else {
        content_length_in(ls.drop_first())
    }
}

/// The `Content-Length` that `response` announces.
pub open spec fn spec_get_content_length(response: Seq<u8>) -> Option<usize> {
    match header_text(response) {
        None => None,
        Some(t) => content_length_in(lines(t)),
    }
}

proof fn lemma_lines_unfold(s: Seq<char>)
    requires
        s.len() > 0,
    ensures
        lines(s).len() > 0,
        lines(s)[0] == first_line(s),
        lines(s).drop_first() == lines(after_first_line(s)),
{
    assert(lines(s).drop_first() =~= lines(after_first_line(s)));
}

/// Extracts the `Content-Length` header value from an HTTP response.
pub fn get_content_length(response: &[u8]) -> (r: Option<usize>)
    ensures
        r == spec_get_content_length(response@),
{
    let text = match read_header_text(response) {
        Some(t) => t,
        None => {
            return None;
        },
    };
    let pattern = to_chars("content-length:");
    let mut rest: &[char] = text.as_slice();
    while rest.len() > 0
        invariant
            pattern@ == "content-length:"@,
            header_text(response@) == Some(text@),
            content_length_in(lines(rest@)) == content_length_in(lines(text@)),
        decreases rest@.len(),
    {
        proof {
            lemma_lines_unfold(rest@);
        }
        let (line, next) = split_line(rest);
        let low = lowercased(trimmed(line));
        if starts_with(low.as_slice(), pattern.as_slice()) {
            return match read_second_field(low.as_slice()) {
                None => None,
                Some(f) => match read_unsigned(trimmed(f), 10, usize::MAX as u64) {
                    None => None,
                    Some(v) => Some(v as usize),
                },
            };
        }
        rest = next;
    }
    None
}


/// Whether `line`, trimmed and in lowercase, begins with
/// `transfer-encoding:` and holds `chunked`.
pub open spec fn is_chunked_line(line: Seq<char>) -> bool {
    let low = lowercase(trim(line));
    "transfer-encoding:"@.is_prefix_of(low) && find(low, "chunked"@) is Some
}

/// Whether one of the header lines of `response` announces the chunked
/// transfer coding.
pub open spec fn spec_is_chunked_transfer(response: Seq<u8>) -> bool {
    match header_text(response) {
        None => false,
        Some(t) => exists|i: int| 0 <= i < lines(t).len() && is_chunked_line(#[trigger] lines(t)[i]),
    }
}

proof fn lemma_chunked_line_unfold(s: Seq<char>)
    requires
        s.len() > 0,
    ensures
        (exists|i: int| 0 <= i < lines(s).len() && is_chunked_line(#[trigger] lines(s)[i])) <==> (
        is_chunked_line(first_line(s)) || exists|i: int|
            0 <= i < lines(after_first_line(s)).len() && is_chunked_line(
                #[trigger] lines(after_first_line(s))[i],
            )),
{
    lemma_lines_unfold(s);
    let ls = lines(s);
    let rest = lines(after_first_line(s));
    if exists|i: int| 0 <= i < ls.len() && is_chunked_line(#[trigger] ls[i]) {
        let i = choose|i: int| 0 <= i < ls.len() && is_chunked_line(#[trigger] ls[i]);
        if i > 0 {
            assert(rest[i - 1] == ls[i]);
        }
    }
    if exists|i: int| 0 <= i < rest.len() && is_chunked_line(#[trigger] rest[i]) {
        let i = choose|i: int| 0 <= i < rest.len() && is_chunked_line(#[trigger] rest[i]);
        assert(ls[i + 1] == rest[i]);
    }
    if is_chunked_line(first_line(s)) {
        assert(is_chunked_line(ls[0]));
    }
}

/// Checks whether the response uses the chunked transfer coding.
pub fn is_chunked_transfer(response: &[u8]) -> (r: bool)
    ensures
        r == spec_is_chunked_transfer(response@),
{
    let text = match read_header_text(response) {
        Some(t) => t,
        None => {
            return false;
        },
    };
    let name = to_chars("transfer-encoding:");
    let word = to_chars("chunked");
    let mut rest: &[char] = text.as_slice();
    while rest.len() > 0
        invariant
            name@ == "transfer-encoding:"@,
            word@ == "chunked"@,
            header_text(response@) == Some(text@),
            (exists|i: int| 0 <= i < lines(rest@).len() && is_chunked_line(#[trigger] lines(rest@)[i]))
                <==> spec_is_chunked_transfer(response@),
        decreases rest@.len(),
    {
        proof {
            lemma_chunked_line_unfold(rest@);
        }
        let (line, next) = split_line(rest);
        let low = lowercased(trimmed(line));
        if starts_with(low.as_slice(), name.as_slice()) && contains(low.as_slice(), word.as_slice()) {
            return true;
        }
        rest = next;
    }
    assert(lines(rest@).len() == 0);
    false
}

/// The bytes of `response` before its first carriage return.
pub open spec fn status_line(response: Seq<u8>) -> Seq<u8> {
    response.take(first_index(response, 0x0du8))
}

/// The status code of `response`: the second white-space-delimited token of
/// its status line, read as a decimal `u16`; or the message that says what
/// is wrong with the status line.
pub open spec fn spec_parse_status_line(response: Seq<u8>) -> Result<u16, Seq<char>> {
    match text_of(status_line(response)) {
        None => Err("Invalid UTF-8 in status line"@),
        Some(t) => match token(t, 1) {
            None => Err("Missing status code"@),
            Some(code) => match parse_unsigned(code, 10, u16::MAX as int) {
                None => Err("Invalid status code"@),
                Some(v) => Ok(v as u16),
            },
        },
    }
}

/// Parses the status line of an HTTP response.
pub fn parse_status_line(response: &[u8]) -> (r: Result<u16, &'static str>)
    ensures
        match r {
            Ok(code) => spec_parse_status_line(response@) == Ok::<u16, Seq<char>>(code),
            Err(message) => spec_parse_status_line(response@) == Err::<u16, Seq<char>>(message@),
        },
{
    let end = byte_position(response, 0x0d);
    proof {
        lemma_first_index_props(response@, 0x0du8);
    }
    let text = match decode_text(&response[0..end]) {
        Some(t) => t,
        None => {
            return Err("Invalid UTF-8 in status line");
        },
    };
    let (_, rest) = split_token(text.as_slice());
    let (second, _) = split_token(rest);
    assert(token(text@, 1) == token(after_first_token(text@), 0));
    match second {
        None => Err("Missing status code"),
        Some(code) => match read_unsigned(code, 10, 65535) {
            None => Err("Invalid status code"),
            Some(v) => Ok(v as u16),
        },
    }
}

/// The two bytes that end a line on the wire.
pub open spec fn crlf() -> Seq<u8> {
    seq![0x0du8, 0x0au8]
}

/// The size that a chunk-size line announces: the line as text, trimmed,
/// read as a hexadecimal `usize`.
pub open spec fn chunk_size(line: Seq<u8>) -> Option<int> {
    match text_of(line) {
        None => None,
        Some(t) => parse_unsigned(trim(t), 16, usize::MAX as int),
    }
}

/// The payload of the chunks that start at index `from` of `body`. Each
/// chunk is a size line ended by CRLF, then that many bytes, then two more
/// bytes that are skipped. Decoding ends, with what was gathered, at the end
/// of `body`, at a size line that does not end or does not read as a
/// number, at a size of zero, and at a chunk that `body` does not hold in
/// full.
pub open spec fn chunked_payload(body: Seq<u8>, from: int) -> Seq<u8>
    decreases body.len() + 2 - from,
    via chunked_payload_decreases
{
    if from < 0 || from >= body.len() {
        Seq::empty()
    } else {
        match find_from(body, crlf(), from) {
            None => Seq::empty(),
            Some(end) => match chunk_size(body.subrange(from, end)) {
                None => Seq::empty(),
                Some(size) => if size <= 0 || end + 2 + size > body.len() {
                    Seq::empty()
                } else {
                    body.subrange(end + 2, end + 2 + size) + chunked_payload(
                        body,
                        end + 2 + size + 2,
                    )
                },
            },
        }
    }
}

#[via_fn]
proof fn chunked_payload_decreases(body: Seq<u8>, from: int) {
    if 0 <= from {
        lemma_find_from_props(body, crlf(), from);
    }
}

/// Decodes a body in the chunked transfer coding.
pub fn decode_chunked_transfer(body: &[u8]) -> (r: Vec<u8>)
    ensures
        r@ == chunked_payload(body@, 0),
{
    let mut result: Vec<u8> = Vec::new();
    let mut i: usize = 0;
    let mut line_end: Vec<u8> = Vec::new();
    line_end.push(0x0d);
    line_end.push(0x0a);
    assert(line_end@ =~= crlf());
    while i < body.len()
        invariant
            line_end@ == crlf(),
            i <= body@.len(),
            result@ + chunked_payload(body@, i as int) == chunked_payload(body@, 0),
        ensures
            chunked_payload(body@, i as int) == Seq::<u8>::empty(),
        decreases body@.len() - i,
    {
        proof {
            lemma_find_from_props(body@, crlf(), i as int);
        }
        let end = match find_bytes_from(body, line_end.as_slice(), i) {
            Some(e) => e,
            None => {
                break;
            },
        };
        let text = match decode_text(&body[i..end]) {
            Some(t) => t,
            None => {
                break;
            },
        };
        let size = match read_unsigned(trimmed(text.as_slice()), 16, usize::MAX as u64) {
            Some(v) => v as usize,
            None => {
                break;
            },
        };
        if size == 0 {
            break;
        }
        let start = end + 2;
        if size > body.len() - start {
            break;
        }
        let ghost before = result@;
        result.extend_from_slice(&body[start..start + size]);
        assert(result@ =~= before + body@.subrange(start as int, start + size));
        let ghost next = start + size + 2;
        i = if body.len() - (start + size) < 2 {
            body.len()
        } else {
            start + size + 2
        };
        proof {
            if i != next {
                assert(chunked_payload(body@, next) =~= Seq::<u8>::empty());
                assert(chunked_payload(body@, i as int) =~= Seq::<u8>::empty());
            }
            assert(before + (body@.subrange(start as int, start + size) + chunked_payload(
                body@,
                next,
            )) =~= before + body@.subrange(start as int, start + size) + chunked_payload(
                body@,
                next,
            ));
        }
    }
    assert(result@ + Seq::<u8>::empty() =~= result@);
    result
}

/// Whether `line`, in lowercase, begins with `location:`.
pub open spec fn is_location_line(line: Seq<char>) -> bool {
    "location:"@.is_prefix_of(lowercase(line))
}

/// What follows the first `:` of `line`, trimmed.
pub open spec fn location_value(line: Seq<char>) -> Option<Seq<char>> {
    let a = first_index(line, ':');
    if a < line.len() {
        Some(trim(line.skip(a + 1)))
    } else {
        None
    }
}

/// The value of the first `Location` line among `ls`.
pub open spec fn location_in(ls: Seq<Seq<char>>) -> Option<Seq<char>>
    decreases ls.len(),
{
    if ls.len() == 0 {
        None
    } else if is_location_line(ls[0]) && location_value(ls[0]) is Some {
        location_value(ls[0])
    } else {
        location_in(ls.drop_first())
    }
}

/// The `Location` that `response` announces.
pub open spec fn spec_get_location(response: Seq<u8>) -> Option<Seq<char>> {
    match header_text(response) {
        None => None,
        Some(t) => location_in(lines(t)),
    }
}

/// Extracts the `Location` header from an HTTP response.
pub fn get_location(response: &[u8]) -> (r: Option<String>)
    ensures
        r is Some <==> spec_get_location(response@) is Some,
        r matches Some(s) ==> spec_get_location(response@) == Some(s@),
{
    let text = match read_header_text(response) {
        Some(t) => t,
        None => {
            return None;
        },
    };
    let pattern = to_chars("location:");
    let mut rest: &[char] = text.as_slice();
    while rest.len() > 0
        invariant
            pattern@ == "location:"@,
            header_text(response@) == Some(text@),
            location_in(lines(rest@)) == location_in(lines(text@)),
        decreases rest@.len(),
    {
        proof {
            lemma_lines_unfold(rest@);
        }
        let (line, next) = split_line(rest);
        let low = lowercased(line);
        if starts_with(low.as_slice(), pattern.as_slice()) {
            let a = position(line, ':');
            if a < line.len() {
                let value = trimmed(&line[a + 1..line.len()]);
                return Some(string_of(value));
            }
        }
        rest = next;
    }
    None
}


/// The blank line that ends the header block.
pub open spec fn header_terminator() -> Seq<u8> {
    seq![0x0du8, 0x0au8, 0x0du8, 0x0au8]
}

/// Length of the header block of `response`, the blank line included.
pub open spec fn spec_header_end(response: Seq<u8>) -> Option<int> {
    match find(response, header_terminator()) {
        Some(pos) => Some(pos + 4),
        None => None,
    }
}

/// Length of the header block of `response`, the blank line included.
pub fn header_end(response: &[u8]) -> (r: Option<usize>)
    ensures
        r is Some <==> spec_header_end(response@) is Some,
        r matches Some(end) ==> spec_header_end(response@) == Some(end as int) && end
            <= response@.len(),
{
    let mut blank_line: Vec<u8> = Vec::new();
    blank_line.push(0x0d);
    blank_line.push(0x0a);
    blank_line.push(0x0d);
    blank_line.push(0x0a);
    assert(blank_line@ =~= header_terminator());
    proof {
        lemma_find_from_props(response@, header_terminator(), 0);
        assert(header_terminator().len() == 4);
    }
    let total = response.len();
    match find_bytes(response, blank_line.as_slice()) {
        Some(pos) => Some(pos + 4),
        None => None,
    }
}

/// The body behind a header block of `end` bytes: the chunks' payload
/// where the header block announces the chunked transfer coding, and else
/// every byte behind the header block.
pub open spec fn spec_body(response: Seq<u8>, end: int) -> Seq<u8> {
    if spec_is_chunked_transfer(response.take(end)) {
        chunked_payload(response.skip(end), 0)
    } else {
        response.skip(end)
    }
}

fn body_of(response: &[u8], end: usize) -> (r: Vec<u8>)
    requires
        end <= response@.len(),
    ensures
        r@ == spec_body(response@, end as int),
{
    let rest = &response[end..response.len()];
    if is_chunked_transfer(&response[0..end]) {
        decode_chunked_transfer(rest)
    } else {
        let mut body: Vec<u8> = Vec::new();
        body.extend_from_slice(rest);
        assert(body@ =~= rest@);
        body
    }
}

/// Why a response cannot be interpreted.
#[derive(Debug, PartialEq, Eq)]
pub enum InterpretError {
    /// The header block does not end.
    MalformedResponse,
    /// The status line holds no status code; the message says what is
    /// wrong with it.
    BadStatusLine(&'static str),
}

/// Status, header block and body of a response.
#[derive(Debug, PartialEq, Eq)]
pub struct Interpreted {
    pub status: u16,
    /// The header block as it came, the blank line included.
    pub headers: Vec<u8>,
    /// The body, with the chunked transfer coding taken off.
    pub body: Vec<u8>,
}

/// [`Interpreted`] as contracts see it.
pub struct InterpretedView {
    pub status: u16,
    pub headers: Seq<u8>,
    pub body: Seq<u8>,
}

impl View for Interpreted {
    type V = InterpretedView;

    open spec fn view(&self) -> InterpretedView {
        InterpretedView { status: self.status, headers: self.headers@, body: self.body@ }
    }
}

/// [`InterpretError`] as contracts see it.
pub enum InterpretErrorView {
    MalformedResponse,
    BadStatusLine(Seq<char>),
}

impl View for InterpretError {
    type V = InterpretErrorView;

    open spec fn view(&self) -> InterpretErrorView {
        match self {
            InterpretError::MalformedResponse => InterpretErrorView::MalformedResponse,
            InterpretError::BadStatusLine(m) => InterpretErrorView::BadStatusLine(m@),
        }
    }
}

/// Status, header block and body of `response`; or why it has none: the
/// header block does not end, or the status line is not well-formed.
pub open spec fn spec_interpret(response: Seq<u8>) -> Result<InterpretedView, InterpretErrorView> {
    match spec_header_end(response) {
        None => Err(InterpretErrorView::MalformedResponse),
        Some(end) => match spec_parse_status_line(response) {
            Err(message) => Err(InterpretErrorView::BadStatusLine(message)),
            Ok(status) => Ok(
                InterpretedView {
                    status,
                    headers: response.take(end),
                    body: spec_body(response, end),
                },
            ),
        },
    }
}

/// Whether `r` is the interpretation or the error that `expected` names.
pub open spec fn interpreted_as(
    r: Result<Interpreted, InterpretError>,
    expected: Result<InterpretedView, InterpretErrorView>,
) -> bool {
    match r {
        Ok(i) => expected == Ok::<InterpretedView, InterpretErrorView>(i@),
        Err(e) => expected == Err::<InterpretedView, InterpretErrorView>(e@),
    }
}

/// Interprets a response that has been read in full: finds the end of the
/// header block, reads the status code and takes the body out.
pub fn interpret(response: &[u8]) -> (r: Result<Interpreted, InterpretError>)
    ensures
        interpreted_as(r, spec_interpret(response@)),
{
    let end = match header_end(response) {
        Some(end) => end,
        None => {
            return Err(InterpretError::MalformedResponse);
        },
    };
    let status = match parse_status_line(response) {
        Ok(status) => status,
        Err(message) => {
            return Err(InterpretError::BadStatusLine(message));
        },
    };
    let mut headers: Vec<u8> = Vec::new();
    headers.extend_from_slice(&response[0..end]);
    assert(headers@ =~= response@.take(end as int));
    Ok(Interpreted { status, headers, body: body_of(response, end) })
}

/// Interpreting the same bytes again gives the same status, header block
/// and body: any two results of interpreting `response` agree.
pub proof fn lemma_interpret_is_repeatable(
    response: Seq<u8>,
    first: Result<Interpreted, InterpretError>,
    second: Result<Interpreted, InterpretError>,
)
    requires
        interpreted_as(first, spec_interpret(response)),
        interpreted_as(second, spec_interpret(response)),
    ensures
        first is Ok <==> second is Ok,
        first is Ok ==> first->Ok_0@ == second->Ok_0@,
        first is Err ==> first->Err_0@ == second->Err_0@,
{
}


/// The header lines that the verbose summary shows.
#[derive(Clone, Copy, Debug, PartialEq, Eq, Structural)]
pub enum HeaderKind {
    ContentType,
    ContentLength,
    TransferEncoding,
}

/// Which of the shown headers `line` is, judged by the start of the line in
/// lowercase.
pub open spec fn header_kind(line: Seq<char>) -> Option<HeaderKind> {
    let low = lowercase(line);
    if "content-type:"@.is_prefix_of(low) {
        Some(HeaderKind::ContentType)
    } else if "content-length:"@.is_prefix_of(low) {
        Some(HeaderKind::ContentLength)
    } else if "transfer-encoding:"@.is_prefix_of(low) {
        Some(HeaderKind::TransferEncoding)
    } else {
        None
    }
}

/// The last line of `ls` that is of `kind`.
pub open spec fn last_of_kind(ls: Seq<Seq<char>>, kind: HeaderKind) -> Option<Seq<char>>
    decreases ls.len(),
{
    if ls.len() == 0 {
        None
    } else if header_kind(ls.last()) == Some(kind) {
        Some(ls.last())
    } else {
        last_of_kind(ls.drop_last(), kind)
    }
}

/// `line` with a line feed, or nothing.
pub open spec fn shown_line(line: Option<Seq<char>>) -> Seq<char> {
    match line {
        Some(l) => l + "\n"@,
        None => Seq::empty(),
    }
}

/// The verbose summary of a header block with text `text`: the status
/// line, then the last `Content-Type`, `Content-Length` and
/// `Transfer-Encoding` line among the others, then an empty line.
pub open spec fn summary_of(text: Seq<char>) -> Seq<char> {
    let ls = lines(text);
    let first = if ls.len() > 0 {
        ls[0]
    } else {
        "Unknown status"@
    };
    let others = if ls.len() > 0 {
        ls.drop_first()
    } else {
        ls
    };
    "Status: "@ + first + "\n"@ + shown_line(last_of_kind(others, HeaderKind::ContentType))
        + shown_line(last_of_kind(others, HeaderKind::ContentLength)) + shown_line(
        last_of_kind(others, HeaderKind::TransferEncoding),
    ) + "\n"@
}

/// The verbose summary of the header block `headers`; nothing where it is
/// not well-formed UTF-8.
pub open spec fn spec_status_summary(headers: Seq<u8>) -> Seq<char> {
    match text_of(headers) {
        Some(t) => summary_of(t),
        None => Seq::empty(),
    }
}

/// The characters of an optional slice.
pub open spec fn slice_view(s: Option<&[char]>) -> Option<Seq<char>> {
    match s {
        Some(t) => Some(t@),
        None => None,
    }
}

fn kind_of(line: &[char]) -> (r: Option<HeaderKind>)
    ensures
        r == header_kind(line@),
{
    let low = lowercased(line);
    let content_type = to_chars("content-type:");
    let content_length = to_chars("content-length:");
    let transfer_encoding = to_chars("transfer-encoding:");
    if starts_with(low.as_slice(), content_type.as_slice()) {
        Some(HeaderKind::ContentType)
    } else if starts_with(low.as_slice(), content_length.as_slice()) {
        Some(HeaderKind::ContentLength)
    } else if starts_with(low.as_slice(), transfer_encoding.as_slice()) {
        Some(HeaderKind::TransferEncoding)
    } else {
        None
    }
}

fn push_shown_line(out: &mut String, line: Option<&[char]>)
    ensures
        final(out)@ == old(out)@ + shown_line(slice_view(line)),
{
    match line {
        Some(l) => {
            push_chars(out, l);
            out.append("\n");
            assert(out@ =~= old(out)@ + shown_line(slice_view(line)));
        },
        None => {
            assert(out@ =~= old(out)@ + shown_line(slice_view(line)));
        },
    }
}

/// The verbose summary of a header block.
pub fn status_summary(headers: &[u8]) -> (r: String)
    ensures
        r@ == spec_status_summary(headers@),
{
    let text = match decode_text(headers) {
        Some(t) => t,
        None => {
            return String::new();
        },
    };
    let mut out = String::from_str("Status: ");
    let mut rest: &[char] = text.as_slice();
    if rest.len() > 0 {
        proof {
            lemma_lines_unfold(rest@);
        }
        let (line, next) = split_line(rest);
        push_chars(&mut out, line);
        rest = next;
    } else {
        out.append("Unknown status");
        assert(lines(text@).len() == 0);
    }
    out.append("\n");
    let ghost others = lines(rest@);
    let ghost start = out@;
    let mut content_type: Option<&[char]> = None;
    let mut content_length: Option<&[char]> = None;
    let mut transfer_encoding: Option<&[char]> = None;
    let ghost mut seen: Seq<Seq<char>> = Seq::empty();
    assert(seen + lines(rest@) =~= others);
    while rest.len() > 0
        invariant
            seen + lines(rest@) == others,
            slice_view(content_type) == last_of_kind(seen, HeaderKind::ContentType),
            slice_view(content_length) == last_of_kind(seen, HeaderKind::ContentLength),
            slice_view(transfer_encoding) == last_of_kind(seen, HeaderKind::TransferEncoding),
        decreases rest@.len(),
    {
        proof {
            lemma_lines_unfold(rest@);
        }
        let (line, next) = split_line(rest);
        match kind_of(line) {
            Some(HeaderKind::ContentType) => {
                content_type = Some(line);
            },
            Some(HeaderKind::ContentLength) => {
                content_length = Some(line);
            },
            Some(HeaderKind::TransferEncoding) => {
                transfer_encoding = Some(line);
            },
            None => {},
        }
        proof {
            let grown = seen.push(line@);
            assert(grown.drop_last() =~= seen);
            assert(grown.last() == line@);
            assert(grown + lines(next@) =~= seen + lines(rest@)) by {
                assert(lines(rest@) =~= seq![line@] + lines(next@));
            }
            seen = grown;
        }
        rest = next;
    }
    proof {
        assert(lines(rest@).len() == 0);
        assert(seen =~= others);
    }
    push_shown_line(&mut out, content_type);
    push_shown_line(&mut out, content_length);
    push_shown_line(&mut out, transfer_encoding);
    out.append("\n");
    assert(out@ =~= summary_of(text@));
    out
}


/// Exit status of a run that went well.
pub const EXIT_OK: i32 = 0;

/// Exit status of a run that failed.
pub const EXIT_FAILURE: i32 = 1;

/// Exit status when an HTTP error ends a run in fail-fast mode.
pub const EXIT_HTTP_ERROR: i32 = 22;

/// What to write to the output file.
pub struct FileOutput {
    pub path: String,
    pub content: Vec<u8>,
    /// What to print on standard output once the file is written.
    pub note: String,
}

/// [`FileOutput`] as contracts see it.
pub struct FileOutputView {
    pub path: Seq<char>,
    pub content: Seq<u8>,
    pub note: Seq<char>,
}

impl View for FileOutput {
    type V = FileOutputView;

    open spec fn view(&self) -> FileOutputView {
        FileOutputView { path: self.path@, content: self.content@, note: self.note@ }
    }
}

/// What processing a response comes to: what to print, what to write to
/// the output file, and the exit status.
pub struct Outcome {
    pub exit_code: i32,
    /// Text for standard output.
    pub stdout: String,
    /// Text for standard error.
    pub stderr: String,
    pub file: Option<FileOutput>,
}

/// [`Outcome`] as contracts see it.
pub struct OutcomeView {
    pub exit_code: i32,
    pub stdout: Seq<char>,
    pub stderr: Seq<char>,
    pub file: Option<FileOutputView>,
}

impl View for Outcome {
    type V = OutcomeView;

    open spec fn view(&self) -> OutcomeView {
        OutcomeView {
            exit_code: self.exit_code,
            stdout: self.stdout@,
            stderr: self.stderr@,
            file: match self.file {
                Some(f) => Some(f@),
                None => None,
            },
        }
    }
}

/// Informational `text`, which the silent mode keeps back.
pub open spec fn unless_silent(args: Args, text: Seq<char>) -> Seq<char> {
    if args.silent {
        Seq::empty()
    } else {
        text
    }
}

/// The text of `bytes`, or nothing where they are not well-formed UTF-8.
pub open spec fn text_or_nothing(bytes: Seq<u8>) -> Seq<char> {
    match text_of(bytes) {
        Some(t) => t,
        None => Seq::empty(),
    }
}

/// An HTTP status that reports an error: 400 or more.
#[derive(Debug, PartialEq, Eq)]
pub struct HttpStatusError {
    pub status: u16,
    /// The body of the response, where it is text and not suppressed.
    pub body: Option<String>,
}

/// [`HttpStatusError`] as contracts see it.
pub struct HttpStatusErrorView {
    pub status: u16,
    pub body: Option<Seq<char>>,
}

impl View for HttpStatusError {
    type V = HttpStatusErrorView;

    open spec fn view(&self) -> HttpStatusErrorView {
        HttpStatusErrorView {
            status: self.status,
            body: match self.body {
                Some(t) => Some(t@),
                None => None,
            },
        }
    }
}

/// Whether the body of an error response is kept back: in silent mode, and
/// in fail-fast mode, which keeps the whole report back.
pub open spec fn body_suppressed(args: Args) -> bool {
    args.fail_fast || args.silent
}

/// The error that the status of a response stands for, `body` being what
/// follows the header block: there is one for a status of 400 or more, and
/// it carries the body where that is text and is not kept back.
pub open spec fn spec_status_error(status: u16, body: Seq<u8>, args: Args) -> Option<
    HttpStatusErrorView,
> {
    if status >= 400 {
        Some(
            HttpStatusErrorView {
                status,
                body: if body_suppressed(args) {
                    None
                } else {
                    text_of(body)
                },
            },
        )
    } else {
        None
    }
}

/// The error that the status of a response stands for.
pub fn status_error(status: u16, body: &[u8], args: &Args) -> (r: Option<HttpStatusError>)
    ensures
        r is Some <==> spec_status_error(status, body@, *args) is Some,
        r matches Some(e) ==> spec_status_error(status, body@, *args) == Some(e@),
{
    if status < 400 {
        return None;
    }
    let text = if args.fail_fast || args.silent {
        None
    } else {
        match decode_text(body) {
            Some(chars) => Some(string_of(chars.as_slice())),
            None => None,
        }
    };
    Some(HttpStatusError { status, body: text })
}

/// The report of an HTTP error: nothing in fail-fast mode, and else one
/// line with the status, and the body where the error carries it.
pub open spec fn http_error_report(e: HttpStatusErrorView, args: Args) -> Seq<char> {
    if args.fail_fast {
        Seq::empty()
    } else {
        "HTTP Error: "@ + decimal_text(e.status as nat) + "\n"@ + (match e.body {
            Some(t) => "Response body: "@ + t + "\n"@,
            None => Seq::empty(),
        })
    }
}

/// The exit status for an HTTP error.
pub open spec fn http_error_exit_code(args: Args) -> i32 {
    if args.fail_fast {
        EXIT_HTTP_ERROR
    } else {
        EXIT_FAILURE
    }
}

/// A failed outcome with `stdout` printed before and `message` as the
/// error text.
pub open spec fn failure(code: i32, stdout: Seq<char>, message: Seq<char>) -> OutcomeView {
    OutcomeView { exit_code: code, stdout, stderr: message, file: None }
}

/// The outcome for a response with a header block of `end` bytes and
/// status `status`.
pub open spec fn outcome_of(response: Seq<u8>, end: int, status: u16, args: Args) -> OutcomeView {
    let headers = response.take(end);
    let info = if args.verbose && !args.silent {
        spec_status_summary(headers)
    } else {
        Seq::empty()
    };
    if let Some(e) = spec_status_error(status, response.skip(end), args) {
        failure(
            http_error_exit_code(args),
            if args.fail_fast {
                Seq::empty()
            } else {
                info
            },
            http_error_report(e, args),
        )
    } else if args.head_only {
        OutcomeView {
            exit_code: EXIT_OK,
            stdout: info + text_or_nothing(headers),
            stderr: Seq::empty(),
            file: None,
        }
    } else {
        let shown_headers = if args.include_headers {
            headers
        } else {
            Seq::empty()
        };
        let body = spec_body(response, end);
        match args.output {
            Some(path) => OutcomeView {
                exit_code: EXIT_OK,
                stdout: info,
                stderr: Seq::empty(),
                file: Some(
                    FileOutputView {
                        path: path@,
                        content: shown_headers + body,
                        note: unless_silent(args, "Response body saved to '"@ + path@ + "'\n"@),
                    },
                ),
            },
            None => OutcomeView {
                exit_code: EXIT_OK,
                stdout: info + text_or_nothing(shown_headers) + display_text(body) + "\n"@,
                stderr: Seq::empty(),
                file: None,
            },
        }
    }
}

/// What processing `response` for the request of `args` comes to.
///
/// A response without the end of a header block, or without a status
/// code, fails with a one-line message. A status of 400 or more fails too:
/// without any output and with the status [`EXIT_HTTP_ERROR`] in fail-fast
/// mode, and else with a report of the status and of the body, see
/// [`spec_status_error`]. In head-only mode the header block is shown and
/// nothing else. Otherwise the body, behind the header block where that is
/// asked for, goes to the output file or to standard output. The silent
/// mode keeps back what only informs: the body of an error response, the
/// note on the file and the summary of the header block that the verbose
/// mode puts first. It keeps no error message back.
pub open spec fn spec_process(response: Seq<u8>, args: Args) -> OutcomeView {
    match spec_header_end(response) {
        None => failure(EXIT_FAILURE, Seq::empty(), "Invalid HTTP response\n"@),
        Some(end) => match spec_parse_status_line(response) {
            Err(message) => failure(
                EXIT_FAILURE,
                Seq::empty(),
                "Error parsing status: "@ + message + "\n"@,
            ),
            Ok(status) => outcome_of(response, end, status, args),
        },
    }
}

fn fail_with(code: i32, message: String) -> (r: Outcome)
    ensures
        r@ == failure(code, Seq::empty(), message@),
{
    Outcome { exit_code: code, stdout: String::new(), stderr: message, file: None }
}

fn push_text_or_nothing(out: &mut String, bytes: &[u8])
    ensures
        final(out)@ == old(out)@ + text_or_nothing(bytes@),
{
    match decode_text(bytes) {
        Some(chars) => {
            push_chars(out, chars.as_slice());
        },
        None => {
            assert(out@ =~= old(out)@ + text_or_nothing(bytes@));
        },
    }
}

fn error_report(e: &HttpStatusError, args: &Args) -> (r: String)
    ensures
        r@ == http_error_report(e@, *args),
{
    let mut out = String::new();
    if args.fail_fast {
        return out;
    }
    out.append("HTTP Error: ");
    let digits = write_decimal(e.status as u64);
    push_chars(&mut out, digits.as_slice());
    out.append("\n");
    match &e.body {
        Some(text) => {
            out.append("Response body: ");
            out.append(text.as_str());
            out.append("\n");
            assert(out@ =~= http_error_report(e@, *args));
        },
        None => {
            assert(out@ =~= http_error_report(e@, *args));
        },
    }
    out
}

fn deliver(response: &[u8], end: usize, status: u16, args: &Args) -> (r: Outcome)
    requires
        end <= response@.len(),
    ensures
        r@ == outcome_of(response@, end as int, status, *args),
{
    let headers = &response[0..end];
    let mut stdout = if args.verbose && !args.silent {
        status_summary(headers)
    } else {
        String::new()
    };
    let ghost info = stdout@;
    match status_error(status, &response[end..response.len()], args) {
        Some(e) => {
            let exit_code = if args.fail_fast {
                EXIT_HTTP_ERROR
            } else {
                EXIT_FAILURE
            };
            let shown = if args.fail_fast {
                String::new()
            } else {
                stdout
            };
            return Outcome { exit_code, stdout: shown, stderr: error_report(&e, args), file: None };
        },
        None => {},
    }
    if args.head_only {
        push_text_or_nothing(&mut stdout, headers);
        return Outcome { exit_code: EXIT_OK, stdout, stderr: String::new(), file: None };
    }
    let body = body_of(response, end);
    match &args.output {
        Some(path) => {
            let mut content: Vec<u8> = Vec::new();
            if args.include_headers {
                content.extend_from_slice(headers);
            }
            let ghost shown = content@;
            content.extend_from_slice(body.as_slice());
            assert(content@ =~= shown + body@);
            assert(args.include_headers ==> shown =~= headers@);
            let mut note = String::new();
            if !args.silent {
                note.append("Response body saved to '");
                note.append(path.as_str());
                note.append("'\n");
                assert(note@ =~= "Response body saved to '"@ + path@ + "'\n"@);
            }
            Outcome {
                exit_code: EXIT_OK,
                stdout,
                stderr: String::new(),
                file: Some(FileOutput { path: path.clone(), content, note }),
            }
        },
        None => {
            if args.include_headers {
                push_text_or_nothing(&mut stdout, headers);
            } else {
                assert(text_or_nothing(Seq::<u8>::empty()) =~= Seq::<char>::empty()) by {
                    assert(vstd::utf8::valid_utf8(Seq::<u8>::empty()));
                    assert(vstd::utf8::decode_utf8(Seq::<u8>::empty()) =~= Seq::<char>::empty());
                }
                assert(stdout@ =~= info + text_or_nothing(Seq::<u8>::empty()));
            }
            let shown = to_display_text(body.as_slice());
            stdout.append(shown.as_str());
            stdout.append("\n");
            Outcome { exit_code: EXIT_OK, stdout, stderr: String::new(), file: None }
        },
    }
}

/// Processes a response that has been read in full: says what to print,
/// what to write to the output file, and the exit status.
pub fn process(response: &[u8], args: &Args) -> (r: Outcome)
    ensures
        r@ == spec_process(response@, *args),
{
    let end = match header_end(response) {
        Some(end) => end,
        None => {
            return fail_with(EXIT_FAILURE, String::from_str("Invalid HTTP response\n"));
        },
    };
    match parse_status_line(response) {
        Ok(status) => deliver(response, end, status, args),
        Err(message) => {
            let mut text = String::from_str("Error parsing status: ");
            text.append(message);
            text.append("\n");
            fail_with(EXIT_FAILURE, text)
        },
    }
}

} // verus!
