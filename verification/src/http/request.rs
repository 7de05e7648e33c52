//! Writing an HTTP/1.1 request.

use crate::args::{text_view, texts_view, Args};
use crate::http::url::{parse, spec_parse};
use crate::numbers::{decimal_text, write_decimal};
use crate::text::push_chars;
use vstd::prelude::*;
use vstd::string::{StrSliceExecFns, StringExecFns};
use vstd::utf8::encode_utf8;

verus! {

/// The symbol of the standard base64 alphabet that stands for `v`.
pub open spec fn base64_symbol(v: int) -> char {
    if v < 26 {
        (v + 'A' as u32) as char
    } else if v < 52 {
        (v - 26 + 'a' as u32) as char
    } else if v < 62 {
        (v - 52 + '0' as u32) as char
    } else if v == 62 {
        '+'
    } else {
        '/'
    }
}

/// Standard base64 of `data`, padded with `=` and without line breaks:
/// every three bytes give four symbols of six bits each, and a last group
/// of one or two bytes gives two or three symbols and padding.
pub open spec fn base64_text(data: Seq<u8>) -> Seq<char>
    decreases data.len(),
{
    if data.len() == 0 {
        Seq::empty()
    } else if data.len() == 1 {
        seq![
            base64_symbol(data[0] as int / 4),
            base64_symbol((data[0] as int % 4) * 16),
            '=',
            '=',
        ]
    } else if data.len() == 2 {
        seq![
            base64_symbol(data[0] as int / 4),
            base64_symbol((data[0] as int % 4) * 16 + data[1] as int / 16),
            base64_symbol((data[1] as int % 16) * 4),
            '=',
        ]
    } else {
        seq![
            base64_symbol(data[0] as int / 4),
            base64_symbol((data[0] as int % 4) * 16 + data[1] as int / 16),
            base64_symbol((data[1] as int % 16) * 4 + data[2] as int / 64),
            base64_symbol(data[2] as int % 64),
        ] + base64_text(data.skip(3))
    }
}

fn symbol(v: u8) -> (c: char)
    requires
        v < 64,
    ensures
        c == base64_symbol(v as int),
{
    if v < 26 {
        (v + 0x41) as char
    } else if v < 52 {
        (v - 26 + 0x61) as char
    } else if v < 62 {
        (v - 52 + 0x30) as char
    } else if v == 62 {
        '+'
    } else {
        '/'
    }
}

/// Encodes `data` in base64.
pub fn base64_encode(data: &[u8]) -> (r: String)
    ensures
        r@ == base64_text(data@),
{
    let mut result = String::new();
    let mut i: usize = 0;
    let n = data.len();
    assert(data@.skip(0) =~= data@);
    assert(Seq::<char>::empty() + base64_text(data@) =~= base64_text(data@));
    while i < n
        invariant
            n == data@.len(),
            i <= n,
            result@ + base64_text(data@.skip(i as int)) == base64_text(data@),
        decreases n - i,
    {
        let ghost rest = data@.skip(i as int);
        let ghost before = result@;
        let b1: u8 = data[i];
        let b2: u8 = if n - i > 1 {
            data[i + 1]
        } else {
            0
        };
        let b3: u8 = if n - i > 2 {
            data[i + 2]
        } else {
            0
        };
        let s1: u8 = b1 >> 2;
        let s2: u8 = ((b1 & 0x03) << 4) | (b2 >> 4);
        let s3: u8 = ((b2 & 0x0f) << 2) | (b3 >> 6);
        let s4: u8 = b3 & 0x3f;
        assert(s1 == b1 / 4 && s1 < 64) by (bit_vector)
            requires
                s1 == b1 >> 2,
        ;
        assert(s2 == (b1 % 4) * 16 + b2 / 16 && s2 < 64) by (bit_vector)
            requires
                s2 == ((b1 & 0x03) << 4) | (b2 >> 4),
        ;
        assert(s3 == (b2 % 16) * 4 + b3 / 64 && s3 < 64) by (bit_vector)
            requires
                s3 == ((b2 & 0x0f) << 2) | (b3 >> 6),
        ;
        assert(s4 == b3 % 64 && s4 < 64) by (bit_vector)
            requires
                s4 == b3 & 0x3f,
        ;
        assert(rest[0] == b1);
        result.push(symbol(s1));
        result.push(symbol(s2));
        if n - i > 1 {
            assert(rest[1] == b2);
            result.push(symbol(s3));
        } else {
            result.push('=');
        }
        if n - i > 2 {
            assert(rest[2] == b3);
            result.push(symbol(s4));
            assert(rest.skip(3) =~= data@.skip(i + 3));
            assert(result@ =~= before + seq![
                base64_symbol(b1 as int / 4),
                base64_symbol((b1 as int % 4) * 16 + b2 as int / 16),
                base64_symbol((b2 as int % 16) * 4 + b3 as int / 64),
                base64_symbol(b3 as int % 64),
            ]);
            assert(result@ + base64_text(data@.skip(i + 3)) =~= before + base64_text(rest));
            i += 3;
        } else {
            result.push('=');
            assert(result@ =~= before + base64_text(rest));
            assert(base64_text(data@.skip(n as int)) =~= Seq::<char>::empty());
            assert(result@ + base64_text(data@.skip(n as int)) =~= result@);
            i = n;
        }
    }
    assert(base64_text(data@.skip(i as int)) =~= Seq::<char>::empty());
    assert(result@ + Seq::<char>::empty() =~= result@);
    result
}


/// Each of `headers` followed by CRLF, in the order given.
pub open spec fn header_lines(headers: Seq<Seq<char>>) -> Seq<char>
    decreases headers.len(),
{
    if headers.len() == 0 {
        Seq::empty()
    } else {
        header_lines(headers.drop_last()) + headers.last() + "\r\n"@
    }
}

/// The request line with the `Host` and `Connection` lines.
pub open spec fn request_start(method: Seq<char>, path: Seq<char>, host: Seq<char>) -> Seq<char> {
    method + " "@ + path + " HTTP/1.1\r\nHost: "@ + host + "\r\nConnection: close\r\n"@
}

/// The `User-Agent` line, where an agent is set.
pub open spec fn user_agent_line(user_agent: Option<Seq<char>>) -> Seq<char> {
    match user_agent {
        Some(agent) => "User-Agent: "@ + agent + "\r\n"@,
        None => Seq::empty(),
    }
}

/// The `Authorization` line for basic authentication, where credentials
/// are set: the base64 of their UTF-8 bytes.
pub open spec fn authorization_line(user: Option<Seq<char>>) -> Seq<char> {
    match user {
        Some(credentials) => "Authorization: Basic "@ + base64_text(encode_utf8(credentials))
            + "\r\n"@,
        None => Seq::empty(),
    }
}

/// The `Content-Length` line, where there is a body: its length in bytes.
pub open spec fn content_length_line(data: Option<Seq<char>>) -> Seq<char> {
    match data {
        Some(body) => "Content-Length: "@ + decimal_text(encode_utf8(body).len()) + "\r\n"@,
        None => Seq::empty(),
    }
}

/// The head of a request, up to and with the blank line: request line,
/// `Host`, `Connection: close`, then `User-Agent`, `Authorization`, the
/// caller's header lines in their order, and `Content-Length`.
pub open spec fn request_head(
    method: Seq<char>,
    path: Seq<char>,
    host: Seq<char>,
    user_agent: Option<Seq<char>>,
    user: Option<Seq<char>>,
    headers: Seq<Seq<char>>,
    data: Option<Seq<char>>,
) -> Seq<char> {
    request_start(method, path, host) + user_agent_line(user_agent) + authorization_line(user)
        + header_lines(headers) + content_length_line(data) + "\r\n"@
}

/// The bytes of a request: its head in UTF-8, then the bytes of the body.
pub open spec fn request_bytes(head: Seq<char>, data: Option<Seq<char>>) -> Seq<u8> {
    encode_utf8(head) + (match data {
        Some(body) => encode_utf8(body),
        None => Seq::empty(),
    })
}

/// The request that `args` describe when sent to `url`, or the message
/// that says why `url` is refused.
pub open spec fn spec_build_for(url: Seq<char>, args: Args) -> Result<Seq<u8>, Seq<char>> {
    match spec_parse(url) {
        Err(message) => Err(message),
        Ok((host, _, path, _)) => Ok(
            request_bytes(
                request_head(
                    args.method@,
                    path,
                    host,
                    text_view(args.user_agent),
                    text_view(args.user),
                    texts_view(args.headers@),
                    text_view(args.data),
                ),
                text_view(args.data),
            ),
        ),
    }
}

/// The request that `args` describe, or the message that says why their
/// URL is refused.
pub open spec fn spec_build(args: Args) -> Result<Seq<u8>, Seq<char>> {
    spec_build_for(args.url@, args)
}

/// Whether `r` is the request or the message that `expected` names.
pub open spec fn built_as(r: Result<Vec<u8>, &'static str>, expected: Result<Seq<u8>, Seq<char>>) -> bool {
    match r {
        Ok(bytes) => expected == Ok::<Seq<u8>, Seq<char>>(bytes@),
        Err(message) => expected == Err::<Seq<u8>, Seq<char>>(message@),
    }
}

/// Appends the caller's header lines to `request`.
pub(crate) fn push_header_lines(request: &mut String, headers: &Vec<String>)
    ensures
        final(request)@ == old(request)@ + header_lines(texts_view(headers@)),
{
    let mut i: usize = 0;
    let ghost all = texts_view(headers@);
    assert(all.take(0) =~= Seq::<Seq<char>>::empty());
    assert(request@ =~= old(request)@ + header_lines(all.take(0)));
    while i < headers.len()
        invariant
            i <= headers@.len(),
            all == texts_view(headers@),
            request@ == old(request)@ + header_lines(all.take(i as int)),
        decreases headers@.len() - i,
    {
        let ghost before = request@;
        request.append(headers[i].as_str());
        request.append("\r\n");
        proof {
            let now = all.take(i + 1);
            assert(now.drop_last() =~= all.take(i as int));
            assert(now.last() == headers@[i as int]@);
            assert(request@ =~= old(request)@ + header_lines(now));
        }
        i += 1;
    }
    assert(all.take(i as int) =~= all);
}

/// Appends the `Content-Length` line for `data` to `request`.
pub(crate) fn push_content_length(request: &mut String, data: &Option<String>)
    ensures
        final(request)@ == old(request)@ + content_length_line(text_view(*data)),
{
    match data {
        Some(body) => {
            request.append("Content-Length: ");
            let digits = write_decimal(body.as_str().as_bytes().len() as u64);
            push_chars(request, digits.as_slice());
            request.append("\r\n");
            assert(request@ =~= old(request)@ + content_length_line(text_view(*data)));
        },
        None => {
            assert(request@ =~= old(request)@ + content_length_line(text_view(*data)));
        },
    }
}

/// The bytes of `head`, followed by the bytes of `data`.
pub(crate) fn finish_request(head: String, data: &Option<String>) -> (r: Vec<u8>)
    ensures
        r@ == request_bytes(head@, text_view(*data)),
{
    let mut bytes = head.as_str().as_bytes_vec();
    match data {
        Some(body) => {
            let ghost before = bytes@;
            bytes.extend_from_slice(body.as_str().as_bytes());
            assert(bytes@ =~= before + encode_utf8(body@));
        },
        None => {
            assert(bytes@ =~= request_bytes(head@, text_view(*data)));
        },
    }
    bytes
}

/// Builds the HTTP/1.1 request that `args` describe.
pub fn build(args: &Args) -> (r: Result<Vec<u8>, &'static str>)
    ensures
        built_as(r, spec_build(*args)),
{
    let (host, path) = match parse(args.url.as_str()) {
        Ok((host, _, path, _)) => (host, path),
        Err(message) => {
            return Err(message);
        },
    };
    let mut request = String::new();
    request.append(args.method.as_str());
    request.append(" ");
    request.append(path.as_str());
    request.append(" HTTP/1.1\r\nHost: ");
    request.append(host.as_str());
    request.append("\r\nConnection: close\r\n");
    assert(request@ =~= request_start(args.method@, path@, host@));
    match &args.user_agent {
        Some(agent) => {
            request.append("User-Agent: ");
            request.append(agent.as_str());
            request.append("\r\n");
        },
        None => {},
    }
    assert(request@ =~= request_start(args.method@, path@, host@) + user_agent_line(
        text_view(args.user_agent),
    ));
    let ghost with_agent = request@;
    match &args.user {
        Some(credentials) => {
            let encoded = base64_encode(credentials.as_str().as_bytes());
            request.append("Authorization: Basic ");
            request.append(encoded.as_str());
            request.append("\r\n");
        },
        None => {},
    }
    assert(request@ =~= with_agent + authorization_line(text_view(args.user)));
    push_header_lines(&mut request, &args.headers);
    push_content_length(&mut request, &args.data);
    request.append("\r\n");
    Ok(finish_request(request, &args.data))
}

} // verus!
