//! A reduced HTTP/2 framing: one stream, header blocks as plain text.

use crate::args::{texts_view, Args};
use crate::bytes::{bytes_occur_at, decode_text, text_of};
use crate::numbers::{decimal_text, hex_byte_text, write_decimal, write_hex_byte};
use crate::text::push_chars;
use crate::http::request::built_as;
use crate::http::url::{parse, spec_parse};
use vstd::prelude::*;
use vstd::string::StringExecFns;
use vstd::utf8::encode_utf8;

verus! {

/// HTTP/2 frame types.
#[derive(Clone, Copy, Debug, PartialEq, Eq, Structural)]
pub enum Http2FrameType {
    Data,
    Headers,
    Priority,
    RstStream,
    Settings,
    PushPromise,
    Ping,
    GoAway,
    WindowUpdate,
    Continuation,
}

/// HTTP/2 frame flags.
#[derive(Clone, Copy, Debug, PartialEq, Eq, Structural)]
pub enum Http2FrameFlag {
    EndStream,
    EndHeaders,
    Padded,
    Priority,
}

/// The type byte of a frame type.
pub open spec fn frame_type_code(t: Http2FrameType) -> u8 {
    match t {
        Http2FrameType::Data => 0x0,
        Http2FrameType::Headers => 0x1,
        Http2FrameType::Priority => 0x2,
        Http2FrameType::RstStream => 0x3,
        Http2FrameType::Settings => 0x4,
        Http2FrameType::PushPromise => 0x5,
        Http2FrameType::Ping => 0x6,
        Http2FrameType::GoAway => 0x7,
        Http2FrameType::WindowUpdate => 0x8,
        Http2FrameType::Continuation => 0x9,
    }
}

/// The bit of a flag in the flags byte.
pub open spec fn frame_flag_bit(f: Http2FrameFlag) -> u8 {
    match f {
        Http2FrameFlag::EndStream => 0x1,
        Http2FrameFlag::EndHeaders => 0x4,
        Http2FrameFlag::Padded => 0x8,
        Http2FrameFlag::Priority => 0x20,
    }
}

impl Http2FrameType {
    /// The type byte of this frame type.
    pub fn code(self) -> (r: u8)
        ensures
            r == frame_type_code(self),
    {
        match self {
            Http2FrameType::Data => 0x0,
            Http2FrameType::Headers => 0x1,
            Http2FrameType::Priority => 0x2,
            Http2FrameType::RstStream => 0x3,
            Http2FrameType::Settings => 0x4,
            Http2FrameType::PushPromise => 0x5,
            Http2FrameType::Ping => 0x6,
            Http2FrameType::GoAway => 0x7,
            Http2FrameType::WindowUpdate => 0x8,
            Http2FrameType::Continuation => 0x9,
        }
    }
}

impl Http2FrameFlag {
    /// The bit of this flag in the flags byte.
    pub fn bit(self) -> (r: u8)
        ensures
            r == frame_flag_bit(self),
    {
        match self {
            Http2FrameFlag::EndStream => 0x1,
            Http2FrameFlag::EndHeaders => 0x4,
            Http2FrameFlag::Padded => 0x8,
            Http2FrameFlag::Priority => 0x20,
        }
    }
}

/// Length of a frame header.
pub const FRAME_HEADER_SIZE: usize = 9;

/// The 24 bytes that open an HTTP/2 connection:
/// `PRI * HTTP/2.0\r\n\r\nSM\r\n\r\n`.
pub open spec fn connection_preface() -> Seq<u8> {
    seq![
        0x50u8, 0x52u8, 0x49u8, 0x20u8, 0x2au8, 0x20u8, 0x48u8, 0x54u8, 0x54u8, 0x50u8, 0x2fu8,
        0x32u8, 0x2eu8, 0x30u8, 0x0du8, 0x0au8, 0x0du8, 0x0au8, 0x53u8, 0x4du8, 0x0du8, 0x0au8,
        0x0du8, 0x0au8,
    ]
}

/// The three length bytes of a frame header: the low 24 bits of `n`, most
/// significant byte first.
pub open spec fn length_bytes(n: int) -> Seq<u8> {
    seq![((n / 65536) % 256) as u8, ((n / 256) % 256) as u8, (n % 256) as u8]
}

/// The four bytes of a stream identifier, most significant byte first.
pub open spec fn stream_id_bytes(id: u32) -> Seq<u8> {
    seq![
        ((id / 16777216) % 256) as u8,
        ((id / 65536) % 256) as u8,
        ((id / 256) % 256) as u8,
        (id % 256) as u8,
    ]
}

/// A frame on the wire: the nine bytes of its header, then its payload.
pub open spec fn frame_bytes(frame_type: u8, flags: u8, stream_id: u32, payload: Seq<u8>) -> Seq<
    u8,
> {
    length_bytes(payload.len() as int) + seq![frame_type, flags] + stream_id_bytes(stream_id)
        + payload
}

/// The payload of the SETTINGS frame: the maximum of concurrent streams
/// (setting 3) is 100.
pub open spec fn settings_payload() -> Seq<u8> {
    seq![0u8, 3u8, 0u8, 0u8, 0u8, 100u8]
}

/// The SETTINGS frame of a request.
pub open spec fn settings_frame() -> Seq<u8> {
    frame_bytes(frame_type_code(Http2FrameType::Settings), 0, 0, settings_payload())
}

fn push_frame_header(frame: &mut Vec<u8>, length: usize, frame_type: u8, flags: u8, stream_id: u32)
    ensures
        final(frame)@ == old(frame)@ + length_bytes(length as int) + seq![frame_type, flags]
            + stream_id_bytes(stream_id),
{
    frame.push(((length / 65536) % 256) as u8);
    frame.push(((length / 256) % 256) as u8);
    frame.push((length % 256) as u8);
    frame.push(frame_type);
    frame.push(flags);
    frame.push(((stream_id / 16777216) % 256) as u8);
    frame.push(((stream_id / 65536) % 256) as u8);
    frame.push(((stream_id / 256) % 256) as u8);
    frame.push((stream_id % 256) as u8);
    assert(frame@ =~= old(frame)@ + length_bytes(length as int) + seq![frame_type, flags]
        + stream_id_bytes(stream_id));
}

/// A frame on the wire.
pub fn encode_frame(frame_type: u8, flags: u8, stream_id: u32, payload: &[u8]) -> (r: Vec<u8>)
    ensures
        r@ == frame_bytes(frame_type, flags, stream_id, payload@),
{
    let mut frame: Vec<u8> = Vec::new();
    push_frame_header(&mut frame, payload.len(), frame_type, flags, stream_id);
    let ghost header = frame@;
    frame.extend_from_slice(payload);
    assert(frame@ =~= header + payload@);
    assert(header =~= length_bytes(payload@.len() as int) + seq![frame_type, flags]
        + stream_id_bytes(stream_id));
    frame
}

/// Creates the SETTINGS frame of a request.
pub fn create_http2_settings_frame() -> (r: Vec<u8>)
    ensures
        r@ == settings_frame(),
{
    let payload: [u8; 6] = [0, 3, 0, 0, 0, 100];
    assert(payload@ =~= settings_payload());
    encode_frame(Http2FrameType::Settings.code(), 0, 0, payload.as_slice())
}

/// `parts` with `separator` between each two of them.
pub open spec fn joined(parts: Seq<Seq<char>>, separator: Seq<char>) -> Seq<char>
    decreases parts.len(),
{
    if parts.len() == 0 {
        Seq::empty()
    } else if parts.len() == 1 {
        parts[0]
    } else {
        joined(parts.drop_last(), separator) + separator + parts.last()
    }
}

/// The header block of a request, as plain text: request line, `Host`
/// line, then the caller's header lines with CRLF between them and behind
/// the last.
pub open spec fn header_block(
    method: Seq<char>,
    path: Seq<char>,
    host: Seq<char>,
    headers: Seq<Seq<char>>,
) -> Seq<char> {
    method + " "@ + path + " HTTP/2.0\r\nHost: "@ + host + "\r\n"@ + joined(headers, "\r\n"@)
        + "\r\n"@
}

/// The flags of a HEADERS frame: the headers always end with it, and the
/// stream too where no body follows.
pub open spec fn headers_flags(has_body: bool) -> u8 {
    if has_body {
        0x4
    } else {
        0x5
    }
}

/// The HEADERS frame of a request, on stream 1.
pub open spec fn headers_frame(
    method: Seq<char>,
    path: Seq<char>,
    host: Seq<char>,
    headers: Seq<Seq<char>>,
    has_body: bool,
) -> Seq<u8> {
    frame_bytes(
        frame_type_code(Http2FrameType::Headers),
        headers_flags(has_body),
        1,
        encode_utf8(header_block(method, path, host, headers)),
    )
}

fn push_joined(out: &mut String, parts: &[String], separator: &str)
    ensures
        final(out)@ == old(out)@ + joined(texts_view(parts@), separator@),
{
    let ghost all = texts_view(parts@);
    let mut i: usize = 0;
    assert(all.take(0) =~= Seq::<Seq<char>>::empty());
    assert(out@ =~= old(out)@ + joined(all.take(0), separator@));
    while i < parts.len()
        invariant
            i <= parts@.len(),
            all == texts_view(parts@),
            out@ == old(out)@ + joined(all.take(i as int), separator@),
        decreases parts@.len() - i,
    {
        if i > 0 {
            out.append(separator);
        }
        out.append(parts[i].as_str());
        proof {
            let now = all.take(i + 1);
            assert(now.drop_last() =~= all.take(i as int));
            assert(now.last() == parts@[i as int]@);
            if i == 0 {
                assert(joined(all.take(0), separator@) =~= Seq::<char>::empty());
                assert(now[0] == parts@[0]@);
            }
            assert(out@ =~= old(out)@ + joined(now, separator@));
        }
        i += 1;
    }
    assert(all.take(i as int) =~= all);
}

/// Creates the HEADERS frame of a request.
pub fn create_http2_headers_frame(
    method: &str,
    path: &str,
    host: &str,
    headers: &[String],
    has_body: bool,
) -> (r: Vec<u8>)
    ensures
        r@ == headers_frame(method@, path@, host@, texts_view(headers@), has_body),
{
    let mut block = String::new();
    block.append(method);
    block.append(" ");
    block.append(path);
    block.append(" HTTP/2.0\r\nHost: ");
    block.append(host);
    block.append("\r\n");
    push_joined(&mut block, headers, "\r\n");
    block.append("\r\n");
    assert(block@ =~= header_block(method@, path@, host@, texts_view(headers@)));
    let flags: u8 = if has_body {
        Http2FrameFlag::EndHeaders.bit()
    } else {
        Http2FrameFlag::EndHeaders.bit() + Http2FrameFlag::EndStream.bit()
    };
    encode_frame(Http2FrameType::Headers.code(), flags, 1, block.as_str().as_bytes())
}

/// The DATA frame that carries `data` and ends stream 1.
pub open spec fn data_frame(data: Seq<u8>) -> Seq<u8> {
    frame_bytes(frame_type_code(Http2FrameType::Data), 0x1, 1, data)
}

/// Creates the DATA frame for the body of a request.
pub fn create_http2_data_frame(data: &[u8]) -> (r: Vec<u8>)
    ensures
        r@ == data_frame(data@),
{
    encode_frame(Http2FrameType::Data.code(), Http2FrameFlag::EndStream.bit(), 1, data)
}

/// The HTTP/2 request that `args` describe: the connection preface, the
/// SETTINGS frame, the HEADERS frame and, where there is a body, its DATA
/// frame; or the message that says why the URL is refused.
pub open spec fn spec_build_http2_request(args: Args) -> Result<Seq<u8>, Seq<char>> {
    match spec_parse(args.url@) {
        Err(message) => Err(message),
        Ok((host, _, path, _)) => Ok(
            connection_preface() + settings_frame() + headers_frame(
                args.method@,
                path,
                host,
                texts_view(args.headers@),
                args.data is Some,
            ) + (match args.data {
                Some(body) => data_frame(encode_utf8(body@)),
                None => Seq::empty(),
            }),
        ),
    }
}

fn preface_bytes() -> (r: [u8; 24])
    ensures
        r@ == connection_preface(),
{
    let r: [u8; 24] = [
        0x50, 0x52, 0x49, 0x20, 0x2a, 0x20, 0x48, 0x54, 0x54, 0x50, 0x2f, 0x32, 0x2e, 0x30, 0x0d,
        0x0a, 0x0d, 0x0a, 0x53, 0x4d, 0x0d, 0x0a, 0x0d, 0x0a,
    ];
    assert(r@ =~= connection_preface());
    r
}

/// Builds the HTTP/2 request that `args` describe.
pub fn build_http2_request(args: &Args) -> (r: Result<Vec<u8>, &'static str>)
    ensures
        built_as(r, spec_build_http2_request(*args)),
{
    let (host, path) = match parse(args.url.as_str()) {
        Ok((host, _, path, _)) => (host, path),
        Err(message) => {
            return Err(message);
        },
    };
    let mut request: Vec<u8> = Vec::new();
    let preface = preface_bytes();
    request.extend_from_slice(preface.as_slice());
    let settings = create_http2_settings_frame();
    request.extend_from_slice(settings.as_slice());
    let has_body = args.data.is_some();
    let headers = create_http2_headers_frame(
        args.method.as_str(),
        path.as_str(),
        host.as_str(),
        args.headers.as_slice(),
        has_body,
    );
    request.extend_from_slice(headers.as_slice());
    assert(request@ =~= connection_preface() + settings_frame() + headers@);
    match &args.data {
        Some(body) => {
            let ghost before = request@;
            let data = create_http2_data_frame(body.as_str().as_bytes());
            request.extend_from_slice(data.as_slice());
            assert(request@ =~= before + data@);
        },
        None => {
            assert(request@ =~= request@ + Seq::<u8>::empty());
        },
    }
    Ok(request)
}


/// One frame of a response.
#[derive(Debug, PartialEq, Eq)]
pub struct Frame {
    pub frame_type: u8,
    pub flags: u8,
    /// The stream identifier, without its reserved top bit.
    pub stream_id: u32,
    pub payload: Vec<u8>,
}

/// [`Frame`] as contracts see it.
pub struct FrameView {
    pub frame_type: u8,
    pub flags: u8,
    pub stream_id: u32,
    pub payload: Seq<u8>,
}

impl View for Frame {
    type V = FrameView;

    open spec fn view(&self) -> FrameView {
        FrameView {
            frame_type: self.frame_type,
            flags: self.flags,
            stream_id: self.stream_id,
            payload: self.payload@,
        }
    }
}

/// The views of a list of frames.
pub open spec fn frames_view(frames: Seq<Frame>) -> Seq<FrameView> {
    Seq::new(frames.len(), |i: int| frames[i]@)
}

/// Whether `response` is longer than the connection preface and begins
/// with it.
pub open spec fn has_preface(response: Seq<u8>) -> bool {
    response.len() > 24 && response.take(24) == connection_preface()
}

/// The payload length that the frame header at index `at` announces.
pub open spec fn frame_length(response: Seq<u8>, at: int) -> int {
    response[at] as int * 65536 + response[at + 1] as int * 256 + response[at + 2] as int
}

/// The stream identifier in the frame header at index `at`: 31 bits, the
/// top bit of the first byte left out.
pub open spec fn frame_stream_id(response: Seq<u8>, at: int) -> u32 {
    ((response[at + 5] as int % 128) * 16777216 + response[at + 6] as int * 65536 + response[at
        + 7] as int * 256 + response[at + 8] as int) as u32
}

/// The frames of `response` from index `at` on. A frame header takes nine
/// bytes; the frames end where fewer are left, and before a frame whose
/// announced payload the response does not hold in full.
pub open spec fn frames_from(response: Seq<u8>, at: int) -> Seq<FrameView>
    decreases response.len() - at,
{
    if at < 0 || at + 9 > response.len() {
        Seq::empty()
    } else {
        let length = frame_length(response, at);
        if at + 9 + length > response.len() {
            Seq::empty()
        } else {
            seq![
                FrameView {
                    frame_type: response[at + 3],
                    flags: response[at + 4],
                    stream_id: frame_stream_id(response, at),
                    payload: response.subrange(at + 9, at + 9 + length),
                },
            ] + frames_from(response, at + 9 + length)
        }
    }
}

/// The frames of `response`, behind the connection preface where it begins
/// with one.
pub open spec fn spec_decode_frames(response: Seq<u8>) -> Seq<FrameView> {
    frames_from(
        response,
        if has_preface(response) {
            24
        } else {
            0
        },
    )
}

/// The payloads of the DATA frames among `frames`, one after the other.
pub open spec fn data_payload(frames: Seq<FrameView>) -> Seq<u8>
    decreases frames.len(),
{
    if frames.len() == 0 {
        Seq::empty()
    } else {
        data_payload(frames.drop_last()) + (if frames.last().frame_type == frame_type_code(
            Http2FrameType::Data,
        ) {
            frames.last().payload
        } else {
            Seq::empty()
        })
    }
}

/// The body of an HTTP/2 response.
pub open spec fn spec_parse_http2_response(response: Seq<u8>) -> Seq<u8> {
    data_payload(spec_decode_frames(response))
}

/// Whether `response` is longer than the connection preface and begins
/// with it.
pub fn starts_with_preface(response: &[u8]) -> (r: bool)
    ensures
        r == has_preface(response@),
{
    if response.len() <= 24 {
        return false;
    }
    let preface = preface_bytes();
    let r = bytes_occur_at(response, preface.as_slice(), 0);
    assert(connection_preface().len() == 24);
    assert(response@.take(24) =~= response@.subrange(0, 24));
    r
}

/// Reads the frame header at index `at`: the payload length that it
/// announces, the type, the flags and the stream identifier.
fn read_frame_header(response: &[u8], at: usize) -> (r: (usize, u8, u8, u32))
    requires
        at + 9 <= response@.len(),
    ensures
        r.0 == frame_length(response@, at as int),
        r.1 == response@[at + 3],
        r.2 == response@[at + 4],
        r.3 == frame_stream_id(response@, at as int),
        r.3 < 2147483648,
{
    let length: usize = (response[at] as usize) * 65536 + (response[at + 1] as usize) * 256 + (
    response[at + 2] as usize);
    let stream_id: u32 = ((response[at + 5] % 128) as u32) * 16777216 + (response[at
        + 6] as u32) * 65536 + (response[at + 7] as u32) * 256 + (response[at + 8] as u32);
    (length, response[at + 3], response[at + 4], stream_id)
}

/// Takes the frames of a response apart.
pub fn decode_frames(response: &[u8]) -> (r: Vec<Frame>)
    ensures
        frames_view(r@) == spec_decode_frames(response@),
        forall|k: int| 0 <= k < r@.len() ==> (#[trigger] r@[k]).stream_id < 2147483648,
{
    let mut frames: Vec<Frame> = Vec::new();
    let mut i: usize = if starts_with_preface(response) {
        24
    } else {
        0
    };
    let n = response.len();
    assert(frames_view(frames@) =~= Seq::<FrameView>::empty());
    assert(Seq::<FrameView>::empty() + frames_from(response@, i as int) =~= frames_from(
        response@,
        i as int,
    ));
    while n - i >= 9
        invariant
            i <= n,
            n == response@.len(),
            frames_view(frames@) + frames_from(response@, i as int) == spec_decode_frames(
                response@,
            ),
            forall|k: int| 0 <= k < frames@.len() ==> (#[trigger] frames@[k]).stream_id < 2147483648,
        ensures
            frames_from(response@, i as int) == Seq::<FrameView>::empty(),
        decreases n - i,
    {
        let (length, frame_type, flags, stream_id) = read_frame_header(response, i);
        if n - i - 9 < length {
            break;
        }
        let mut payload: Vec<u8> = Vec::new();
        payload.extend_from_slice(&response[i + 9..i + 9 + length]);
        assert(payload@ =~= response@.subrange(i + 9, i + 9 + length));
        let ghost before = frames_view(frames@);
        let frame = Frame { frame_type, flags, stream_id, payload };
        frames.push(frame);
        proof {
            assert(frames_view(frames@) =~= before.push(frame@));
            assert(before.push(frame@) + frames_from(response@, i + 9 + length) =~= before + (
            seq![frame@] + frames_from(response@, i + 9 + length)));
        }
        i = i + 9 + length;
    }
    assert(frames_view(frames@) + Seq::<FrameView>::empty() =~= frames_view(frames@));
    frames
}

/// Takes the body out of an HTTP/2 response: the payloads of its DATA
/// frames, joined.
pub fn parse_http2_response(response: &[u8]) -> (r: Vec<u8>)
    ensures
        r@ == spec_parse_http2_response(response@),
{
    let frames = decode_frames(response);
    let mut body: Vec<u8> = Vec::new();
    let mut k: usize = 0;
    let ghost all = frames_view(frames@);
    assert(all.take(0) =~= Seq::<FrameView>::empty());
    while k < frames.len()
        invariant
            k <= frames@.len(),
            all == frames_view(frames@),
            body@ == data_payload(all.take(k as int)),
        decreases frames@.len() - k,
    {
        let ghost before = body@;
        if frames[k].frame_type == 0 {
            body.extend_from_slice(frames[k].payload.as_slice());
            assert(body@ =~= before + frames@[k as int].payload@);
        } else {
            assert(body@ =~= before + Seq::<u8>::empty());
        }
        proof {
            let now = all.take(k + 1);
            assert(now.drop_last() =~= all.take(k as int));
            assert(now.last() == frames@[k as int]@);
        }
        k += 1;
    }
    assert(all.take(k as int) =~= all);
    body
}


/// The line that reports a frame header.
pub open spec fn frame_line(frame_type: u8, length: int, flags: u8, stream_id: u32) -> Seq<char> {
    "Frame: type="@ + decimal_text(frame_type as nat) + ", length="@ + decimal_text(length as nat)
        + ", flags="@ + hex_byte_text(flags) + ", stream_id="@ + decimal_text(stream_id as nat)
        + "\n"@
}

/// The lines that report what a frame carries: the size of a DATA frame;
/// the size of a HEADERS frame and, where it is text, its header block;
/// for any other frame its type.
pub open spec fn frame_note(frame_type: u8, payload: Seq<u8>) -> Seq<char> {
    if frame_type == frame_type_code(Http2FrameType::Data) {
        "DATA frame: "@ + decimal_text(payload.len()) + " bytes\n"@
    } else if frame_type == frame_type_code(Http2FrameType::Headers) {
        "HEADERS frame: "@ + decimal_text(payload.len()) + " bytes\n"@ + (match text_of(payload) {
            Some(t) => "Headers (not properly decoded): "@ + t + "\n"@,
            None => Seq::empty(),
        })
    } else {
        "Unhandled frame type: "@ + decimal_text(frame_type as nat) + "\n"@
    }
}

/// The report of the frames of `response` from index `at` on: for each
/// frame its header line and what it carries; for a frame whose payload
/// the response does not hold in full, its header line and that it is
/// incomplete, which ends the report.
pub open spec fn frame_report_from(response: Seq<u8>, at: int) -> Seq<char>
    decreases response.len() - at,
{
    if at < 0 || at + 9 > response.len() {
        Seq::empty()
    } else {
        let length = frame_length(response, at);
        let line = frame_line(
            response[at + 3],
            length,
            response[at + 4],
            frame_stream_id(response, at),
        );
        if at + 9 + length > response.len() {
            line + "Incomplete frame, stopping parsing\n"@
        } else {
            line + frame_note(response[at + 3], response.subrange(at + 9, at + 9 + length))
                + frame_report_from(response, at + 9 + length)
        }
    }
}

/// The first lines of a frame report: the size of the response, and a
/// note.
pub open spec fn report_heading(response: Seq<u8>) -> Seq<char> {
    "HTTP/2 response received ("@ + decimal_text(response.len()) + " bytes)\n"@
        + "Note: HTTP/2 response parsing is simplified\n"@
}

/// The verbose report of an HTTP/2 response: a heading, then its frames,
/// behind the connection preface where it begins with one.
pub open spec fn spec_frame_report(response: Seq<u8>) -> Seq<char> {
    report_heading(response) + frame_report_from(
        response,
        if has_preface(response) {
            24
        } else {
            0
        },
    )
}

fn push_decimal(out: &mut String, n: u64)
    ensures
        final(out)@ == old(out)@ + decimal_text(n as nat),
{
    let digits = write_decimal(n);
    push_chars(out, digits.as_slice());
}

fn push_frame_line(out: &mut String, frame_type: u8, length: usize, flags: u8, stream_id: u32)
    ensures
        final(out)@ == old(out)@ + frame_line(frame_type, length as int, flags, stream_id),
{
    out.append("Frame: type=");
    push_decimal(out, frame_type as u64);
    out.append(", length=");
    push_decimal(out, length as u64);
    out.append(", flags=");
    let hex = write_hex_byte(flags);
    push_chars(out, hex.as_slice());
    out.append(", stream_id=");
    push_decimal(out, stream_id as u64);
    out.append("\n");
    assert(out@ =~= old(out)@ + frame_line(frame_type, length as int, flags, stream_id));
}

fn push_frame_note(out: &mut String, frame_type: u8, payload: &[u8])
    ensures
        final(out)@ == old(out)@ + frame_note(frame_type, payload@),
{
    if frame_type == 0 {
        out.append("DATA frame: ");
        push_decimal(out, payload.len() as u64);
        out.append(" bytes\n");
        assert(out@ =~= old(out)@ + frame_note(frame_type, payload@));
    } else if frame_type == 1 {
        out.append("HEADERS frame: ");
        push_decimal(out, payload.len() as u64);
        out.append(" bytes\n");
        match decode_text(payload) {
            Some(chars) => {
                out.append("Headers (not properly decoded): ");
                push_chars(out, chars.as_slice());
                out.append("\n");
                assert(out@ =~= old(out)@ + frame_note(frame_type, payload@));
            },
            None => {
                assert(out@ =~= old(out)@ + frame_note(frame_type, payload@));
            },
        }
    } else {
        out.append("Unhandled frame type: ");
        push_decimal(out, frame_type as u64);
        out.append("\n");
        assert(out@ =~= old(out)@ + frame_note(frame_type, payload@));
    }
}

/// The verbose report of an HTTP/2 response.
pub fn frame_report(response: &[u8]) -> (r: String)
    ensures
        r@ == spec_frame_report(response@),
{
    let n = response.len();
    let mut out = String::new();
    out.append("HTTP/2 response received (");
    push_decimal(&mut out, n as u64);
    out.append(" bytes)\n");
    out.append("Note: HTTP/2 response parsing is simplified\n");
    assert(out@ =~= report_heading(response@));
    let mut i: usize = if starts_with_preface(response) {
        24
    } else {
        0
    };
    assert(out@ + frame_report_from(response@, i as int) =~= spec_frame_report(response@));
    while n - i >= 9
        invariant
            i <= n,
            n == response@.len(),
            out@ + frame_report_from(response@, i as int) == spec_frame_report(response@),
        decreases n - i,
    {
        let (length, frame_type, flags, stream_id) = read_frame_header(response, i);
        let ghost before = out@;
        let ghost line = frame_line(frame_type, length as int, flags, stream_id);
        push_frame_line(&mut out, frame_type, length, flags, stream_id);
        if n - i - 9 < length {
            out.append("Incomplete frame, stopping parsing\n");
            proof {
                assert(frame_report_from(response@, n as int) =~= Seq::<char>::empty());
                assert(out@ + Seq::<char>::empty() =~= before + (line
                    + "Incomplete frame, stopping parsing\n"@));
            }
            i = n;
        } else {
            let payload = &response[i + 9..i + 9 + length];
            push_frame_note(&mut out, frame_type, payload);
            proof {
                let note = frame_note(frame_type, payload@);
                let rest = frame_report_from(response@, i + 9 + length);
                assert(out@ + rest =~= before + (line + note + rest));
            }
            i = i + 9 + length;
        }
    }
    proof {
        assert(frame_report_from(response@, i as int) =~= Seq::<char>::empty());
        assert(out@ + Seq::<char>::empty() =~= out@);
    }
    out
}

proof fn lemma_three_bytes(n: int)
    requires
        0 <= n < 16777216,
    ensures
        ((n / 65536) % 256) * 65536 + ((n / 256) % 256) * 256 + n % 256 == n,
{
}

proof fn lemma_four_bytes(n: int)
    requires
        0 <= n < 2147483648,
    ensures
        (((n / 16777216) % 256) % 128) * 16777216 + ((n / 65536) % 256) * 65536 + ((n / 256)
            % 256) * 256 + n % 256 == n,
{
}

proof fn lemma_frame_header(frame_type: u8, flags: u8, stream_id: u32, payload: Seq<u8>)
    requires
        payload.len() < 16777216,
        stream_id < 2147483648,
    ensures
        frame_bytes(frame_type, flags, stream_id, payload).len() == 9 + payload.len(),
        frame_length(frame_bytes(frame_type, flags, stream_id, payload), 0) == payload.len(),
        frame_stream_id(frame_bytes(frame_type, flags, stream_id, payload), 0) == stream_id,
        frame_bytes(frame_type, flags, stream_id, payload)[3] == frame_type,
        frame_bytes(frame_type, flags, stream_id, payload)[4] == flags,
        frame_bytes(frame_type, flags, stream_id, payload).subrange(
            9,
            9 + payload.len() as int,
        ) == payload,
{
    let wire = frame_bytes(frame_type, flags, stream_id, payload);
    let n = payload.len() as int;
    let id = stream_id as int;
    let head = length_bytes(n) + seq![frame_type, flags] + stream_id_bytes(stream_id);
    assert(head.len() == 9);
    assert(wire =~= head + payload);
    assert(wire[0] == head[0] && wire[1] == head[1] && wire[2] == head[2]);
    assert(wire[3] == head[3] && wire[4] == head[4]);
    assert(wire[5] == head[5] && wire[6] == head[6] && wire[7] == head[7] && wire[8] == head[8]);
    assert(head[0] == ((n / 65536) % 256) as u8);
    assert(head[1] == ((n / 256) % 256) as u8);
    assert(head[2] == (n % 256) as u8);
    assert(head[5] == ((id / 16777216) % 256) as u8);
    assert(head[6] == ((id / 65536) % 256) as u8);
    assert(head[7] == ((id / 256) % 256) as u8);
    assert(head[8] == (id % 256) as u8);
    lemma_three_bytes(n);
    lemma_four_bytes(id);
    assert(wire.subrange(9, 9 + n) =~= payload);
}

/// Decoding gives back what was encoded: a frame whose payload fits the
/// three length bytes and whose stream identifier fits 31 bits is the one
/// frame that the decoder finds in its encoding, unless that encoding
/// happens to begin with the connection preface.
pub proof fn lemma_frame_round_trip(frame_type: u8, flags: u8, stream_id: u32, payload: Seq<u8>)
    requires
        payload.len() < 16777216,
        stream_id < 2147483648,
        !has_preface(frame_bytes(frame_type, flags, stream_id, payload)),
    ensures
        spec_decode_frames(frame_bytes(frame_type, flags, stream_id, payload)) == seq![
            FrameView { frame_type, flags, stream_id, payload },
        ],
{
    let wire = frame_bytes(frame_type, flags, stream_id, payload);
    let n = payload.len() as int;
    lemma_frame_header(frame_type, flags, stream_id, payload);
    assert(frames_from(wire, 9 + n) =~= Seq::<FrameView>::empty());
    assert(frames_from(wire, 0) =~= seq![FrameView { frame_type, flags, stream_id, payload }]);
}

} // verus!
