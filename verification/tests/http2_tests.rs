use rurl::args::Args;
use rurl::http2::{
    build_http2_request, create_http2_data_frame, create_http2_headers_frame,
    create_http2_settings_frame, decode_frames, encode_frame, frame_report,
    parse_http2_response, starts_with_preface, Frame, Http2FrameFlag, Http2FrameType,
};

const PREFACE: &[u8] = b"PRI * HTTP/2.0\r\n\r\nSM\r\n\r\n";

fn args_for(url: &str) -> Args {
    Args {
        url: url.to_string(),
        output: None,
        method: "GET".to_string(),
        headers: Vec::new(),
        data: None,
        help: false,
        verbose: false,
        tls_version: None,
        include_headers: false,
        head_only: false,
        follow_redirects: false,
        silent: false,
        user_agent: None,
        user: None,
        fail_fast: false,
        http2: true,
    }
}

#[test]
fn frame_type_and_flag_codes() {
    assert_eq!(Http2FrameType::Data.code(), 0x0);
    assert_eq!(Http2FrameType::Headers.code(), 0x1);
    assert_eq!(Http2FrameType::Priority.code(), 0x2);
    assert_eq!(Http2FrameType::RstStream.code(), 0x3);
    assert_eq!(Http2FrameType::Settings.code(), 0x4);
    assert_eq!(Http2FrameType::PushPromise.code(), 0x5);
    assert_eq!(Http2FrameType::Ping.code(), 0x6);
    assert_eq!(Http2FrameType::GoAway.code(), 0x7);
    assert_eq!(Http2FrameType::WindowUpdate.code(), 0x8);
    assert_eq!(Http2FrameType::Continuation.code(), 0x9);
    assert_eq!(Http2FrameFlag::EndStream.bit(), 0x1);
    assert_eq!(Http2FrameFlag::EndHeaders.bit(), 0x4);
    assert_eq!(Http2FrameFlag::Padded.bit(), 0x8);
    assert_eq!(Http2FrameFlag::Priority.bit(), 0x20);
}

#[test]
fn settings_frame_bytes() {
    assert_eq!(
        create_http2_settings_frame(),
        vec![0, 0, 6, 4, 0, 0, 0, 0, 0, 0, 3, 0, 0, 0, 100]
    );
}

#[test]
fn headers_frame_bytes() {
    let headers = vec!["Accept: */*".to_string(), "X-A: b".to_string()];
    let frame = create_http2_headers_frame("GET", "/p", "h", &headers, false);
    let payload = b"GET /p HTTP/2.0\r\nHost: h\r\nAccept: */*\r\nX-A: b\r\n";
    let mut expected = vec![0, 0, payload.len() as u8, 1, 5, 0, 0, 0, 1];
    expected.extend_from_slice(payload);
    assert_eq!(frame, expected);

    let frame = create_http2_headers_frame("POST", "/", "h", &[], true);
    let payload = b"POST / HTTP/2.0\r\nHost: h\r\n\r\n";
    let mut expected = vec![0, 0, payload.len() as u8, 1, 4, 0, 0, 0, 1];
    expected.extend_from_slice(payload);
    assert_eq!(frame, expected);
}

#[test]
fn data_frame_bytes() {
    assert_eq!(create_http2_data_frame(b"hi"), vec![0, 0, 2, 0, 1, 0, 0, 0, 1, b'h', b'i']);
    assert_eq!(create_http2_data_frame(b""), vec![0, 0, 0, 0, 1, 0, 0, 0, 1]);
    let big = vec![7u8; 0x012345];
    let frame = create_http2_data_frame(&big);
    assert_eq!(&frame[..9], &[0x01, 0x23, 0x45, 0, 1, 0, 0, 0, 1]);
    assert_eq!(frame.len(), 9 + big.len());
}

#[test]
fn frame_header_holds_big_endian_stream_id() {
    let frame = encode_frame(9, 0x20, 0x01020304, b"x");
    assert_eq!(frame, vec![0, 0, 1, 9, 0x20, 1, 2, 3, 4, b'x']);
}

#[test]
fn http2_request_bytes() {
    let mut args = args_for("http://h/p");
    let request = build_http2_request(&args).unwrap();
    let mut expected = PREFACE.to_vec();
    expected.extend_from_slice(&create_http2_settings_frame());
    expected.extend_from_slice(&create_http2_headers_frame("GET", "/p", "h", &[], false));
    assert_eq!(request, expected);

    args.method = "POST".to_string();
    args.data = Some("body".to_string());
    args.headers = vec!["A: b".to_string()];
    let request = build_http2_request(&args).unwrap();
    let mut expected = PREFACE.to_vec();
    expected.extend_from_slice(&create_http2_settings_frame());
    expected.extend_from_slice(&create_http2_headers_frame(
        "POST",
        "/p",
        "h",
        &["A: b".to_string()],
        true,
    ));
    expected.extend_from_slice(&create_http2_data_frame(b"body"));
    assert_eq!(request, expected);

    assert_eq!(build_http2_request(&args_for("h/p")), Err("URL must start with http:// or https://"));
}

#[test]
fn response_body_is_the_data_payloads() {
    let mut response = PREFACE.to_vec();
    response.extend_from_slice(&[0, 0, 2, 1, 4, 0, 0, 0, 1, b'h', b'd']);
    response.extend_from_slice(&[0, 0, 3, 0, 0, 0, 0, 0, 1, b'a', b'b', b'c']);
    response.extend_from_slice(&[0, 0, 0, 4, 0, 0, 0, 0, 0]);
    response.extend_from_slice(&[0, 0, 2, 0, 1, 0, 0, 0, 1, b'd', b'e']);
    assert_eq!(parse_http2_response(&response), b"abcde".to_vec());
    assert_eq!(parse_http2_response(&response[24..]), b"abcde".to_vec());
}

#[test]
fn partial_frame_stops_decoding() {
    let mut response = Vec::new();
    response.extend_from_slice(&[0, 0, 1, 0, 0, 0, 0, 0, 1, b'a']);
    response.extend_from_slice(&[0, 0, 5, 0, 0, 0, 0, 0, 1, b'b', b'c']);
    assert_eq!(parse_http2_response(&response), b"a".to_vec());
    assert_eq!(parse_http2_response(&[0, 0, 1, 0, 0, 0, 0, 0]), Vec::<u8>::new());
    assert_eq!(parse_http2_response(b""), Vec::<u8>::new());
    assert_eq!(parse_http2_response(PREFACE), Vec::<u8>::new());
}

#[test]
fn frames_are_taken_apart() {
    let mut response = PREFACE.to_vec();
    response.extend_from_slice(&[0, 0, 1, 1, 5, 0x80, 0, 0, 3, b'x']);
    response.extend_from_slice(&[0, 0, 0, 4, 1, 0xff, 0xff, 0xff, 0xff]);
    let frames = decode_frames(&response);
    assert_eq!(
        frames,
        vec![
            Frame { frame_type: 1, flags: 5, stream_id: 3, payload: vec![b'x'] },
            Frame { frame_type: 4, flags: 1, stream_id: 0x7fff_ffff, payload: vec![] },
        ]
    );
}

#[test]
fn encoded_frames_decode_to_themselves() {
    let mut wire = encode_frame(0, 1, 1, b"payload");
    wire.extend_from_slice(&encode_frame(1, 4, 0x7fff_ffff, b""));
    assert_eq!(
        decode_frames(&wire),
        vec![
            Frame { frame_type: 0, flags: 1, stream_id: 1, payload: b"payload".to_vec() },
            Frame { frame_type: 1, flags: 4, stream_id: 0x7fff_ffff, payload: vec![] },
        ]
    );
}

#[test]
fn preface_is_recognised() {
    assert!(!starts_with_preface(PREFACE));
    let mut longer = PREFACE.to_vec();
    longer.push(0);
    assert!(starts_with_preface(&longer));
    assert!(!starts_with_preface(b"HTTP/1.1 200 OK\r\n\r\nsome body text"));
}

#[test]
fn frame_report_lists_the_frames() {
    let mut response = PREFACE.to_vec();
    response.extend_from_slice(&[0, 0, 2, 1, 4, 0x80, 0, 0, 1, b'h', b'd']);
    response.extend_from_slice(&[0, 0, 3, 0, 0x0b, 0, 0, 1, 0, b'a', b'b', b'c']);
    response.extend_from_slice(&[0, 0, 1, 1, 0, 0, 0, 0, 1, 0xff]);
    response.extend_from_slice(&[0, 0, 0, 4, 1, 0, 0, 0, 0]);
    response.extend_from_slice(&[0, 1, 0, 0, 0xff, 0, 0, 0, 3, b'x']);
    let expected = format!(
        "HTTP/2 response received ({} bytes)\n\
Note: HTTP/2 response parsing is simplified\n\
Frame: type=1, length=2, flags=04, stream_id=1\n\
HEADERS frame: 2 bytes\n\
Headers (not properly decoded): hd\n\
Frame: type=0, length=3, flags=0b, stream_id=256\n\
DATA frame: 3 bytes\n\
Frame: type=1, length=1, flags=00, stream_id=1\n\
HEADERS frame: 1 bytes\n\
Frame: type=4, length=0, flags=01, stream_id=0\n\
Unhandled frame type: 4\n\
Frame: type=0, length=256, flags=ff, stream_id=3\n\
Incomplete frame, stopping parsing\n",
        response.len()
    );
    assert_eq!(frame_report(&response), expected);
}

#[test]
fn frame_report_of_nothing_is_the_heading() {
    assert_eq!(
        frame_report(b""),
        "HTTP/2 response received (0 bytes)\nNote: HTTP/2 response parsing is simplified\n"
    );
    assert_eq!(
        frame_report(&[0, 0, 0, 0, 0, 0, 0, 0]),
        "HTTP/2 response received (8 bytes)\nNote: HTTP/2 response parsing is simplified\n"
    );
}
