use rurl::http::response::{
    decode_chunked_transfer, get_content_length, get_location, is_chunked_transfer,
    parse_status_line,
};

#[test]
fn content_length_is_found() {
    let response = b"HTTP/1.1 200 OK\r\nContent-Type: text/plain\r\nContent-Length: 13\r\n\r\nHello, World!";
    assert_eq!(get_content_length(response), Some(13));
}

#[test]
fn content_length_ignores_case_and_padding() {
    assert_eq!(get_content_length(b"HTTP/1.1 200 OK\r\n  CONTENT-length:   42  \r\n\r\n"), Some(42));
    assert_eq!(get_content_length(b"content-length:7"), Some(7));
    assert_eq!(get_content_length(b"Content-Length:\t+9\n"), Some(9));
}

#[test]
fn content_length_first_line_wins() {
    assert_eq!(get_content_length(b"Content-Length: 1\r\nContent-Length: 2\r\n\r\n"), Some(1));
    assert_eq!(get_content_length(b"Content-Length: x\r\nContent-Length: 2\r\n\r\n"), None);
}

#[test]
fn content_length_reads_second_field_only() {
    assert_eq!(get_content_length(b"Content-Length: 5:6\r\n\r\n"), Some(5));
    assert_eq!(get_content_length(b"Content-Length:\r\n\r\n"), None);
    assert_eq!(get_content_length(b"Content-Length: -1\r\n\r\n"), None);
    assert_eq!(get_content_length(b"Content-Length: 1 2\r\n\r\n"), None);
}

#[test]
fn content_length_absent() {
    assert_eq!(get_content_length(b""), None);
    assert_eq!(get_content_length(b"HTTP/1.1 200 OK\r\n\r\n"), None);
    assert_eq!(get_content_length(b"X-Content-Length: 5\r\n\r\n"), None);
}

#[test]
fn content_length_of_invalid_utf8_is_none() {
    assert_eq!(get_content_length(b"Content-Length: 5\r\nX: \xff\r\n\r\n"), None);
}

#[test]
fn content_length_beyond_window_is_not_seen() {
    let mut response = Vec::new();
    response.extend_from_slice(b"HTTP/1.1 200 OK\r\nX-Pad: ");
    while response.len() < 2048 {
        response.push(b'a');
    }
    response.extend_from_slice(b"\r\nContent-Length: 5\r\n\r\nhello");
    assert_eq!(get_content_length(&response), None);
}

#[test]
fn content_length_with_unicode_space() {
    let response = "Content-Length:\u{a0}5\u{2003}\r\n\r\n";
    assert_eq!(get_content_length(response.as_bytes()), Some(5));
}

#[test]
fn content_length_too_large() {
    assert_eq!(get_content_length(b"Content-Length: 99999999999999999999999999\r\n\r\n"), None);
    assert_eq!(get_content_length(b"Content-Length: 000000000000000000000000012\r\n\r\n"), Some(12));
}

#[test]
fn chunked_is_detected() {
    assert!(is_chunked_transfer(b"HTTP/1.1 200 OK\r\nTransfer-Encoding: chunked\r\n\r\n"));
    assert!(is_chunked_transfer(b"HTTP/1.1 200 OK\r\ntransfer-encoding: gzip, CHUNKED\r\n\r\n"));
    assert!(!is_chunked_transfer(b"HTTP/1.1 200 OK\r\nTransfer-Encoding: gzip\r\n\r\n"));
    assert!(!is_chunked_transfer(b"HTTP/1.1 200 OK\r\nContent-Length: 5\r\n\r\nchunked"));
    assert!(!is_chunked_transfer(b""));
    assert!(!is_chunked_transfer(b"Transfer-Encoding: chunked\xff\r\n\r\n"));
}

#[test]
fn chunked_with_kelvin_sign() {
    let response = "Transfer-Encoding: chun\u{212a}ed\r\n\r\n";
    assert!(is_chunked_transfer(response.as_bytes()));
}

#[test]
fn status_line_is_parsed() {
    assert_eq!(parse_status_line(b"HTTP/1.1 200 OK\r\nContent-Length: 0\r\n\r\n"), Ok(200));
    assert_eq!(parse_status_line(b"HTTP/1.1 404 Not Found\r\n\r\n"), Ok(404));
    assert_eq!(parse_status_line(b"HTTP/1.1   301\tMoved"), Ok(301));
    assert_eq!(parse_status_line(b"  HTTP/1.1 +7"), Ok(7));
}

#[test]
fn status_line_errors() {
    assert_eq!(parse_status_line(b""), Err("Missing status code"));
    assert_eq!(parse_status_line(b"HTTP/1.1\r\n200 OK"), Err("Missing status code"));
    assert_eq!(parse_status_line(b"HTTP/1.1 abc OK\r\n"), Err("Invalid status code"));
    assert_eq!(parse_status_line(b"HTTP/1.1 70000 OK\r\n"), Err("Invalid status code"));
    assert_eq!(parse_status_line(b"HTTP/1.1 \xff 200\r\n"), Err("Invalid UTF-8 in status line"));
}

#[test]
fn status_line_stops_at_carriage_return() {
    assert_eq!(parse_status_line(b"HTTP/1.1\n200 OK\r\n"), Ok(200));
    assert_eq!(parse_status_line(b"HTTP/1.1 200 OK\r\n\xff"), Ok(200));
}

#[test]
fn chunked_decode_yields_payload() {
    assert_eq!(decode_chunked_transfer(b"5\r\nhello\r\n0\r\n\r\n"), b"hello".to_vec());
    assert_eq!(
        decode_chunked_transfer(b"5\r\nHello\r\n7\r\n, World\r\n1\r\n!\r\n0\r\n\r\n"),
        b"Hello, World!".to_vec()
    );
    assert_eq!(decode_chunked_transfer(b"A\r\n0123456789\r\n0\r\n\r\n"), b"0123456789".to_vec());
    assert_eq!(decode_chunked_transfer(b" 0a \r\n0123456789\r\n"), b"0123456789".to_vec());
}

#[test]
fn chunked_decode_is_lenient() {
    assert_eq!(decode_chunked_transfer(b""), Vec::<u8>::new());
    assert_eq!(decode_chunked_transfer(b"5\r\nhello"), b"hello".to_vec());
    assert_eq!(decode_chunked_transfer(b"5\r\nhello\r\n3\r\nab"), b"hello".to_vec());
    assert_eq!(decode_chunked_transfer(b"5\r\nhello\r\nzz\r\nabc\r\n"), b"hello".to_vec());
    assert_eq!(decode_chunked_transfer(b"5\r\nhello\r\n3"), b"hello".to_vec());
    assert_eq!(decode_chunked_transfer(b"\r\nhello"), Vec::<u8>::new());
    assert_eq!(decode_chunked_transfer(b"5;ext=1\r\nhello\r\n"), Vec::<u8>::new());
    assert_eq!(decode_chunked_transfer(b"\xff\r\nhello\r\n"), Vec::<u8>::new());
    assert_eq!(
        decode_chunked_transfer(b"ffffffffffffffffffffffff\r\nhello\r\n"),
        Vec::<u8>::new()
    );
    assert_eq!(decode_chunked_transfer(b"ffffffffffffffff\r\nhello\r\n"), Vec::<u8>::new());
}

#[test]
fn chunked_decode_skips_two_bytes_after_data() {
    assert_eq!(decode_chunked_transfer(b"2\r\nabXX2\r\ncd\r\n0\r\n"), b"abcd".to_vec());
}

#[test]
fn location_is_found() {
    let response = b"HTTP/1.1 301 Moved\r\nLocation: http://h2/p2\r\nContent-Length: 0\r\n\r\n";
    assert_eq!(get_location(response), Some("http://h2/p2".to_string()));
    assert_eq!(get_location(b"LOCATION:https://a/b:c \r\n"), Some("https://a/b:c".to_string()));
    assert_eq!(get_location(b"Location:\r\n"), Some(String::new()));
}

#[test]
fn location_absent() {
    assert_eq!(get_location(b"HTTP/1.1 200 OK\r\n\r\n"), None);
    assert_eq!(get_location(b" Location: http://h/\r\n"), None);
    assert_eq!(get_location(b"Content-Location: http://h/\r\n"), None);
    assert_eq!(get_location(b"Location: http://h/\xff\r\n"), None);
}

#[test]
fn location_first_line_wins() {
    assert_eq!(
        get_location(b"Location: http://a/\r\nLocation: http://b/\r\n"),
        Some("http://a/".to_string())
    );
}
