//! The parsers held against plain formulations with the standard library's
//! string functions, on many generated inputs.

use rurl::http::response::{
    decode_chunked_transfer, get_content_length, get_location, is_chunked_transfer,
    parse_status_line,
};
use rurl::http::url::parse;
use rurl::text::char_is_space;
use rurl::tls::{get_tls_protocol_version, TlsVersion};

struct Generator {
    state: u64,
}

impl Generator {
    fn new(seed: u64) -> Self {
        Generator { state: seed }
    }

    fn next(&mut self, bound: usize) -> usize {
        self.state = self
            .state
            .wrapping_mul(6364136223846793005)
            .wrapping_add(1442695040888963407);
        ((self.state >> 33) as usize) % bound
    }

    fn bytes(&mut self, pieces: &[&[u8]], max_pieces: usize) -> Vec<u8> {
        let mut out = Vec::new();
        let count = self.next(max_pieces + 1);
        for _ in 0..count {
            out.extend_from_slice(pieces[self.next(pieces.len())]);
        }
        out
    }
}

const HEADER_PIECES: &[&[u8]] = &[
    b"Content-Length",
    b"content-length",
    b"CONTENT-LENGTH:",
    b"Transfer-Encoding",
    b"transfer-encoding:",
    b"Location",
    b"location:",
    b"chunked",
    b"CHUNKED",
    b"chun\xe2\x84\xaaed",
    b"http://h/p",
    b"HTTP/1.1",
    b"200",
    b"404 Not Found",
    b":",
    b" ",
    b"\t",
    b"\r\n",
    b"\n",
    b"\r",
    b"\x0b",
    b"\x0c",
    b"5",
    b"12",
    b"+3",
    b"-1",
    b"0",
    b"70000",
    b"99999999999999999999999",
    b"x",
    b"A",
    b"\xc2\xa0",
    b"\xe2\x80\x83",
    b"\xe3\x80\x80",
    b"\xc2\x85",
    b"\xc3\xa9",
    b"\xc4\xb0",
    b"\xce\xa3",
    b"\xff",
    b"\xe2\x82",
];

fn window(response: &[u8]) -> &[u8] {
    &response[..std::cmp::min(response.len(), 2048)]
}

fn plain_content_length(response: &[u8]) -> Option<usize> {
    let headers = std::str::from_utf8(window(response)).ok()?;
    for line in headers.lines() {
        let line = line.trim().to_lowercase();
        if line.starts_with("content-length:") {
            let value = line.split(':').nth(1)?.trim().parse::<usize>().ok()?;
            return Some(value);
        }
    }
    None
}

fn plain_is_chunked(response: &[u8]) -> bool {
    if let Ok(headers) = std::str::from_utf8(window(response)) {
        for line in headers.lines() {
            let line = line.trim().to_lowercase();
            if line.starts_with("transfer-encoding:") && line.contains("chunked") {
                return true;
            }
        }
    }
    false
}

fn plain_location(response: &[u8]) -> Option<String> {
    let headers = std::str::from_utf8(window(response)).ok()?;
    for line in headers.lines() {
        if line.to_lowercase().starts_with("location:") {
            if let Some(value) = line.splitn(2, ':').nth(1) {
                return Some(value.trim().to_string());
            }
        }
    }
    None
}

fn plain_status(response: &[u8]) -> Result<u16, &'static str> {
    let status_line = match response.split(|&b| b == b'\r').next() {
        Some(line) => line,
        None => return Err("Invalid response format"),
    };
    let status_line = match std::str::from_utf8(status_line) {
        Ok(line) => line,
        Err(_) => return Err("Invalid UTF-8 in status line"),
    };
    status_line
        .split_whitespace()
        .nth(1)
        .ok_or("Missing status code")?
        .parse::<u16>()
        .map_err(|_| "Invalid status code")
}

fn plain_chunked(body: &[u8]) -> Vec<u8> {
    let mut result = Vec::new();
    let mut i = 0;
    while i < body.len() {
        let line_end = match body[i..].windows(2).position(|w| w == b"\r\n") {
            Some(pos) => i + pos,
            None => break,
        };
        let line = std::str::from_utf8(&body[i..line_end]).unwrap_or("");
        let size = match usize::from_str_radix(line.trim(), 16) {
            Ok(size) => size,
            Err(_) => break,
        };
        if size == 0 {
            break;
        }
        let start = line_end + 2;
        match start.checked_add(size) {
            Some(end) if end <= body.len() => {
                result.extend_from_slice(&body[start..end]);
                i = end.saturating_add(2);
            }
            _ => break,
        }
    }
    result
}

fn plain_url(url: &str) -> Result<(String, u16, String, bool), &'static str> {
    let (secure, rest) = if let Some(rest) = url.strip_prefix("https://") {
        (true, rest)
    } else if let Some(rest) = url.strip_prefix("http://") {
        (false, rest)
    } else {
        return Err("URL must start with http:// or https://");
    };
    let (host, path) = rest.split_once('/').unwrap_or((rest, ""));
    let (host, port) = if let Some((host, port)) = host.split_once(':') {
        (host, port.parse().map_err(|_| "Invalid port")?)
    } else {
        (host, if secure { 443 } else { 80 })
    };
    if host.is_empty() {
        return Err("Invalid host");
    }
    Ok((host.to_string(), port, format!("/{}", path), secure))
}

#[test]
fn content_length_agrees_with_plain_formulation() {
    let mut g = Generator::new(1);
    for _ in 0..20000 {
        let input = g.bytes(HEADER_PIECES, 10);
        assert_eq!(get_content_length(&input), plain_content_length(&input), "{:?}", input);
    }
}

#[test]
fn chunked_detection_agrees_with_plain_formulation() {
    let mut g = Generator::new(2);
    for _ in 0..20000 {
        let input = g.bytes(HEADER_PIECES, 10);
        assert_eq!(is_chunked_transfer(&input), plain_is_chunked(&input), "{:?}", input);
    }
}

#[test]
fn location_agrees_with_plain_formulation() {
    let mut g = Generator::new(3);
    for _ in 0..20000 {
        let input = g.bytes(HEADER_PIECES, 10);
        assert_eq!(get_location(&input), plain_location(&input), "{:?}", input);
    }
}

#[test]
fn status_line_agrees_with_plain_formulation() {
    let mut g = Generator::new(4);
    for _ in 0..20000 {
        let input = g.bytes(HEADER_PIECES, 8);
        assert_eq!(parse_status_line(&input), plain_status(&input), "{:?}", input);
    }
}

#[test]
fn header_window_cuts_at_2048_bytes() {
    let mut g = Generator::new(5);
    for round in 0..300 {
        let mut input = vec![b'a'; 2030 + (round % 20)];
        input.extend_from_slice(b"\r\n");
        input.extend_from_slice(&g.bytes(HEADER_PIECES, 6));
        assert_eq!(get_content_length(&input), plain_content_length(&input), "{:?}", input);
        assert_eq!(is_chunked_transfer(&input), plain_is_chunked(&input), "{:?}", input);
        assert_eq!(get_location(&input), plain_location(&input), "{:?}", input);
    }
}

const CHUNK_PIECES: &[&[u8]] = &[
    b"0", b"1", b"2", b"3", b"5", b"a", b"A", b"f", b"10", b"+", b"-", b"g", b" ", b"\t",
    b"\r\n", b"\r", b"\n", b"hello", b"xy", b";", b"\xc2\xa0", b"\xff", b"0\r\n\r\n",
    b"ffffffffffffffff", b"fffffffffffffffff", b"7fffffffffffffff",
];

#[test]
fn chunked_decoding_agrees_with_plain_formulation() {
    let mut g = Generator::new(6);
    for _ in 0..40000 {
        let input = g.bytes(CHUNK_PIECES, 14);
        assert_eq!(decode_chunked_transfer(&input), plain_chunked(&input), "{:?}", input);
    }
}

const URL_PIECES: &[&str] = &[
    "http://", "https://", "http:/", "HTTP://", "h", "example.com", "localhost", ":", "/", "//",
    "80", "443", "65535", "65536", "0", "+8", "-8", " ", "a/b", "?q=1", "#f", "é", "@", "08",
];

#[test]
fn url_parsing_agrees_with_plain_formulation() {
    let mut g = Generator::new(7);
    for _ in 0..40000 {
        let mut url = String::new();
        let count = g.next(8);
        for _ in 0..count {
            url.push_str(URL_PIECES[g.next(URL_PIECES.len())]);
        }
        assert_eq!(parse(&url), plain_url(&url), "{:?}", url);
    }
}

#[test]
fn tls_version_names_agree_with_plain_formulation() {
    let pieces = ["1", ".", "0", "2", "3", " ", "\t", "\u{a0}", "x", "1.2", "1.0", "1.1"];
    let mut g = Generator::new(8);
    for _ in 0..20000 {
        let mut text = String::new();
        let count = g.next(5);
        for _ in 0..count {
            text.push_str(pieces[g.next(pieces.len())]);
        }
        let expected = match text.trim() {
            "1.0" => Some(TlsVersion::Tls10),
            "1.1" => Some(TlsVersion::Tls11),
            "1.2" => Some(TlsVersion::Tls12),
            _ => None,
        };
        assert_eq!(get_tls_protocol_version(&text), expected, "{:?}", text);
    }
}

#[test]
fn white_space_agrees_with_the_standard_library() {
    let mut count = 0;
    for n in 0..=0x10ffffu32 {
        if let Some(c) = char::from_u32(n) {
            assert_eq!(char_is_space(c), c.is_whitespace(), "U+{:04X}", n);
            if char_is_space(c) {
                count += 1;
            }
        }
    }
    assert_eq!(count, 25);
}

#[test]
fn every_white_space_character_is_trimmed() {
    for n in 0..=0x3100u32 {
        if let Some(c) = char::from_u32(n) {
            let text = format!("{}1.2{}", c, c);
            let expected = if c.is_whitespace() { Some(TlsVersion::Tls12) } else { None };
            assert_eq!(get_tls_protocol_version(&text), expected, "U+{:04X}", n);
        }
    }
}
