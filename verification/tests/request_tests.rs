use rurl::args::Args;
use rurl::http::build_http_request;
use rurl::http::request::{base64_encode, build};

fn args_for(url: &str) -> Args {
    Args {
        url: url.to_string(),
        output: None,
        method: "GET".to_string(),
        headers: Vec::new(),
        data: None,
        help: false,
        verbose: false,
        tls_version: None,
        include_headers: false,
        head_only: false,
        follow_redirects: false,
        silent: false,
        user_agent: None,
        user: None,
        fail_fast: false,
        http2: false,
    }
}

#[test]
fn build_minimal_get() {
    let request = build(&args_for("http://h/p")).unwrap();
    assert_eq!(request, b"GET /p HTTP/1.1\r\nHost: h\r\nConnection: close\r\n\r\n".to_vec());
}

#[test]
fn build_orders_headers() {
    let mut args = args_for("http://example.com:8080/submit");
    args.method = "POST".to_string();
    args.user_agent = Some("TestAgent/1.0".to_string());
    args.user = Some("user:pass".to_string());
    args.headers = vec!["X-One: 1".to_string(), "X-Two: 2".to_string()];
    args.data = Some("{\"key\":\"value\"}".to_string());
    let request = build(&args).unwrap();
    let expected = "POST /submit HTTP/1.1\r\nHost: example.com\r\nConnection: close\r\n\
User-Agent: TestAgent/1.0\r\nAuthorization: Basic dXNlcjpwYXNz\r\nX-One: 1\r\nX-Two: 2\r\n\
Content-Length: 15\r\n\r\n{\"key\":\"value\"}";
    assert_eq!(String::from_utf8(request).unwrap(), expected);
}

#[test]
fn build_counts_body_bytes() {
    let mut args = args_for("http://h/");
    args.data = Some("é".to_string());
    let request = build(&args).unwrap();
    let expected = "GET / HTTP/1.1\r\nHost: h\r\nConnection: close\r\nContent-Length: 2\r\n\r\né";
    assert_eq!(request, expected.as_bytes().to_vec());
}

#[test]
fn build_empty_body_has_zero_length() {
    let mut args = args_for("http://h/");
    args.data = Some(String::new());
    let request = build(&args).unwrap();
    assert_eq!(
        request,
        b"GET / HTTP/1.1\r\nHost: h\r\nConnection: close\r\nContent-Length: 0\r\n\r\n".to_vec()
    );
}

#[test]
fn build_passes_url_errors_on() {
    assert_eq!(build(&args_for("example.com")), Err("URL must start with http:// or https://"));
    assert_eq!(build(&args_for("http://")), Err("Invalid host"));
    assert_eq!(build(&args_for("http://h:99999")), Err("Invalid port"));
}

#[test]
fn basic_auth_header_for_user_pass() {
    let mut args = args_for("http://h/p");
    args.user = Some("user:pass".to_string());
    let request = String::from_utf8(build(&args).unwrap()).unwrap();
    assert!(request.contains("Authorization: Basic dXNlcjpwYXNz\r\n"));
}

#[test]
fn base64_of_known_values() {
    assert_eq!(base64_encode(b""), "");
    assert_eq!(base64_encode(b"f"), "Zg==");
    assert_eq!(base64_encode(b"fo"), "Zm8=");
    assert_eq!(base64_encode(b"foo"), "Zm9v");
    assert_eq!(base64_encode(b"foob"), "Zm9vYg==");
    assert_eq!(base64_encode(b"fooba"), "Zm9vYmE=");
    assert_eq!(base64_encode(b"foobar"), "Zm9vYmFy");
    assert_eq!(base64_encode(b"user:pass"), "dXNlcjpwYXNz");
    assert_eq!(base64_encode(&[0xfb, 0xff, 0xfe]), "+//+");
}

#[test]
fn build_http_request_gives_the_same_request() {
    let mut args = args_for("http://example.com/a");
    args.headers = vec!["Accept: */*".to_string()];
    args.user_agent = Some("agent".to_string());
    assert_eq!(build_http_request(&args), build(&args));
    assert_eq!(
        build_http_request(&args_for("http://h/p")).unwrap(),
        b"GET /p HTTP/1.1\r\nHost: h\r\nConnection: close\r\n\r\n".to_vec()
    );
}
