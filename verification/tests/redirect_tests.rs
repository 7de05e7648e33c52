use rurl::args::Args;
use rurl::http::client::{
    after_response, handle_redirect, is_redirect_status, AfterResponse, RedirectError,
    MAX_REDIRECTS,
};

fn args_for(url: &str, follow: bool) -> Args {
    Args {
        url: url.to_string(),
        output: None,
        method: "GET".to_string(),
        headers: vec!["X-Trace: 1".to_string()],
        data: None,
        help: false,
        verbose: false,
        tls_version: None,
        include_headers: false,
        head_only: false,
        follow_redirects: follow,
        silent: false,
        user_agent: None,
        user: None,
        fail_fast: false,
        http2: false,
    }
}

const MOVED: &[u8] = b"HTTP/1.1 301 Moved Permanently\r\nLocation: http://h2/p2\r\n\r\n";

#[test]
fn redirect_statuses() {
    for status in [301u16, 302, 303, 307, 308] {
        assert!(is_redirect_status(status));
    }
    for status in [0u16, 200, 300, 304, 305, 306, 309, 400, 404] {
        assert!(!is_redirect_status(status));
    }
}

#[test]
fn redirect_is_followed_to_the_new_location() {
    let args = args_for("http://h1/p1", true);
    match after_response(MOVED, &args, 0) {
        AfterResponse::Follow(next) => {
            assert_eq!(next.host, "h2");
            assert_eq!(next.port, 80);
            assert!(!next.secure);
            assert_eq!(next.redirect_count, 1);
            assert_eq!(next.args.url, "http://h2/p2");
            assert_eq!(next.args.method, "GET");
            assert_eq!(next.args.headers, vec!["X-Trace: 1".to_string()]);
            assert!(next.args.follow_redirects);
            assert_eq!(
                next.request,
                b"GET /p2 HTTP/1.1\r\nHost: h2\r\nConnection: close\r\nX-Trace: 1\r\n\r\n".to_vec()
            );
        }
        _ => panic!("expected a redirect"),
    }
}

#[test]
fn redirect_is_not_followed_unless_asked() {
    let args = args_for("http://h1/p1", false);
    assert!(matches!(after_response(MOVED, &args, 0), AfterResponse::Process));
}

#[test]
fn redirect_without_location_is_processed() {
    let args = args_for("http://h1/p1", true);
    let response = b"HTTP/1.1 302 Found\r\nContent-Length: 0\r\n\r\n";
    assert!(matches!(after_response(response, &args, 0), AfterResponse::Process));
}

#[test]
fn other_statuses_are_processed() {
    let args = args_for("http://h1/p1", true);
    let response = b"HTTP/1.1 200 OK\r\nLocation: http://h2/p2\r\n\r\n";
    assert!(matches!(after_response(response, &args, 0), AfterResponse::Process));
    assert!(matches!(after_response(b"garbage", &args, 0), AfterResponse::Process));
}

#[test]
fn eleventh_redirect_is_refused() {
    let args = args_for("http://h1/p1", true);
    for count in 0..MAX_REDIRECTS {
        match after_response(MOVED, &args, count) {
            AfterResponse::Follow(next) => assert_eq!(next.redirect_count, count + 1),
            _ => panic!("expected a redirect at hop {}", count),
        }
    }
    match after_response(MOVED, &args, MAX_REDIRECTS) {
        AfterResponse::Fail(e) => {
            assert_eq!(e, RedirectError::TooManyRedirects);
            assert_eq!(e.message(), "Too many redirects");
        }
        _ => panic!("expected a failure"),
    }
    let other = b"HTTP/1.1 308 Permanent Redirect\r\nLocation: not a url\r\n\r\n";
    assert!(matches!(
        after_response(other, &args, MAX_REDIRECTS + 5),
        AfterResponse::Fail(RedirectError::TooManyRedirects)
    ));
}

#[test]
fn redirect_to_a_bad_location_fails() {
    let args = args_for("http://h1/p1", true);
    let relative = b"HTTP/1.1 301 Moved\r\nLocation: /elsewhere\r\n\r\n";
    match after_response(relative, &args, 0) {
        AfterResponse::Fail(e) => {
            assert_eq!(e, RedirectError::UrlFormat("URL must start with http:// or https://"));
            assert_eq!(e.message(), "URL must start with http:// or https://");
        }
        _ => panic!("expected a failure"),
    }
    assert_eq!(
        handle_redirect("http://h:x/", &args, 0).err(),
        Some(RedirectError::UrlFormat("Invalid port"))
    );
}

#[test]
fn redirect_to_https_is_secure() {
    let args = args_for("http://h1/p1", true);
    let next = handle_redirect("https://secure.example/login", &args, 3).ok().unwrap();
    assert_eq!(next.host, "secure.example");
    assert_eq!(next.port, 443);
    assert!(next.secure);
    assert_eq!(next.redirect_count, 4);
}
