use rurl::args::{kind_of_arg, ArgAction, ArgKind, ArgParser, Args};

fn strings(items: &[&str]) -> Vec<String> {
    items.iter().map(|s| s.to_string()).collect()
}

fn parse_with(
    items: &[&str],
    tls_from_env: Option<&str>,
    file: Option<&str>,
) -> Result<Args, &'static str> {
    let arguments = strings(items);
    let mut parser = ArgParser::new(tls_from_env.map(|s| s.to_string()));
    while parser.has_more(&arguments) {
        match parser.step(&arguments) {
            ArgAction::Continue => {}
            ArgAction::Help => return Ok(parser.args),
            ArgAction::ReadFile(_) => parser.supply_data(file.map(|s| s.to_string()))?,
            ArgAction::Fail(message) => return Err(message),
        }
    }
    parser.finish()
}

fn parse_args(items: &[&str]) -> Result<Args, &'static str> {
    parse_with(items, None, None)
}

#[test]
fn url_alone_gives_the_defaults() {
    let args = parse_args(&["http://example.com"]).ok().unwrap();
    assert_eq!(args.url, "http://example.com");
    assert_eq!(args.method, "GET");
    assert!(args.headers.is_empty());
    assert_eq!(args.output, None);
    assert_eq!(args.data, None);
    assert_eq!(args.tls_version, None);
    assert_eq!(args.user_agent, None);
    assert_eq!(args.user, None);
    assert!(!args.help && !args.verbose && !args.include_headers && !args.head_only);
    assert!(!args.follow_redirects && !args.silent && !args.fail_fast && !args.http2);
}

#[test]
fn missing_url_is_refused() {
    assert_eq!(parse_args(&[]).err(), Some("Missing URL"));
    assert_eq!(parse_args(&["-v"]).err(), Some("Missing URL"));
}

#[test]
fn help_stops_the_reading() {
    let args = parse_args(&["-v", "--help", "--bogus"]).ok().unwrap();
    assert!(args.help);
    assert!(args.verbose);
    assert_eq!(args.url, "");
    assert!(parse_args(&["-h"]).ok().unwrap().help);
}

#[test]
fn flags_are_set() {
    let args = parse_args(&["-v", "-i", "-L", "-s", "-f", "http://h/"]).ok().unwrap();
    assert!(args.verbose && args.include_headers && args.follow_redirects);
    assert!(args.silent && args.fail_fast);
    let args =
        parse_args(&["--verbose", "--include", "--location", "--silent", "--fail", "http://h/"])
            .ok()
            .unwrap();
    assert!(args.verbose && args.include_headers && args.follow_redirects);
    assert!(args.silent && args.fail_fast);
}

#[test]
fn head_sets_the_method() {
    let args = parse_args(&["-I", "http://h/"]).ok().unwrap();
    assert!(args.head_only);
    assert_eq!(args.method, "HEAD");
    let args = parse_args(&["--head", "-d", "x", "http://h/"]).ok().unwrap();
    assert_eq!(args.method, "HEAD");
}

#[test]
fn options_with_values() {
    let args = parse_args(&[
        "-o", "out.txt", "-m", "put", "-H", "A: 1", "--header", "B: 2", "--tls-version", "1.1",
        "-A", "agent/1", "-u", "user:pass", "http://h/",
    ])
    .ok()
    .unwrap();
    assert_eq!(args.output, Some("out.txt".to_string()));
    assert_eq!(args.method, "PUT");
    assert_eq!(args.headers, strings(&["A: 1", "B: 2"]));
    assert_eq!(args.tls_version, Some("1.1".to_string()));
    assert_eq!(args.user_agent, Some("agent/1".to_string()));
    assert_eq!(args.user, Some("user:pass".to_string()));
}

#[test]
fn method_aliases_and_uppercase() {
    assert_eq!(parse_args(&["-X", "post", "http://h/"]).ok().unwrap().method, "POST");
    assert_eq!(parse_args(&["--request", "Delete", "http://h/"]).ok().unwrap().method, "DELETE");
    assert_eq!(parse_args(&["--method", "pätch", "http://h/"]).ok().unwrap().method, "PÄTCH");
    assert_eq!(parse_args(&["-m", "straße", "http://h/"]).ok().unwrap().method, "STRASSE");
}

#[test]
fn data_makes_a_get_a_post() {
    let args = parse_args(&["-d", "a=b", "http://h/"]).ok().unwrap();
    assert_eq!(args.data, Some("a=b".to_string()));
    assert_eq!(args.method, "POST");
    let args = parse_args(&["-m", "PUT", "--data", "a=b", "http://h/"]).ok().unwrap();
    assert_eq!(args.method, "PUT");
    let args = parse_args(&["-d", "a=b", "-m", "get", "http://h/"]).ok().unwrap();
    assert_eq!(args.method, "GET");
}

#[test]
fn data_from_a_file() {
    let args = parse_with(&["-d", "@body.json", "http://h/"], None, Some("{\"a\":1}"))
        .ok()
        .unwrap();
    assert_eq!(args.data, Some("{\"a\":1}".to_string()));
    assert_eq!(args.method, "POST");
    assert_eq!(
        parse_with(&["-d", "@missing", "--bogus"], None, None).err(),
        Some("Failed to read data file")
    );
}

#[test]
fn data_file_name_is_asked_for() {
    let arguments = strings(&["--data", "@dir/@file", "http://h/"]);
    let mut parser = ArgParser::new(None);
    match parser.step(&arguments) {
        ArgAction::ReadFile(name) => assert_eq!(name, "dir/@file"),
        _ => panic!("expected a file to read"),
    }
    assert_eq!(parser.position, 2);
    assert!(parser.has_more(&arguments));
}

#[test]
fn missing_values_are_refused() {
    assert_eq!(parse_args(&["http://h/", "-o"]).err(), Some("Missing output file"));
    assert_eq!(parse_args(&["http://h/", "-m"]).err(), Some("Missing HTTP method"));
    assert_eq!(parse_args(&["http://h/", "-X"]).err(), Some("Missing HTTP method"));
    assert_eq!(parse_args(&["http://h/", "-H"]).err(), Some("Missing header"));
    assert_eq!(parse_args(&["http://h/", "-d"]).err(), Some("Missing data"));
    assert_eq!(parse_args(&["http://h/", "--tls-version"]).err(), Some("Missing TLS version"));
    assert_eq!(parse_args(&["http://h/", "-A"]).err(), Some("Missing user agent"));
    assert_eq!(parse_args(&["http://h/", "-u"]).err(), Some("Missing user credentials"));
}

#[test]
fn unknown_options_are_refused() {
    assert_eq!(parse_args(&["--bogus", "http://h/"]).err(), Some("Unknown option"));
    assert_eq!(parse_args(&["http://h/", "-"]).err(), Some("Unknown option"));
    assert_eq!(parse_args(&["-hh"]).err(), Some("Unknown option"));
}

#[test]
fn an_option_takes_the_next_argument_whatever_it_is() {
    let args = parse_args(&["-o", "-v", "http://h/"]).ok().unwrap();
    assert_eq!(args.output, Some("-v".to_string()));
    assert!(!args.verbose);
}

#[test]
fn the_last_url_wins() {
    assert_eq!(parse_args(&["http://a/", "http://b/"]).ok().unwrap().url, "http://b/");
}

#[test]
fn tls_version_from_the_environment() {
    let args = parse_with(&["http://h/"], Some("1.3"), None).ok().unwrap();
    assert_eq!(args.tls_version, Some("1.3".to_string()));
    let args = parse_with(&["--tls-version", "1.2", "http://h/"], Some("1.3"), None).ok().unwrap();
    assert_eq!(args.tls_version, Some("1.2".to_string()));
}

#[test]
fn kinds_of_arguments() {
    assert_eq!(kind_of_arg("-h"), ArgKind::Help);
    assert_eq!(kind_of_arg("--request"), ArgKind::Method);
    assert_eq!(kind_of_arg("-I"), ArgKind::Head);
    assert_eq!(kind_of_arg("-i"), ArgKind::Include);
    assert_eq!(kind_of_arg("-x"), ArgKind::Unknown);
    assert_eq!(kind_of_arg(""), ArgKind::Url);
    assert_eq!(kind_of_arg("http://h/"), ArgKind::Url);
}

#[test]
fn with_url_keeps_the_rest() {
    let mut args = parse_args(&["-v", "-H", "A: 1", "-d", "x", "http://a/"]).ok().unwrap();
    args.http2 = true;
    let other = args.with_url("http://b/".to_string());
    assert_eq!(other.url, "http://b/");
    assert_eq!(other.method, "POST");
    assert_eq!(other.headers, strings(&["A: 1"]));
    assert_eq!(other.data, Some("x".to_string()));
    assert!(other.verbose && other.http2);
}
