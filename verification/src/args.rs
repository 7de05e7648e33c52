//! The parameters of one request.

use crate::text::{same_chars, string_of, to_chars, uppercase, uppercased};
use vstd::prelude::*;
use vstd::string::StringExecFns;

verus! {

/// What the user asked for: the request to send and how to report the
/// response.
#[derive(Clone)]
pub struct Args {
    pub url: String,
    pub output: Option<String>,
    pub method: String,
    pub headers: Vec<String>,
    pub data: Option<String>,
    pub help: bool,
    pub verbose: bool,
    pub tls_version: Option<String>,
    pub include_headers: bool,
    pub head_only: bool,
    pub follow_redirects: bool,
    pub silent: bool,
    pub user_agent: Option<String>,
    pub user: Option<String>,
    pub fail_fast: bool,
    /// Whether to speak the reduced HTTP/2 framing in place of HTTP/1.1.
    pub http2: bool,
}

/// The characters of an optional string.
pub open spec fn text_view(s: Option<String>) -> Option<Seq<char>> {
    match s {
        Some(t) => Some(t@),
        None => None,
    }
}

/// A copy of an optional string.
pub fn copy_text(s: &Option<String>) -> (r: Option<String>)
    ensures
        r == *s,
{
    match s {
        Some(t) => Some(t.clone()),
        None => None,
    }
}

/// A copy of a list of strings.
pub fn copy_texts(v: &Vec<String>) -> (r: Vec<String>)
    ensures
        r@ == v@,
{
    let mut out: Vec<String> = Vec::new();
    let mut i: usize = 0;
    while i < v.len()
        invariant
            i <= v@.len(),
            out@ == v@.take(i as int),
        decreases v@.len() - i,
    {
        out.push(v[i].clone());
        i += 1;
        assert(v@.take(i as int) =~= v@.take(i - 1).push(v@[i - 1]));
    }
    assert(v@.take(i as int) =~= v@);
    out
}

/// Whether `a` and `b` agree in everything but the URL.
pub open spec fn same_but_url(a: Args, b: Args) -> bool {
    &&& a.output == b.output
    &&& a.method == b.method
    &&& a.headers@ == b.headers@
    &&& a.data == b.data
    &&& a.help == b.help
    &&& a.verbose == b.verbose
    &&& a.tls_version == b.tls_version
    &&& a.include_headers == b.include_headers
    &&& a.head_only == b.head_only
    &&& a.follow_redirects == b.follow_redirects
    &&& a.silent == b.silent
    &&& a.user_agent == b.user_agent
    &&& a.user == b.user
    &&& a.fail_fast == b.fail_fast
    &&& a.http2 == b.http2
}

impl Args {
    /// These parameters with another URL.
    pub fn with_url(&self, url: String) -> (r: Args)
        ensures
            r.url == url,
            same_but_url(r, *self),
    {
        Args {
            url,
            output: copy_text(&self.output),
            method: self.method.clone(),
            headers: copy_texts(&self.headers),
            data: copy_text(&self.data),
            help: self.help,
            verbose: self.verbose,
            tls_version: copy_text(&self.tls_version),
            include_headers: self.include_headers,
            head_only: self.head_only,
            follow_redirects: self.follow_redirects,
            silent: self.silent,
            user_agent: copy_text(&self.user_agent),
            user: copy_text(&self.user),
            fail_fast: self.fail_fast,
            http2: self.http2,
        }
    }
}

/// The characters of each string of a list.
pub open spec fn texts_view(v: Seq<String>) -> Seq<Seq<char>> {
    Seq::new(v.len(), |i: int| v[i]@)
}


/// [`Args`] as contracts see them.
pub struct ArgsView {
    pub url: Seq<char>,
    pub output: Option<Seq<char>>,
    pub method: Seq<char>,
    pub headers: Seq<Seq<char>>,
    pub data: Option<Seq<char>>,
    pub help: bool,
    pub verbose: bool,
    pub tls_version: Option<Seq<char>>,
    pub include_headers: bool,
    pub head_only: bool,
    pub follow_redirects: bool,
    pub silent: bool,
    pub user_agent: Option<Seq<char>>,
    pub user: Option<Seq<char>>,
    pub fail_fast: bool,
    pub http2: bool,
}

impl View for Args {
    type V = ArgsView;

    open spec fn view(&self) -> ArgsView {
        ArgsView {
            url: self.url@,
            output: text_view(self.output),
            method: self.method@,
            headers: texts_view(self.headers@),
            data: text_view(self.data),
            help: self.help,
            verbose: self.verbose,
            tls_version: text_view(self.tls_version),
            include_headers: self.include_headers,
            head_only: self.head_only,
            follow_redirects: self.follow_redirects,
            silent: self.silent,
            user_agent: text_view(self.user_agent),
            user: text_view(self.user),
            fail_fast: self.fail_fast,
            http2: self.http2,
        }
    }
}

/// The parameters before any argument is read: a `GET` request without
/// URL, with the minimum TLS version that the environment names.
pub open spec fn initial_args(tls_version: Option<Seq<char>>) -> ArgsView {
    ArgsView {
        url: Seq::empty(),
        output: None,
        method: "GET"@,
        headers: Seq::empty(),
        data: None,
        help: false,
        verbose: false,
        tls_version,
        include_headers: false,
        head_only: false,
        follow_redirects: false,
        silent: false,
        user_agent: None,
        user: None,
        fail_fast: false,
        http2: false,
    }
}

/// What an argument of the command line is.
#[derive(Clone, Copy, Debug, PartialEq, Eq, Structural)]
pub enum ArgKind {
    Help,
    Verbose,
    Output,
    Method,
    Header,
    Data,
    TlsVersion,
    Include,
    Head,
    Location,
    Silent,
    UserAgent,
    User,
    Fail,
    /// Begins with `-` and is none of the options.
    Unknown,
    /// Anything else: the URL.
    Url,
}

/// What the argument `arg` is.
pub open spec fn arg_kind(arg: Seq<char>) -> ArgKind {
    if arg == "-h"@ || arg == "--help"@ {
        ArgKind::Help
    } else if arg == "-v"@ || arg == "--verbose"@ {
        ArgKind::Verbose
    } else if arg == "-o"@ || arg == "--output"@ {
        ArgKind::Output
    } else if arg == "-m"@ || arg == "--method"@ || arg == "-X"@ || arg == "--request"@ {
        ArgKind::Method
    } else if arg == "-H"@ || arg == "--header"@ {
        ArgKind::Header
    } else if arg == "-d"@ || arg == "--data"@ {
        ArgKind::Data
    } else if arg == "--tls-version"@ {
        ArgKind::TlsVersion
    } else if arg == "-i"@ || arg == "--include"@ {
        ArgKind::Include
    } else if arg == "-I"@ || arg == "--head"@ {
        ArgKind::Head
    } else if arg == "-L"@ || arg == "--location"@ {
        ArgKind::Location
    } else if arg == "-s"@ || arg == "--silent"@ {
        ArgKind::Silent
    } else if arg == "-A"@ || arg == "--user-agent"@ {
        ArgKind::UserAgent
    } else if arg == "-u"@ || arg == "--user"@ {
        ArgKind::User
    } else if arg == "-f"@ || arg == "--fail"@ {
        ArgKind::Fail
    } else if arg.len() > 0 && arg[0] == '-' {
        ArgKind::Unknown
    } else {
        ArgKind::Url
    }
}

fn is_text(arg: &[char], literal: &str) -> (r: bool)
    ensures
        r == (arg@ == literal@),
{
    let chars = to_chars(literal);
    same_chars(arg, chars.as_slice())
}

/// What the argument `arg` is.
pub fn kind_of_arg(arg: &str) -> (r: ArgKind)
    ensures
        r == arg_kind(arg@),
{
    let chars = to_chars(arg);
    let a = chars.as_slice();
    if is_text(a, "-h") || is_text(a, "--help") {
        ArgKind::Help
    } else if is_text(a, "-v") || is_text(a, "--verbose") {
        ArgKind::Verbose
    } else if is_text(a, "-o") || is_text(a, "--output") {
        ArgKind::Output
    } else if is_text(a, "-m") || is_text(a, "--method") || is_text(a, "-X") || is_text(
        a,
        "--request",
    ) {
        ArgKind::Method
    } else if is_text(a, "-H") || is_text(a, "--header") {
        ArgKind::Header
    } else if is_text(a, "-d") || is_text(a, "--data") {
        ArgKind::Data
    } else if is_text(a, "--tls-version") {
        ArgKind::TlsVersion
    } else if is_text(a, "-i") || is_text(a, "--include") {
        ArgKind::Include
    } else if is_text(a, "-I") || is_text(a, "--head") {
        ArgKind::Head
    } else if is_text(a, "-L") || is_text(a, "--location") {
        ArgKind::Location
    } else if is_text(a, "-s") || is_text(a, "--silent") {
        ArgKind::Silent
    } else if is_text(a, "-A") || is_text(a, "--user-agent") {
        ArgKind::UserAgent
    } else if is_text(a, "-u") || is_text(a, "--user") {
        ArgKind::User
    } else if is_text(a, "-f") || is_text(a, "--fail") {
        ArgKind::Fail
    } else if a.len() > 0 && a[0] == '-' {
        ArgKind::Unknown
    } else {
        ArgKind::Url
    }
}

/// The message for an option that stands last, without its value.
pub open spec fn missing_value(kind: ArgKind) -> Seq<char> {
    match kind {
        ArgKind::Output => "Missing output file"@,
        ArgKind::Method => "Missing HTTP method"@,
        ArgKind::Header => "Missing header"@,
        ArgKind::Data => "Missing data"@,
        ArgKind::TlsVersion => "Missing TLS version"@,
        ArgKind::UserAgent => "Missing user agent"@,
        _ => "Missing user credentials"@,
    }
}

/// Whether an option of this kind takes the next argument as its value.
pub open spec fn takes_value(kind: ArgKind) -> bool {
    kind is Output || kind is Method || kind is Header || kind is Data || kind is TlsVersion
        || kind is UserAgent || kind is User
}

/// `a` with `body` as the data of the request; a `GET` becomes a `POST`.
pub open spec fn with_data(a: ArgsView, body: Seq<char>) -> ArgsView {
    ArgsView {
        data: Some(body),
        method: if a.method == "GET"@ {
            "POST"@
        } else {
            a.method
        },
        ..a
    }
}

/// `a` after an option of `kind` that takes no value.
pub open spec fn with_flag(a: ArgsView, kind: ArgKind) -> ArgsView {
    match kind {
        ArgKind::Help => ArgsView { help: true, ..a },
        ArgKind::Verbose => ArgsView { verbose: true, ..a },
        ArgKind::Include => ArgsView { include_headers: true, ..a },
        ArgKind::Head => ArgsView { head_only: true, method: "HEAD"@, ..a },
        ArgKind::Location => ArgsView { follow_redirects: true, ..a },
        ArgKind::Silent => ArgsView { silent: true, ..a },
        ArgKind::Fail => ArgsView { fail_fast: true, ..a },
        _ => a,
    }
}

/// `a` after an option of `kind` with `value`; the data option is apart,
/// see [`with_data`].
pub open spec fn with_value(a: ArgsView, kind: ArgKind, value: Seq<char>) -> ArgsView {
    match kind {
        ArgKind::Output => ArgsView { output: Some(value), ..a },
        ArgKind::Method => ArgsView { method: uppercase(value), ..a },
        ArgKind::Header => ArgsView { headers: a.headers.push(value), ..a },
        ArgKind::TlsVersion => ArgsView { tls_version: Some(value), ..a },
        ArgKind::UserAgent => ArgsView { user_agent: Some(value), ..a },
        ArgKind::User => ArgsView { user: Some(value), ..a },
        _ => a,
    }
}

/// The state of reading a command line.
pub struct ParserState {
    pub args: ArgsView,
    /// Index of the next argument to read.
    pub position: nat,
}

/// The outcome of reading one argument.
pub enum ArgStep {
    /// Go on with the next argument.
    Next(ParserState),
    /// Help was asked for: nothing more is read.
    Help(ParserState),
    /// The data of the request stand in the file of this name; reading
    /// goes on once they are supplied.
    NeedFile(Seq<char>, ParserState),
    /// The command line is refused.
    Fail(Seq<char>),
}

/// Reading the argument at the position of `s`.
pub open spec fn arg_step(s: ParserState, arguments: Seq<Seq<char>>) -> ArgStep
    recommends
        s.position < arguments.len(),
{
    let i = s.position as int;
    let kind = arg_kind(arguments[i]);
    if kind is Help {
        ArgStep::Help(ParserState { args: with_flag(s.args, kind), position: s.position + 1 })
    } else if kind is Unknown {
        ArgStep::Fail("Unknown option"@)
    } else if kind is Url {
        ArgStep::Next(
            ParserState { args: ArgsView { url: arguments[i], ..s.args }, position: s.position + 1 },
        )
    } else if !takes_value(kind) {
        ArgStep::Next(ParserState { args: with_flag(s.args, kind), position: s.position + 1 })
    } else if i + 1 >= arguments.len() {
        ArgStep::Fail(missing_value(kind))
    } else {
        let value = arguments[i + 1];
        if kind is Data {
            if value.len() > 0 && value[0] == '@' {
                ArgStep::NeedFile(
                    value.skip(1),
                    ParserState { args: s.args, position: s.position + 2 },
                )
            } else {
                ArgStep::Next(
                    ParserState { args: with_data(s.args, value), position: s.position + 2 },
                )
            }
        } else {
            ArgStep::Next(
                ParserState { args: with_value(s.args, kind, value), position: s.position + 2 },
            )
        }
    }
}

/// What to do after an argument was read.
pub enum ArgAction {
    /// Read the next argument, if there is one.
    Continue,
    /// Help was asked for: stop reading.
    Help,
    /// Read the file of this name and supply what it holds.
    ReadFile(String),
    /// The command line is refused, with this message.
    Fail(&'static str),
}

/// Reads a command line, argument by argument.
pub struct ArgParser {
    pub args: Args,
    pub position: usize,
}

impl View for ArgParser {
    type V = ParserState;

    open spec fn view(&self) -> ParserState {
        ParserState { args: self.args@, position: self.position as nat }
    }
}

/// Whether `action` and the parser's new state are what `step` names.
pub open spec fn step_taken(action: ArgAction, now: ParserState, before: ParserState, step: ArgStep) -> bool {
    match step {
        ArgStep::Next(s) => action is Continue && now == s,
        ArgStep::Help(s) => action is Help && now == s,
        ArgStep::NeedFile(name, s) => now == s && (action matches ArgAction::ReadFile(n) && n@
            == name),
        ArgStep::Fail(message) => now == before && (action matches ArgAction::Fail(m) && m@
            == message),
    }
}

impl ArgParser {
    /// A parser that has read nothing yet; `tls_version` is the minimum
    /// TLS version that the environment names.
    pub fn new(tls_version: Option<String>) -> (r: Self)
        ensures
            r@ == (ParserState { args: initial_args(text_view(tls_version)), position: 0 }),
    {
        let r = ArgParser {
            args: Args {
                url: String::new(),
                output: None,
                method: String::from_str("GET"),
                headers: Vec::new(),
                data: None,
                help: false,
                verbose: false,
                tls_version,
                include_headers: false,
                head_only: false,
                follow_redirects: false,
                silent: false,
                user_agent: None,
                user: None,
                fail_fast: false,
                http2: false,
            },
            position: 0,
        };
        assert(r.args@.headers =~= Seq::<Seq<char>>::empty());
        r
    }

    /// Whether an argument is left to read.
    pub fn has_more(&self, arguments: &[String]) -> (r: bool)
        ensures
            r == (self@.position < arguments@.len()),
    {
        self.position < arguments.len()
    }

    fn set_data(&mut self, body: String)
        ensures
            final(self)@ == (ParserState {
                args: with_data(old(self)@.args, body@),
                position: old(self)@.position,
            }),
    {
        let method = to_chars(self.args.method.as_str());
        if is_text(method.as_slice(), "GET") {
            self.args.method = String::from_str("POST");
        }
        self.args.data = Some(body);
    }

    fn set_flag(&mut self, kind: ArgKind)
        ensures
            final(self)@ == (ParserState {
                args: with_flag(old(self)@.args, kind),
                position: old(self)@.position,
            }),
    {
        match kind {
            ArgKind::Help => {
                self.args.help = true;
            },
            ArgKind::Verbose => {
                self.args.verbose = true;
            },
            ArgKind::Include => {
                self.args.include_headers = true;
            },
            ArgKind::Head => {
                self.args.head_only = true;
                self.args.method = String::from_str("HEAD");
            },
            ArgKind::Location => {
                self.args.follow_redirects = true;
            },
            ArgKind::Silent => {
                self.args.silent = true;
            },
            ArgKind::Fail => {
                self.args.fail_fast = true;
            },
            _ => {},
        }
    }

    fn set_value(&mut self, kind: ArgKind, value: &String)
        ensures
            final(self)@ == (ParserState {
                args: with_value(old(self)@.args, kind, value@),
                position: old(self)@.position,
            }),
    {
        match kind {
            ArgKind::Output => {
                self.args.output = Some(value.clone());
            },
            ArgKind::Method => {
                self.args.method = uppercased(value.as_str());
            },
            ArgKind::Header => {
                self.args.headers.push(value.clone());
                assert(texts_view(self.args.headers@) =~= texts_view(old(self).args.headers@).push(
                    value@,
                ));
            },
            ArgKind::TlsVersion => {
                self.args.tls_version = Some(value.clone());
            },
            ArgKind::UserAgent => {
                self.args.user_agent = Some(value.clone());
            },
            ArgKind::User => {
                self.args.user = Some(value.clone());
            },
            _ => {},
        }
    }

    /// Reads the next argument, with its value where it takes one, and
    /// says what to do next.
    pub fn step(&mut self, arguments: &[String]) -> (action: ArgAction)
        requires
            old(self)@.position < arguments@.len(),
        ensures
            step_taken(action, final(self)@, old(self)@, arg_step(old(self)@, texts_view(arguments@))),
    {
        let i = self.position;
        let kind = kind_of_arg(arguments[i].as_str());
        match kind {
            ArgKind::Help => {
                self.set_flag(kind);
                self.position = i + 1;
                ArgAction::Help
            },
            ArgKind::Unknown => ArgAction::Fail("Unknown option"),
            ArgKind::Url => {
                self.args.url = arguments[i].clone();
                self.position = i + 1;
                ArgAction::Continue
            },
            ArgKind::Verbose | ArgKind::Include | ArgKind::Head | ArgKind::Location
            | ArgKind::Silent | ArgKind::Fail => {
                self.set_flag(kind);
                self.position = i + 1;
                ArgAction::Continue
            },
            _ => {
                if arguments.len() - i < 2 {
                    return ArgAction::Fail(
                        match kind {
                            ArgKind::Output => "Missing output file",
                            ArgKind::Method => "Missing HTTP method",
                            ArgKind::Header => "Missing header",
                            ArgKind::Data => "Missing data",
                            ArgKind::TlsVersion => "Missing TLS version",
                            ArgKind::UserAgent => "Missing user agent",
                            _ => "Missing user credentials",
                        },
                    );
                }
                let value = &arguments[i + 1];
                match kind {
                    ArgKind::Data => {
                        let chars = to_chars(value.as_str());
                        if chars.len() > 0 && chars[0] == '@' {
                            self.position = i + 2;
                            let name = string_of(&chars.as_slice()[1..chars.len()]);
                            assert(chars@.subrange(1, chars@.len() as int) =~= value@.skip(1));
                            ArgAction::ReadFile(name)
                        } else {
                            self.set_data(value.clone());
                            self.position = i + 2;
                            ArgAction::Continue
                        }
                    },
                    _ => {
                        self.set_value(kind, value);
                        self.position = i + 2;
                        ArgAction::Continue
                    },
                }
            },
        }
    }

    /// Takes in what the data file holds, or that it could not be read.
    pub fn supply_data(&mut self, content: Option<String>) -> (r: Result<(), &'static str>)
        ensures
            match content {
                Some(body) => r is Ok && final(self)@ == (ParserState {
                    args: with_data(old(self)@.args, body@),
                    position: old(self)@.position,
                }),
                None => final(self)@ == old(self)@ && (r matches Err(m) && m@
                    == "Failed to read data file"@),
            },
    {
        match content {
            Some(body) => {
                self.set_data(body);
                Ok(())
            },
            None => Err("Failed to read data file"),
        }
    }

    /// Ends the reading: the parameters, unless they name no URL and do
    /// not ask for help.
    pub fn finish(self) -> (r: Result<Args, &'static str>)
        ensures
            match r {
                Ok(args) => args@ == self@.args && (self@.args.url.len() > 0 || self@.args.help),
                Err(m) => m@ == "Missing URL"@ && self@.args.url.len() == 0 && !self@.args.help,
            },
    {
        if self.args.url.as_str().is_empty() && !self.args.help {
            Err("Missing URL")
        } else {
            Ok(self.args)
        }
    }
}

} // verus!
