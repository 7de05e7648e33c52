//! Taking an absolute `http://` or `https://` URL apart.

use crate::numbers::{
    decimal_text, digit_value, lemma_decimal_text, lemma_parse_decimal_text, parse_unsigned,
    read_unsigned,
};
use crate::text::{
    first_index, lemma_first_index, lemma_first_index_props, position, starts_with, string_of,
    to_chars,
};
use vstd::prelude::*;

verus! {

/// The port that a scheme implies.
pub open spec fn default_port(secure: bool) -> u16 {
    if secure {
        443
    } else {
        80
    }
}

/// Host, port, path and scheme of what follows the scheme prefix. The host
/// and port stand before the first `/`, the port behind the first `:` among
/// them; the path is what follows that `/`, with a `/` in front.
pub open spec fn parse_authority_and_path(rest: Seq<char>, secure: bool) -> Result<
    (Seq<char>, u16, Seq<char>, bool),
    Seq<char>,
> {
    let slash = first_index(rest, '/');
    let authority = rest.take(slash);
    let path = if slash < rest.len() {
        rest.skip(slash + 1)
    } else {
        Seq::empty()
    };
    let colon = first_index(authority, ':');
    let host = authority.take(colon);
    let port = if colon < authority.len() {
        parse_unsigned(authority.skip(colon + 1), 10, u16::MAX as int)
    } else {
        Some(default_port(secure) as int)
    };
    if port is None {
        Err("Invalid port"@)
    } else if host.len() == 0 {
        Err("Invalid host"@)
    } else {
        Ok((host, port.unwrap() as u16, seq!['/'] + path, secure))
    }
}

/// Host, port, path and whether the scheme is `https`, or the message that
/// says why `url` is refused. The scheme prefix is taken off once; what
/// follows it is the host, the port and the path.
pub open spec fn spec_parse(url: Seq<char>) -> Result<(Seq<char>, u16, Seq<char>, bool), Seq<char>> {
    if "https://"@.is_prefix_of(url) {
        parse_authority_and_path(url.skip("https://"@.len() as int), true)
    } else if "http://"@.is_prefix_of(url) {
        parse_authority_and_path(url.skip("http://"@.len() as int), false)
    } else {
        Err("URL must start with http:// or https://"@)
    }
}

/// Whether `r` is what [`spec_parse`] gives for a URL, with strings taken
/// by their characters.
pub open spec fn parsed_as(
    r: Result<(String, u16, String, bool), &'static str>,
    expected: Result<(Seq<char>, u16, Seq<char>, bool), Seq<char>>,
) -> bool {
    match r {
        Ok((host, port, path, secure)) => expected == Ok::<
            (Seq<char>, u16, Seq<char>, bool),
            Seq<char>,
        >((host@, port, path@, secure)),
        Err(message) => expected == Err::<(Seq<char>, u16, Seq<char>, bool), Seq<char>>(message@),
    }
}

/// Parses a URL into host, port, path and whether it is `https`.
pub fn parse(url: &str) -> (r: Result<(String, u16, String, bool), &'static str>)
    ensures
        parsed_as(r, spec_parse(url@)),
        r matches Ok((host, _, path, _)) ==> host@.len() > 0 && path@.len() > 0 && path@[0] == '/',
{
    let chars = to_chars(url);
    let https = to_chars("https://");
    let http = to_chars("http://");
    let (secure, rest) = if starts_with(chars.as_slice(), https.as_slice()) {
        (true, &chars.as_slice()[https.len()..chars.len()])
    } else if starts_with(chars.as_slice(), http.as_slice()) {
        (false, &chars.as_slice()[http.len()..chars.len()])
    } else {
        return Err("URL must start with http:// or https://");
    };
    let slash = position(rest, '/');
    proof {
        lemma_first_index_props(rest@, '/');
    }
    let authority = &rest[0..slash];
    let colon = position(authority, ':');
    proof {
        lemma_first_index_props(authority@, ':');
    }
    let port: u16 = if colon < authority.len() {
        match read_unsigned(&authority[colon + 1..authority.len()], 10, 65535) {
            Some(p) => p as u16,
            None => {
                return Err("Invalid port");
            },
        }
    } else if secure {
        443
    } else {
        80
    };
    if colon == 0 {
        return Err("Invalid host");
    }
    let host = string_of(&authority[0..colon]);
    let mut path = String::new();
    path.push('/');
    if slash < rest.len() {
        let tail = &rest[slash + 1..rest.len()];
        let mut i: usize = 0;
        while i < tail.len()
            invariant
                i <= tail@.len(),
                path@ == seq!['/'] + tail@.take(i as int),
            decreases tail@.len() - i,
        {
            path.push(tail[i]);
            i += 1;
            assert(seq!['/'] + tail@.take(i as int) =~= (seq!['/'] + tail@.take(i - 1)).push(
                tail@[i - 1],
            ));
        }
        assert(tail@.take(i as int) =~= tail@);
    } else {
        assert(path@ =~= seq!['/'] + Seq::<char>::empty());
    }
    Ok((host, port, path, secure))
}


/// The scheme prefix of a URL.
pub open spec fn scheme_prefix(secure: bool) -> Seq<char> {
    if secure {
        "https://"@
    } else {
        "http://"@
    }
}

/// What a URL holds behind its scheme prefix: the host, then `:` and the
/// port in decimal where one is given, then `/` and the path where one is
/// given.
pub open spec fn url_remainder(host: Seq<char>, port: Option<u16>, path: Option<Seq<char>>) -> Seq<
    char,
> {
    host + (match port {
        Some(p) => seq![':'] + decimal_text(p as nat),
        None => Seq::empty(),
    }) + (match path {
        Some(p) => seq!['/'] + p,
        None => Seq::empty(),
    })
}

/// The URL `scheme://host[:port][/path]`.
pub open spec fn url_text(
    secure: bool,
    host: Seq<char>,
    port: Option<u16>,
    path: Option<Seq<char>>,
) -> Seq<char> {
    scheme_prefix(secure) + url_remainder(host, port, path)
}

/// A host that a URL can carry: not empty, and without `/` or `:`.
pub open spec fn plain_host(host: Seq<char>) -> bool {
    host.len() > 0 && forall|i: int| 0 <= i < host.len() ==> #[trigger] host[i] != '/' && host[i] != ':'
}

proof fn lemma_parse_remainder(
    secure: bool,
    host: Seq<char>,
    port: Option<u16>,
    path: Option<Seq<char>>,
)
    requires
        plain_host(host),
    ensures
        parse_authority_and_path(url_remainder(host, port, path), secure) == Ok::<
            (Seq<char>, u16, Seq<char>, bool),
            Seq<char>,
        >(
            (
                host,
                match port {
                    Some(p) => p,
                    None => default_port(secure),
                },
                seq!['/'] + (match path {
                    Some(p) => p,
                    None => Seq::empty(),
                }),
                secure,
            ),
        ),
{
    let rest = url_remainder(host, port, path);
    let port_part = match port {
        Some(p) => seq![':'] + decimal_text(p as nat),
        None => Seq::empty(),
    };
    let authority = host + port_part;
    match port {
        Some(p) => {
            lemma_decimal_text(p as nat);
            lemma_parse_decimal_text(p as nat, u16::MAX as int);
            let digits = decimal_text(p as nat);
            assert forall|i: int| 0 <= i < port_part.len() implies #[trigger] port_part[i] != '/' by {
                if i > 0 {
                    assert(port_part[i] == digits[i - 1]);
                    assert(digit_value(digits[i - 1], 10) is Some);
                }
            }
        },
        None => {},
    }
    assert forall|i: int| 0 <= i < authority.len() implies #[trigger] authority[i] != '/' by {
        if i < host.len() {
            assert(authority[i] == host[i]);
        } else {
            assert(authority[i] == port_part[i - host.len()]);
        }
    }
    let slash = authority.len() as int;
    assert forall|i: int| 0 <= i < slash implies #[trigger] rest[i] != '/' by {
        assert(rest[i] == authority[i]);
    }
    lemma_first_index(rest, '/', slash);
    assert(rest.take(slash) =~= authority);
    match path {
        Some(p) => {
            assert(rest.skip(slash + 1) =~= p);
        },
        None => {},
    }
    let colon = host.len() as int;
    assert forall|i: int| 0 <= i < colon implies #[trigger] authority[i] != ':' by {
        assert(authority[i] == host[i]);
    }
    lemma_first_index(authority, ':', colon);
    assert(authority.take(colon) =~= host);
    match port {
        Some(p) => {
            assert(authority.skip(colon + 1) =~= decimal_text(p as nat));
        },
        None => {
            assert(authority =~= host);
        },
    }
}

/// Parsing recovers the parts of a URL: for every URL
/// `scheme://host[:port][/path]` whose host is not empty and holds no `/`
/// or `:`, parsing gives that host, that port or else the port of the
/// scheme (443 for `https`, 80 for `http`), the path with its leading `/`
/// or else `/` alone, and the scheme.
pub proof fn lemma_parse_recovers_parts(
    secure: bool,
    host: Seq<char>,
    port: Option<u16>,
    path: Option<Seq<char>>,
)
    requires
        plain_host(host),
    ensures
        spec_parse(url_text(secure, host, port, path)) == Ok::<
            (Seq<char>, u16, Seq<char>, bool),
            Seq<char>,
        >(
            (
                host,
                match port {
                    Some(p) => p,
                    None => default_port(secure),
                },
                seq!['/'] + (match path {
                    Some(p) => p,
                    None => Seq::empty(),
                }),
                secure,
            ),
        ),
{
    reveal_strlit("https://");
    reveal_strlit("http://");
    let rest = url_remainder(host, port, path);
    let prefix = scheme_prefix(secure);
    let url = url_text(secure, host, port, path);
    assert(url.subrange(0, prefix.len() as int) =~= prefix);
    assert(prefix.is_prefix_of(url));
    assert(url.skip(prefix.len() as int) =~= rest);
    if !secure {
        if "https://"@.is_prefix_of(url) {
            assert("https://"@[4] == url.subrange(0, 8)[4]);
            assert(url[4] == prefix[4]);
        }
    }
    lemma_parse_remainder(secure, host, port, path);
}

} // verus!
