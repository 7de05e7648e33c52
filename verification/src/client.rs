//! Preparing a request cycle, and its errors.

use crate::args::Args;
use crate::http::build_http_request;
use crate::http::request::spec_build;
use crate::http::url::spec_parse;
use crate::http2::{build_http2_request, spec_build_http2_request};
use crate::utils::parse_url;
use vstd::prelude::*;
use vstd::string::StringExecFns;

verus! {

/// Why a request cycle failed.
#[derive(Debug)]
pub enum RequestError {
    /// The URL is no URL that a request can be sent to.
    UrlFormatError(String),
    ConnectionError(String),
    TlsError(String),
    WriteError(String),
    ReadError(String),
    NoResponseError,
}

/// The one-line message of an error.
pub open spec fn error_message(e: RequestError) -> Seq<char> {
    match e {
        RequestError::UrlFormatError(m) => m@,
        RequestError::ConnectionError(m) => m@,
        RequestError::TlsError(m) => m@,
        RequestError::WriteError(m) => m@,
        RequestError::ReadError(m) => m@,
        RequestError::NoResponseError => "No response received after maximum attempts"@,
    }
}

impl RequestError {
    /// The one-line message of this error.
    pub fn message(&self) -> (r: String)
        ensures
            r@ == error_message(*self),
    {
        match self {
            RequestError::UrlFormatError(m) => m.clone(),
            RequestError::ConnectionError(m) => m.clone(),
            RequestError::TlsError(m) => m.clone(),
            RequestError::WriteError(m) => m.clone(),
            RequestError::ReadError(m) => m.clone(),
            RequestError::NoResponseError => String::from_str(
                "No response received after maximum attempts",
            ),
        }
    }
}


/// What to send, and where to.
pub struct PreparedRequest {
    pub bytes: Vec<u8>,
    pub host: String,
    pub port: u16,
    pub secure: bool,
}

/// [`PreparedRequest`] as contracts see it.
pub struct PreparedRequestView {
    pub bytes: Seq<u8>,
    pub host: Seq<char>,
    pub port: u16,
    pub secure: bool,
}

impl View for PreparedRequest {
    type V = PreparedRequestView;

    open spec fn view(&self) -> PreparedRequestView {
        PreparedRequestView {
            bytes: self.bytes@,
            host: self.host@,
            port: self.port,
            secure: self.secure,
        }
    }
}

/// The bytes of the request that `args` describe, in the protocol that
/// they choose.
pub open spec fn spec_request_bytes(args: Args) -> Result<Seq<u8>, Seq<char>> {
    if args.http2 {
        spec_build_http2_request(args)
    } else {
        spec_build(args)
    }
}

/// The request that `args` describe with the host, port and scheme to send
/// it to; or the message that says why their URL is refused.
pub open spec fn spec_prepare_request(args: Args) -> Result<PreparedRequestView, Seq<char>> {
    match spec_request_bytes(args) {
        Err(message) => Err(message),
        Ok(bytes) => match spec_parse(args.url@) {
            Err(message) => Err(message),
            Ok((host, port, _, secure)) => Ok(PreparedRequestView { bytes, host, port, secure }),
        },
    }
}

/// Whether `r` is the request that `expected` names, or a URL format error
/// with the message that it names.
pub open spec fn prepared_as(
    r: Result<PreparedRequest, RequestError>,
    expected: Result<PreparedRequestView, Seq<char>>,
) -> bool {
    match r {
        Ok(p) => expected == Ok::<PreparedRequestView, Seq<char>>(p@),
        Err(RequestError::UrlFormatError(m)) => expected == Err::<PreparedRequestView, Seq<char>>(
            m@,
        ),
        Err(_) => false,
    }
}

/// Prepares the request that `args` describe: its bytes, and the host,
/// port and scheme of its URL. A URL that is refused gives a URL format
/// error, before anything is sent.
pub fn prepare_request(args: &Args) -> (r: Result<PreparedRequest, RequestError>)
    ensures
        prepared_as(r, spec_prepare_request(*args)),
{
    let built = if args.http2 {
        build_http2_request(args)
    } else {
        build_http_request(args)
    };
    let bytes = match built {
        Ok(bytes) => bytes,
        Err(message) => {
            return Err(RequestError::UrlFormatError(String::from_str(message)));
        },
    };
    match parse_url(args.url.as_str()) {
        Ok((host, port, _, secure)) => Ok(PreparedRequest { bytes, host, port, secure }),
        Err(message) => Err(RequestError::UrlFormatError(String::from_str(message))),
    }
}

} // verus!
