//! The parsing helpers under their short names.

use crate::http::response::{
    chunked_payload, spec_get_content_length, spec_is_chunked_transfer, spec_parse_status_line,
};
use crate::http::url::{parsed_as, spec_parse};
use vstd::prelude::*;

verus! {

/// Parses a URL into host, port, path and whether it is `https`.
pub fn parse_url(url: &str) -> (r: Result<(String, u16, String, bool), &'static str>)
    ensures
        parsed_as(r, spec_parse(url@)),
        r matches Ok((host, _, path, _)) ==> host@.len() > 0 && path@.len() > 0 && path@[0] == '/',
{
    crate::http::url::parse(url)
}

/// Extracts the `Content-Length` header value from an HTTP response.
pub fn get_content_length(response: &[u8]) -> (r: Option<usize>)
    ensures
        r == spec_get_content_length(response@),
{
    crate::http::response::get_content_length(response)
}

/// Checks whether the response uses the chunked transfer coding.
pub fn is_chunked_transfer(response: &[u8]) -> (r: bool)
    ensures
        r == spec_is_chunked_transfer(response@),
{
    crate::http::response::is_chunked_transfer(response)
}

/// Parses the status line of an HTTP response.
pub fn parse_status_line(response: &[u8]) -> (r: Result<u16, &'static str>)
    ensures
        match r {
            Ok(code) => spec_parse_status_line(response@) == Ok::<u16, Seq<char>>(code),
            Err(message) => spec_parse_status_line(response@) == Err::<u16, Seq<char>>(message@),
        },
{
    crate::http::response::parse_status_line(response)
}

/// Decodes a body in the chunked transfer coding.
pub fn decode_chunked_transfer(body: &[u8]) -> (r: Vec<u8>)
    ensures
        r@ == chunked_payload(body@, 0),
{
    crate::http::response::decode_chunked_transfer(body)
}

} // verus!
