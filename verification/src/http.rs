//! HTTP/1.1: URLs, requests, responses and the decisions of a request
//! cycle.

pub mod client;
pub mod request;
pub mod response;
pub mod url;

use crate::args::Args;
use crate::http::request::{build, built_as, spec_build};
use vstd::prelude::*;

verus! {

/// Builds the HTTP/1.1 request that `args` describe.
pub fn build_http_request(args: &Args) -> (r: Result<Vec<u8>, &'static str>)
    ensures
        built_as(r, spec_build(*args)),
{
    build(args)
}

} // verus!
