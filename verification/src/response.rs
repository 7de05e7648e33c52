//! Processing a response of either protocol.

use crate::args::Args;
use crate::bytes::{display_text, to_display_text};
use crate::http::response::{
    process, spec_process, unless_silent, FileOutput, FileOutputView, Outcome, OutcomeView,
    EXIT_OK,
};
use crate::http2::{
    frame_report, has_preface, parse_http2_response, spec_frame_report,
    spec_parse_http2_response, starts_with_preface,
};
use vstd::prelude::*;
use vstd::string::StringExecFns;

verus! {

/// What handing `body` out comes to: to the output file where one is
/// named, with a note for standard output unless silent; else to standard
/// output, as text and with a line feed.
pub open spec fn spec_handle_response_body(body: Seq<u8>, args: Args) -> OutcomeView {
    match args.output {
        Some(path) => OutcomeView {
            exit_code: EXIT_OK,
            stdout: Seq::empty(),
            stderr: Seq::empty(),
            file: Some(
                FileOutputView {
                    path: path@,
                    content: body,
                    note: unless_silent(args, "Response body saved to '"@ + path@ + "'\n"@),
                },
            ),
        },
        None => OutcomeView {
            exit_code: EXIT_OK,
            stdout: display_text(body) + "\n"@,
            stderr: Seq::empty(),
            file: None,
        },
    }
}

/// Hands a response body out, to the output file or to standard output.
pub fn handle_response_body(body: Vec<u8>, args: &Args) -> (r: Outcome)
    ensures
        r@ == spec_handle_response_body(body@, *args),
{
    match &args.output {
        Some(path) => {
            let mut note = String::new();
            if !args.silent {
                note.append("Response body saved to '");
                note.append(path.as_str());
                note.append("'\n");
                assert(note@ =~= "Response body saved to '"@ + path@ + "'\n"@);
            }
            Outcome {
                exit_code: EXIT_OK,
                stdout: String::new(),
                stderr: String::new(),
                file: Some(FileOutput { path: path.clone(), content: body, note }),
            }
        },
        None => {
            let mut stdout = to_display_text(body.as_slice());
            stdout.append("\n");
            Outcome { exit_code: EXIT_OK, stdout, stderr: String::new(), file: None }
        },
    }
}

/// Processes an HTTP/1.1 response.
pub fn process_http1_response(response: &[u8], args: &Args) -> (r: Outcome)
    ensures
        r@ == spec_process(response@, *args),
{
    process(response, args)
}

/// What processing the HTTP/2 response `response` comes to: the payloads
/// of its DATA frames are the body and are handed out; in verbose mode,
/// unless silent, the report of its frames comes first on standard output.
pub open spec fn spec_process_http2_response(response: Seq<u8>, args: Args) -> OutcomeView {
    let handed = spec_handle_response_body(spec_parse_http2_response(response), args);
    let report = if args.verbose && !args.silent {
        spec_frame_report(response)
    } else {
        Seq::empty()
    };
    OutcomeView {
        exit_code: handed.exit_code,
        stdout: report + handed.stdout,
        stderr: handed.stderr,
        file: handed.file,
    }
}

/// Processes an HTTP/2 response.
pub fn process_http2_response(response: &[u8], args: &Args) -> (r: Outcome)
    ensures
        r@ == spec_process_http2_response(response@, *args),
{
    let mut stdout = if args.verbose && !args.silent {
        frame_report(response)
    } else {
        String::new()
    };
    let handed = handle_response_body(parse_http2_response(response), args);
    stdout.append(handed.stdout.as_str());
    Outcome { exit_code: handed.exit_code, stdout, stderr: handed.stderr, file: handed.file }
}

/// What processing `response` comes to: as an HTTP/2 response where it
/// begins with the connection preface, and as an HTTP/1.1 response where
/// it does not.
pub open spec fn spec_process_response(response: Seq<u8>, args: Args) -> OutcomeView {
    if has_preface(response) {
        spec_process_http2_response(response, args)
    } else {
        spec_process(response, args)
    }
}

/// Processes a response of either protocol.
pub fn process_response(response: &[u8], args: &Args) -> (r: Outcome)
    ensures
        r@ == spec_process_response(response@, *args),
{
    if starts_with_preface(response) {
        process_http2_response(response, args)
    } else {
        process_http1_response(response, args)
    }
}

} // verus!
