//! The decisions of a request cycle: when a response is complete, what to
//! do after each read, and whether to follow a redirect.

use crate::args::{same_but_url, Args};
use crate::bytes::{find_bytes, find_bytes_from};
use crate::client::RequestError;
use crate::http::request::{build, spec_build_for};
use crate::http::response::{
    header_terminator, get_content_length, get_location, is_chunked_transfer, parse_status_line,
    spec_get_content_length, spec_get_location, spec_is_chunked_transfer,
    spec_parse_status_line,
};
use crate::http::url::{parse, spec_parse};
use crate::text::{
    find, find_from, lemma_find_extended_none, lemma_find_extended_some, lemma_find_from_props,
    lemma_occurs_at_extended,
};
use vstd::prelude::*;
use vstd::string::StringExecFns;

verus! {

/// Seconds allowed for connecting.
pub const CONNECT_TIMEOUT_SECS: u64 = 10;

/// Seconds allowed for one read.
pub const READ_TIMEOUT_SECS: u64 = 30;

/// Seconds allowed for one write.
pub const WRITE_TIMEOUT_SECS: u64 = 10;

/// Size of the scratch buffer of one read.
pub const READ_BUFFER_SIZE: usize = 8192;

/// Capacity that a response buffer starts with.
pub const INITIAL_CAPACITY: usize = 1048576;

/// Reading stops once more than this many bytes have been gathered.
pub const MAX_SIZE: usize = 10485760;

/// Reading goes on only while fewer than this many attempts are counted.
pub const MAX_ATTEMPTS: usize = 50;

/// Reads that would block, with data already there, are retried until this
/// many are counted.
pub const MAX_IDLE_ATTEMPTS: usize = 5;

/// Milliseconds to wait before a retry.
pub const RETRY_DELAY_MS: u64 = 100;

/// The redirect codes that carry a new location.
pub open spec fn spec_is_redirect_status(status: u16) -> bool {
    status == 301 || status == 302 || status == 303 || status == 307 || status == 308
}

/// Checks whether a status code is a redirect.
pub fn is_redirect_status(status: u16) -> (r: bool)
    ensures
        r == spec_is_redirect_status(status),
{
    status == 301 || status == 302 || status == 303 || status == 307 || status == 308
}

/// The last chunk of a chunked body, with the blank line behind it.
pub open spec fn chunk_terminator() -> Seq<u8> {
    seq![0x30u8, 0x0du8, 0x0au8, 0x0du8, 0x0au8]
}

/// Why reading stopped.
#[derive(Clone, Copy, Debug, PartialEq, Eq, Structural)]
pub enum StopReason {
    /// The announced `Content-Length` has arrived.
    ContentLength,
    /// The last chunk of a chunked body has arrived.
    LastChunk,
    /// The peer closed the connection.
    EndOfStream,
    /// More than [`MAX_SIZE`] bytes have arrived; the response is cut there.
    TooLarge,
    /// No more data came within the retries allowed.
    Idle,
    /// A read failed after some data had arrived.
    Interrupted,
}

/// Whether the bytes gathered so far are a whole response, and by which
/// rule. Once the header block has ended: a `Content-Length` decides, by
/// the count of bytes behind the header block; without one, the chunked
/// transfer coding decides, by its last chunk anywhere in the buffer;
/// without either nothing is ever complete before the peer closes.
pub open spec fn completion(buffer: Seq<u8>) -> Option<StopReason> {
    match find(buffer, header_terminator()) {
        None => None,
        Some(pos) => {
            let head = buffer.take(pos + 4);
            match spec_get_content_length(head) {
                Some(length) => if buffer.len() >= pos + 4 + length {
                    Some(StopReason::ContentLength)
                } else {
                    None
                },
                None => if spec_is_chunked_transfer(head) && find(buffer, chunk_terminator())
                    is Some {
                    Some(StopReason::LastChunk)
                } else {
                    None
                },
            }
        },
    }
}

/// What a read gave.
pub enum ReadEvent {
    /// The bytes of a successful read; none at all when the stream has
    /// nothing more to give.
    Read(Vec<u8>),
    /// The read would have blocked or timed out.
    WouldBlock,
    /// The read failed for another reason, described by the message.
    Failed(String),
}

/// What to do after a read.
pub enum ReadAction {
    /// Read again at once.
    Continue,
    /// Wait [`RETRY_DELAY_MS`], then read again if reading is still wanted.
    Wait,
    /// Stop: the buffer is the response.
    Done(StopReason),
    /// Stop: reading has failed.
    Fail(RequestError),
}

/// The state of a read loop as contracts see it.
pub struct ReaderState {
    pub buffer: Seq<u8>,
    pub attempts: nat,
}

/// The outcome of one step of the read loop.
pub enum Step {
    Continue(ReaderState),
    Wait(ReaderState),
    Done(StopReason, ReaderState),
    Fail(Seq<char>),
}

/// The state after `data` has arrived: the bytes are appended and the
/// attempts start anew.
pub open spec fn after_data(s: ReaderState, data: Seq<u8>) -> ReaderState {
    ReaderState { buffer: s.buffer + data, attempts: 0 }
}

/// The state after one more attempt was counted.
pub open spec fn after_attempt(s: ReaderState) -> ReaderState {
    ReaderState { buffer: s.buffer, attempts: s.attempts + 1 }
}

/// One step of the read loop: the state and the action that follow from a
/// state and what the read gave.
///
/// Data is appended, starts the attempts anew, and ends the loop where it
/// completes the response or exceeds [`MAX_SIZE`]. A read that gives
/// nothing ends the loop where data has arrived; before any data it counts
/// as an attempt and is waited out. A read that would block counts as an
/// attempt and is waited out too; with data already there, the fifth in a
/// row ends the loop. Any other failure ends the loop, as an error only
/// where no data has arrived. The attempts end at [`MAX_ATTEMPTS`], see
/// [`wants_read`] and [`no_response`].
pub open spec fn step(s: ReaderState, event: ReadEvent) -> Step {
    match event {
        ReadEvent::Read(data) => if data@.len() == 0 {
            if s.buffer.len() > 0 {
                Step::Done(StopReason::EndOfStream, s)
            } else {
                Step::Wait(after_attempt(s))
            }
        } else {
            let next = after_data(s, data@);
            match completion(next.buffer) {
                Some(reason) => Step::Done(reason, next),
                None => if next.buffer.len() > MAX_SIZE {
                    Step::Done(StopReason::TooLarge, next)
                } else {
                    Step::Continue(next)
                },
            }
        },
        ReadEvent::WouldBlock => if s.buffer.len() > 0 && s.attempts + 1 >= MAX_IDLE_ATTEMPTS {
            Step::Done(StopReason::Idle, after_attempt(s))
        } else {
            Step::Wait(after_attempt(s))
        },
        ReadEvent::Failed(message) => if s.buffer.len() > 0 {
            Step::Done(StopReason::Interrupted, s)
        } else {
            Step::Fail("Read error: "@ + message@)
        },
    }
}

/// Whether the read loop goes on to another read from state `s`.
pub open spec fn wants_read(s: ReaderState) -> bool {
    s.attempts < MAX_ATTEMPTS
}

/// Whether the read loop ends without a response: the attempts are used up
/// and not one byte has arrived.
pub open spec fn no_response(s: ReaderState) -> bool {
    s.attempts >= MAX_ATTEMPTS && s.buffer.len() == 0
}

/// The buffer and the counters of one read loop.
pub struct ResponseReader {
    buffer: Vec<u8>,
    header_end: Option<usize>,
    attempts: usize,
}

impl View for ResponseReader {
    type V = ReaderState;

    open spec fn view(&self) -> ReaderState {
        ReaderState { buffer: self.buffer_view(), attempts: self.attempts_view() }
    }
}

impl ResponseReader {
    pub closed spec fn buffer_view(&self) -> Seq<u8> {
        self.buffer@
    }

    pub closed spec fn attempts_view(&self) -> nat {
        self.attempts as nat
    }

    /// The recorded header boundary is the index of the first header
    /// terminator of the buffer, and the attempts have not run over.
    pub closed spec fn wf(&self) -> bool {
        &&& self.attempts <= MAX_ATTEMPTS
        &&& match self.header_end {
            Some(pos) => find(self.buffer@, header_terminator()) == Some(pos as int),
            None => find(self.buffer@, header_terminator()) is None,
        }
    }

    /// A reader that has read nothing yet.
    pub fn new() -> (r: Self)
        ensures
            r.wf(),
            r@ == (ReaderState { buffer: Seq::empty(), attempts: 0 }),
    {
        let r = ResponseReader {
            buffer: Vec::with_capacity(INITIAL_CAPACITY),
            header_end: None,
            attempts: 0,
        };
        proof {
            assert(find_from(r.buffer@, header_terminator(), 0) is None);
        }
        r
    }

    /// The bytes gathered so far.
    pub fn buffer(&self) -> (r: &[u8])
        ensures
            r@ == self@.buffer,
    {
        self.buffer.as_slice()
    }

    /// The attempts counted so far.
    pub fn attempts(&self) -> (r: usize)
        ensures
            r == self@.attempts,
    {
        self.attempts
    }

    /// Whether the loop goes on to another read.
    pub fn wants_read(&self) -> (r: bool)
        ensures
            r == wants_read(self@),
    {
        self.attempts < MAX_ATTEMPTS
    }

    /// Whether the buffer is a whole response, and by which rule.
    fn completion(&self) -> (r: Option<StopReason>)
        requires
            self.wf(),
        ensures
            r == completion(self.buffer@),
    {
        let pos = match self.header_end {
            Some(pos) => pos,
            None => {
                return None;
            },
        };
        proof {
            lemma_find_from_props(self.buffer@, header_terminator(), 0);
            assert(header_terminator().len() == 4);
        }
        let total = self.buffer.len();
        let head_len = pos + 4;
        let head = &self.buffer.as_slice()[0..head_len];
        match get_content_length(head) {
            Some(length) => {
                if total - head_len >= length {
                    Some(StopReason::ContentLength)
                } else {
                    None
                }
            },
            None => {
                if is_chunked_transfer(head) {
                    let mut last_chunk: Vec<u8> = Vec::new();
                    last_chunk.push(0x30);
                    last_chunk.push(0x0d);
                    last_chunk.push(0x0a);
                    last_chunk.push(0x0d);
                    last_chunk.push(0x0a);
                    assert(last_chunk@ =~= chunk_terminator());
                    match find_bytes(self.buffer.as_slice(), last_chunk.as_slice()) {
                        Some(_) => Some(StopReason::LastChunk),
                        None => None,
                    }
                } else {
                    None
                }
            },
        }
    }

    /// Appends `data` to the buffer and brings the header boundary up to
    /// date.
    fn append(&mut self, data: &[u8])
        requires
            old(self).wf(),
        ensures
            final(self).wf(),
            final(self).buffer@ == old(self).buffer@ + data@,
            final(self).attempts == old(self).attempts,
    {
        let old_len = self.buffer.len();
        let ghost before = self.buffer@;
        self.buffer.extend_from_slice(data);
        assert(self.buffer@ =~= before + data@);
        match self.header_end {
            Some(pos) => {
                proof {
                    lemma_find_extended_some(before, data@, header_terminator(), pos as int);
                }
            },
            None => {
                let start = if old_len < 3 {
                    0
                } else {
                    old_len - 3
                };
                proof {
                    lemma_find_extended_none(before, data@, header_terminator(), start as int);
                }
                let mut blank_line: Vec<u8> = Vec::new();
                blank_line.push(0x0d);
                blank_line.push(0x0a);
                blank_line.push(0x0d);
                blank_line.push(0x0a);
                assert(blank_line@ =~= header_terminator());
                self.header_end = find_bytes_from(
                    self.buffer.as_slice(),
                    blank_line.as_slice(),
                    start,
                );
            },
        }
    }

    /// Takes in what a read gave and says what to do next.
    pub fn on_event(&mut self, event: ReadEvent) -> (action: ReadAction)
        requires
            old(self).wf(),
            wants_read(old(self)@),
        ensures
            final(self).wf(),
            match step(old(self)@, event) {
                Step::Continue(s) => action is Continue && final(self)@ == s,
                Step::Wait(s) => action is Wait && final(self)@ == s,
                Step::Done(reason, s) => action == ReadAction::Done(reason) && final(self)@ == s,
                Step::Fail(message) => final(self)@ == old(self)@ && (
                action matches ReadAction::Fail(RequestError::ReadError(text)) && text@ == message),
            },
    {
        match event {
            ReadEvent::Read(data) => {
                if data.len() == 0 {
                    if self.buffer.len() > 0 {
                        ReadAction::Done(StopReason::EndOfStream)
                    } else {
                        self.attempts = self.attempts + 1;
                        ReadAction::Wait
                    }
                } else {
                    self.append(data.as_slice());
                    self.attempts = 0;
                    match self.completion() {
                        Some(reason) => ReadAction::Done(reason),
                        None => {
                            if self.buffer.len() > MAX_SIZE {
                                ReadAction::Done(StopReason::TooLarge)
                            } else {
                                ReadAction::Continue
                            }
                        },
                    }
                }
            },
            ReadEvent::WouldBlock => {
                self.attempts = self.attempts + 1;
                if self.buffer.len() > 0 && self.attempts >= MAX_IDLE_ATTEMPTS {
                    ReadAction::Done(StopReason::Idle)
                } else {
                    ReadAction::Wait
                }
            },
            ReadEvent::Failed(message) => {
                if self.buffer.len() > 0 {
                    ReadAction::Done(StopReason::Interrupted)
                } else {
                    let mut text = String::from_str("Read error: ");
                    text.append(message.as_str());
                    ReadAction::Fail(RequestError::ReadError(text))
                }
            },
        }
    }

    /// Ends the loop: the response, or the error that no response came.
    pub fn finish(self) -> (r: Result<Vec<u8>, RequestError>)
        ensures
            no_response(self@) ==> r == Err::<Vec<u8>, RequestError>(RequestError::NoResponseError),
            !no_response(self@) ==> r is Ok && r->Ok_0@ == self@.buffer,
    {
        if self.attempts >= MAX_ATTEMPTS && self.buffer.len() == 0 {
            Err(RequestError::NoResponseError)
        } else {
            Ok(self.buffer)
        }
    }
}


/// The state of a read loop that has read nothing yet.
pub open spec fn initial_state() -> ReaderState {
    ReaderState { buffer: Seq::empty(), attempts: 0 }
}

/// Where the header block `head` ends with its first blank line, a buffer
/// that begins with `head` has its first blank line there too.
proof fn lemma_header_end_of_prefix(head: Seq<u8>, buffer: Seq<u8>)
    requires
        find(head, header_terminator()) == Some(head.len() - 4),
        head.is_prefix_of(buffer),
    ensures
        find(buffer, header_terminator()) == Some(head.len() - 4),
        buffer.take(head.len() as int) == head,
{
    let more = buffer.skip(head.len() as int);
    assert(buffer =~= head + more);
    lemma_find_extended_some(head, more, header_terminator(), head.len() - 4);
    assert(buffer.take(head.len() as int) =~= head);
}

/// A response with a `Content-Length` that arrives in two reads: for every
/// header block `head` that ends with its first blank line and announces
/// the length of `body`, and every way to split `head + body` into two
/// reads that are not empty and fit the scratch buffer, the reader goes on
/// after the first read and stops after the second, by the content-length
/// rule, with exactly `head + body` in its buffer.
pub proof fn lemma_content_length_in_two_reads(
    head: Seq<u8>,
    body: Seq<u8>,
    first: ReadEvent,
    second: ReadEvent,
)
    requires
        find(head, header_terminator()) == Some(head.len() - 4),
        body.len() <= usize::MAX,
        spec_get_content_length(head) == Some(body.len() as usize),
        first matches ReadEvent::Read(a) && second matches ReadEvent::Read(b) && a@ + b@ == head
            + body && 0 < a@.len() <= READ_BUFFER_SIZE && 0 < b@.len() <= READ_BUFFER_SIZE,
    ensures
        first matches ReadEvent::Read(a) && step(initial_state(), first) == Step::Continue(
            ReaderState { buffer: a@, attempts: 0 },
        ) && step(ReaderState { buffer: a@, attempts: 0 }, second) == Step::Done(
            StopReason::ContentLength,
            ReaderState { buffer: head + body, attempts: 0 },
        ),
{
    let a = first->Read_0@;
    let b = second->Read_0@;
    let whole = head + body;
    let term = header_terminator();
    let end = head.len() - 4;
    assert(term.len() == 4);
    assert(Seq::<u8>::empty() + a =~= a);
    assert(whole.take(head.len() as int) =~= head);
    assert(head.is_prefix_of(whole));
    lemma_header_end_of_prefix(head, whole);
    assert(completion(whole) == Some(StopReason::ContentLength));
    // the first read alone is not a whole response
    assert(a =~= whole.take(a.len() as int));
    lemma_find_from_props(a, term, 0);
    lemma_find_from_props(whole, term, 0);
    match find(a, term) {
        None => {},
        Some(pos) => {
            lemma_occurs_at_extended(a, b, term, pos);
            assert(pos >= end);
            assert(a.take(head.len() as int) =~= head);
            assert(head.is_prefix_of(a));
            lemma_header_end_of_prefix(head, a);
        },
    }
    assert(completion(a) is None);
}


/// A chain of redirects is followed for at most this many hops.
pub const MAX_REDIRECTS: usize = 10;

/// Why a redirect was not followed.
#[derive(Debug, PartialEq, Eq)]
pub enum RedirectError {
    /// The chain of redirects is longer than [`MAX_REDIRECTS`].
    TooManyRedirects,
    /// The new location is no URL that a request can be sent to.
    UrlFormat(&'static str),
}

/// The one-line message of a redirect error.
pub open spec fn redirect_error_message(e: RedirectError) -> Seq<char> {
    match e {
        RedirectError::TooManyRedirects => "Too many redirects"@,
        RedirectError::UrlFormat(m) => m@,
    }
}

impl RedirectError {
    /// The one-line message of this error.
    pub fn message(&self) -> (r: &'static str)
        ensures
            r@ == redirect_error_message(*self),
    {
        match self {
            RedirectError::TooManyRedirects => "Too many redirects",
            RedirectError::UrlFormat(m) => m,
        }
    }
}

/// The request of the next hop of a redirect chain.
pub struct Redirect {
    /// The parameters of the new request: those of the old one with the
    /// new location as URL.
    pub args: Args,
    pub host: String,
    pub port: u16,
    pub secure: bool,
    /// The bytes of the new request.
    pub request: Vec<u8>,
    /// The hops taken, this one included.
    pub redirect_count: usize,
}

/// What to do with a response that has been read.
pub enum AfterResponse {
    /// Interpret the response and hand its body out.
    Process,
    /// Send the request of the next hop.
    Follow(Redirect),
    /// Give up.
    Fail(RedirectError),
}

/// The location that `response` redirects to: there is one where redirects
/// are followed, the status is a redirect code and a `Location` header is
/// there.
pub open spec fn redirect_target(response: Seq<u8>, follow: bool) -> Option<Seq<char>> {
    match spec_parse_status_line(response) {
        Ok(status) => if follow && spec_is_redirect_status(status) {
            spec_get_location(response)
        } else {
            None
        },
        Err(_) => None,
    }
}

/// What following a redirect to `location` comes to, `count` hops having
/// been taken before.
pub enum Hop {
    TooMany,
    Refused(Seq<char>),
    Next { host: Seq<char>, port: u16, secure: bool, request: Seq<u8>, count: nat },
}

/// The hop to `location` for the request of `args`, after `count` hops.
pub open spec fn spec_handle_redirect(location: Seq<char>, args: Args, count: nat) -> Hop {
    if count >= MAX_REDIRECTS {
        Hop::TooMany
    } else {
        match spec_parse(location) {
            Err(message) => Hop::Refused(message),
            Ok((host, port, _, secure)) => match spec_build_for(location, args) {
                Err(message) => Hop::Refused(message),
                Ok(request) => Hop::Next { host, port, secure, request, count: count + 1 },
            },
        }
    }
}

/// Whether `r` is what `hop` names.
pub open spec fn hop_taken(
    r: Result<Redirect, RedirectError>,
    hop: Hop,
    location: Seq<char>,
    args: Args,
) -> bool {
    match r {
        Err(RedirectError::TooManyRedirects) => hop is TooMany,
        Err(RedirectError::UrlFormat(m)) => hop == Hop::Refused(m@),
        Ok(next) => {
            &&& hop == (Hop::Next {
                host: next.host@,
                port: next.port,
                secure: next.secure,
                request: next.request@,
                count: next.redirect_count as nat,
            })
            &&& next.args.url@ == location
            &&& same_but_url(next.args, args)
        },
    }
}

/// Prepares the next hop of a redirect chain: refuses an eleventh hop,
/// takes the new location apart and builds the request for it.
pub fn handle_redirect(location: &str, args: &Args, redirect_count: usize) -> (r: Result<
    Redirect,
    RedirectError,
>)
    ensures
        hop_taken(r, spec_handle_redirect(location@, *args, redirect_count as nat), location@, *args),
{
    if redirect_count >= MAX_REDIRECTS {
        return Err(RedirectError::TooManyRedirects);
    }
    let (host, port, secure) = match parse(location) {
        Ok((host, port, _, secure)) => (host, port, secure),
        Err(message) => {
            return Err(RedirectError::UrlFormat(message));
        },
    };
    let new_args = args.with_url(String::from_str(location));
    let request = match build(&new_args) {
        Ok(bytes) => bytes,
        Err(message) => {
            return Err(RedirectError::UrlFormat(message));
        },
    };
    assert(spec_build_for(location@, new_args) == spec_build_for(location@, *args));
    Ok(Redirect { args: new_args, host, port, secure, request, redirect_count: redirect_count + 1 })
}

/// Whether `r` is the step that follows from the redirect target and the
/// hop to it.
pub open spec fn decided(r: AfterResponse, response: Seq<u8>, args: Args, count: nat) -> bool {
    match redirect_target(response, args.follow_redirects) {
        None => r is Process,
        Some(location) => match r {
            AfterResponse::Process => false,
            AfterResponse::Follow(next) => hop_taken(
                Ok(next),
                spec_handle_redirect(location, args, count),
                location,
                args,
            ),
            AfterResponse::Fail(e) => hop_taken(
                Err(e),
                spec_handle_redirect(location, args, count),
                location,
                args,
            ),
        },
    }
}

/// Decides what to do with a response that has been read: follow its
/// redirect, where there is one to follow, or process it.
pub fn after_response(response: &[u8], args: &Args, redirect_count: usize) -> (r: AfterResponse)
    ensures
        decided(r, response@, *args, redirect_count as nat),
{
    let status = match parse_status_line(response) {
        Ok(status) => status,
        Err(_) => 0,
    };
    if args.follow_redirects && is_redirect_status(status) {
        match get_location(response) {
            Some(location) => {
                return match handle_redirect(location.as_str(), args, redirect_count) {
                    Ok(next) => AfterResponse::Follow(next),
                    Err(e) => AfterResponse::Fail(e),
                };
            },
            None => {},
        }
    }
    AfterResponse::Process
}

/// The limit on redirects: once [`MAX_REDIRECTS`] hops have been taken, a
/// response that redirects again is refused as one redirect too many,
/// whatever its `Location` header holds.
pub proof fn lemma_redirect_limit(r: AfterResponse, response: Seq<u8>, args: Args, count: nat)
    requires
        count >= MAX_REDIRECTS,
        redirect_target(response, args.follow_redirects) is Some,
        decided(r, response, args, count),
    ensures
        r == AfterResponse::Fail(RedirectError::TooManyRedirects),
{
}


/// A peer that sends nothing: while no byte has arrived, every read that
/// gives nothing or would block counts as one attempt and is waited out,
/// and once [`MAX_ATTEMPTS`] are counted the loop reads no more and ends
/// without a response.
pub proof fn lemma_silent_peer(attempts: nat, event: ReadEvent)
    requires
        attempts < MAX_ATTEMPTS,
        event is WouldBlock || (event matches ReadEvent::Read(data) && data@.len() == 0),
    ensures
        wants_read(ReaderState { buffer: Seq::empty(), attempts }),
        step(ReaderState { buffer: Seq::empty(), attempts }, event) == Step::Wait(
            ReaderState { buffer: Seq::empty(), attempts: attempts + 1 },
        ),
        !wants_read(ReaderState { buffer: Seq::empty(), attempts: MAX_ATTEMPTS as nat }),
        no_response(ReaderState { buffer: Seq::empty(), attempts: MAX_ATTEMPTS as nat }),
{
}

} // verus!
