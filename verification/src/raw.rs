//! The raw exchange: a per-request state machine that drives one HTTP
//! request to a fully buffered body and classifies the outcome.
//!
//! The machine performs no I/O itself. Its caller owns the transport and
//! feeds it one event per resumption: nothing yet, the response head, a
//! body chunk, the end of the stream, or a transport failure. Each
//! resumption is non-blocking — an unready resumption changes nothing and
//! never discards body bytes already gathered. The states move strictly
//! forward, a terminal state is reached exactly once, and a finished
//! machine is discarded, never resumed again.
//!
//! At stream end the machine classifies, in priority order: a body that is
//! not UTF-8 text fails decoding; a structured error payload carrying the
//! rate-limit code together with a well-formed rate reset header means
//! rate limited; any other structured error payload is an API error; a
//! non-success status is a status failure; otherwise the buffered text is
//! handed over for decoding.

use vstd::prelude::*;
use crate::error::{abstract_errors, has_code, ApiErrorCode, Error, RATE_LIMIT_CODE};
use crate::headers::{header_value, parsed_i32, reset_name, Header, Headers};
use crate::payload::{error_payload, parse_error_payload};
use crate::text::is_valid_utf8;
use vstd::utf8::valid_utf8;

verus! {

/// The HTTP status the API answers on success.
pub const SUCCESS_STATUS: u16 = 200;

/// A prepared HTTP request: method, target URL, headers — a signature
/// among them, when one is needed — and an optional body. An outside
/// collaborator assembles and signs it; the exchange only carries it to
/// the transport, exactly once.
#[derive(Debug)]
pub struct Request {
    pub method: String,
    pub url: String,
    pub headers: Headers,
    pub body: Option<Vec<u8>>,
}

/// The states of a raw exchange, strictly forward-progressing.
#[derive(Debug, Clone, Copy, PartialEq, Eq, Structural)]
pub enum RawState {
    /// The request is held and not yet handed to the transport.
    Unsent,
    /// The request is on the wire; no response head yet.
    Sending,
    /// Status and headers have just been captured, verbatim; no body
    /// chunk has arrived yet.
    HeadersReceived,
    /// Body chunks are arriving and being appended to the buffer.
    Streaming,
    /// Success terminal: the body was buffered and classified clean.
    Complete,
    /// Error terminal.
    Failed,
}

/// One transport event, fed into a resumption.
#[derive(Debug)]
pub enum RawEvent {
    /// The transport has nothing yet.
    NotReady,
    /// The response head arrived: status and headers, captured verbatim.
    HeadersArrived(u16, Headers),
    /// One body chunk arrived.
    Chunk(Vec<u8>),
    /// The body stream ended; the exchange classifies now.
    StreamEnd,
    /// The transport failed; the exchange ends now.
    TransportFailed,
}

/// What one resumption reports back.
#[derive(Debug)]
pub enum RawStep {
    /// The caller must now send this request on the transport.
    Send(Request),
    /// Not done yet; resume again with the next event.
    Pending,
    /// Success terminal: the UTF-8 body bytes and the captured headers.
    Ready(Vec<u8>, Headers),
    /// Error terminal.
    Failed(Error),
}

/// The rate reset header's value, when present and well formed; a
/// malformed value counts as absent.
pub open spec fn parsed_reset(hs: Seq<Header>) -> Option<i32> {
    match header_value(hs, reset_name()) {
        Some(v) => parsed_i32(v),
        None => None,
    }
}

/// A classified outcome of a finished stream.
pub enum Classification {
    /// The body is not valid UTF-8.
    NotText,
    /// The body is an error payload with the rate-limit code, and the
    /// reset header is present: the reset timestamp.
    Limited(i32),
    /// The body is an error payload without a rate-limit match.
    Errors(Seq<(int, Seq<u8>)>),
    /// No error payload, but a non-success status.
    Status(u16),
    /// Success: the body text bytes.
    Plain(Seq<u8>),
}

/// The final classification, in priority order: UTF-8 validity first,
/// then the structured error payload — the rate-limit code together with
/// a present reset header taking precedence over a generic API error —
/// then the HTTP status, and success last.
pub open spec fn classify(status: u16, hs: Seq<Header>, body: Seq<u8>) -> Classification {
    if !valid_utf8(body) {
        Classification::NotText
    } else {
        match error_payload(body) {
            Some(es) => if has_code(es, RATE_LIMIT_CODE as int) {
                match parsed_reset(hs) {
                    Some(reset) => Classification::Limited(reset),
                    None => Classification::Errors(es),
                }
            } else {
                Classification::Errors(es)
            },
            None => if status != SUCCESS_STATUS {
                Classification::Status(status)
            } else {
                Classification::Plain(body)
            },
        }
    }
}

/// The raw exchange machine. Owns its request until sent, then the
/// captured response head and the growing body buffer; nothing here is
/// shared with any other exchange.
#[derive(Debug)]
pub struct RawFuture {
    state: RawState,
    request: Option<Request>,
    status: u16,
    resp_headers: Option<Headers>,
    body: Vec<u8>,
}

impl RawFuture {
    /// The current state.
    pub closed spec fn state(self) -> RawState {
        self.state
    }

    /// The request still held, before sending.
    pub closed spec fn request(self) -> Option<Request> {
        self.request
    }

    /// The captured status code.
    pub closed spec fn status(self) -> u16 {
        self.status
    }

    /// The captured response headers.
    pub closed spec fn headers(self) -> Seq<Header> {
        match self.resp_headers {
            Some(h) => h@,
            None => Seq::empty(),
        }
    }

    /// The body bytes gathered so far.
    pub closed spec fn body(self) -> Seq<u8> {
        self.body@
    }

    /// True in the two terminal states; a terminal exchange is discarded
    /// and never resumed.
    pub open spec fn is_terminal(self) -> bool {
        self.state() == RawState::Complete || self.state() == RawState::Failed
    }

    /// Structural soundness: the request is held exactly until sent, and
    /// a streaming exchange has its response head captured.
    pub closed spec fn wf(self) -> bool {
        &&& (self.state == RawState::Unsent ==> self.request is Some && self.resp_headers
            is None && self.body@.len() == 0)
        &&& (self.state == RawState::Sending ==> self.request is None && self.resp_headers
            is None && self.body@.len() == 0)
        &&& (self.state == RawState::HeadersReceived ==> self.request is None
            && self.resp_headers is Some)
        &&& (self.state == RawState::Streaming ==> self.request is None && self.resp_headers
            is Some)
    }

    /// Which events a state accepts: a resumption may always find the
    /// transport unready or failed; the response head can only arrive
    /// while sending; chunks and the stream end only once the head has
    /// arrived. A terminal exchange accepts nothing.
    pub open spec fn accepts(self, event: RawEvent) -> bool {
        match self.state() {
            RawState::Unsent => event is NotReady || event is TransportFailed,
            RawState::Sending => event is NotReady || event is HeadersArrived || event
                is TransportFailed,
            RawState::HeadersReceived => event is NotReady || event is Chunk || event
                is StreamEnd || event is TransportFailed,
            RawState::Streaming => event is NotReady || event is Chunk || event is StreamEnd
                || event is TransportFailed,
            RawState::Complete => false,
            RawState::Failed => false,
        }
    }

    /// Tests for a terminal state.
    pub fn terminal(&self) -> (b: bool)
        ensures
            b == self.is_terminal(),
    {
        match self.state {
            RawState::Complete => true,
            RawState::Failed => true,
            _ => false,
        }
    }

    /// One non-blocking resumption. Feeds one transport event through the
    /// machine and reports what the caller must do next.
    ///
    /// The contract walks every transition of the machine: the held
    /// request is handed out exactly once; an unready resumption changes
    /// nothing; the response head is captured verbatim; each chunk is
    /// appended to the body, which only ever grows; a transport failure
    /// ends the exchange at once; and the stream end runs the final
    /// classification exactly once.
    pub fn advance(&mut self, event: RawEvent) -> (r: RawStep)
        requires
            old(self).wf(),
            old(self).accepts(event),
        ensures
            final(self).wf(),
            match event {
                RawEvent::NotReady => {
                    if old(self).state() == RawState::Unsent {
                        &&& r matches RawStep::Send(req) && old(self).request() == Some(req)
                        &&& final(self).state() == RawState::Sending
                        &&& final(self).body() == old(self).body()
                    } else {
                        r is Pending && *final(self) == *old(self)
                    }
                },
                RawEvent::TransportFailed => {
                    &&& r matches RawStep::Failed(e) && e == Error::TransportError
                    &&& final(self).state() == RawState::Failed
                },
                RawEvent::HeadersArrived(st, hd) => {
                    &&& r is Pending
                    &&& final(self).state() == RawState::HeadersReceived
                    &&& final(self).status() == st
                    &&& final(self).headers() == hd@
                    &&& final(self).body() == old(self).body()
                },
                RawEvent::Chunk(c) => {
                    &&& r is Pending
                    &&& final(self).state() == RawState::Streaming
                    &&& final(self).status() == old(self).status()
                    &&& final(self).headers() == old(self).headers()
                    &&& final(self).body() == old(self).body() + c@
                },
                RawEvent::StreamEnd => {
                    match classify(old(self).status(), old(self).headers(), old(self).body()) {
                        Classification::NotText => {
                            &&& r matches RawStep::Failed(e) && e == Error::DecodeError
                            &&& final(self).state() == RawState::Failed
                        },
                        Classification::Limited(t) => {
                            &&& r matches RawStep::Failed(e) && e == Error::RateLimited(t)
                            &&& final(self).state() == RawState::Failed
                        },
                        Classification::Errors(es) => {
                            &&& r matches RawStep::Failed(e) && e matches Error::ApiError(v)
                                && abstract_errors(v@) == es
                            &&& final(self).state() == RawState::Failed
                        },
                        Classification::Status(st) => {
                            &&& r matches RawStep::Failed(e) && e == Error::HttpStatus(st)
                            &&& final(self).state() == RawState::Failed
                        },
                        Classification::Plain(b) => {
                            &&& r matches RawStep::Ready(body, hs) && body@ == b && hs@ == old(
                                self,
                            ).headers()
                            &&& final(self).state() == RawState::Complete
                        },
                    }
                },
            },
    {
        match event {
            RawEvent::NotReady => {
                if self.state == RawState::Unsent {
                    let req = self.request.take();
                    self.state = RawState::Sending;
                    match req {
                        Some(q) => RawStep::Send(q),
                        None => {
                            // wf rules this out: an unsent exchange holds
                            // its request.
                            proof {
                                assert(false);
                            }
                            RawStep::Pending
                        },
                    }
                } else {
                    RawStep::Pending
                }
            },
            RawEvent::TransportFailed => {
                self.state = RawState::Failed;
                RawStep::Failed(Error::TransportError)
            },
            RawEvent::HeadersArrived(st, hd) => {
                self.status = st;
                self.resp_headers = Some(hd);
                self.state = RawState::HeadersReceived;
                RawStep::Pending
            },
            RawEvent::Chunk(c) => {
                let mut chunk = c;
                self.body.append(&mut chunk);
                self.state = RawState::Streaming;
                RawStep::Pending
            },
            RawEvent::StreamEnd => self.finish(),
        }
    }

    /// The final classification, run exactly once, at stream end.
    fn finish(&mut self) -> (r: RawStep)
        requires
            old(self).wf(),
            old(self).state() == RawState::HeadersReceived || old(self).state()
                == RawState::Streaming,
        ensures
            final(self).wf(),
            match classify(old(self).status(), old(self).headers(), old(self).body()) {
                Classification::NotText => {
                    &&& r matches RawStep::Failed(e) && e == Error::DecodeError
                    &&& final(self).state() == RawState::Failed
                },
                Classification::Limited(t) => {
                    &&& r matches RawStep::Failed(e) && e == Error::RateLimited(t)
                    &&& final(self).state() == RawState::Failed
                },
                Classification::Errors(es) => {
                    &&& r matches RawStep::Failed(e) && e matches Error::ApiError(v)
                        && abstract_errors(v@) == es
                    &&& final(self).state() == RawState::Failed
                },
                Classification::Status(st) => {
                    &&& r matches RawStep::Failed(e) && e == Error::HttpStatus(st)
                    &&& final(self).state() == RawState::Failed
                },
                Classification::Plain(b) => {
                    &&& r matches RawStep::Ready(body, hs) && body@ == b && hs@ == old(
                        self,
                    ).headers()
                    &&& final(self).state() == RawState::Complete
                },
            },
    {
        if !is_valid_utf8(self.body.as_slice()) {
            self.state = RawState::Failed;
            return RawStep::Failed(Error::DecodeError);
        }
        match parse_error_payload(self.body.as_slice()) {
            Some(errs) => {
                let limited = contains_code(&errs, RATE_LIMIT_CODE);
                if limited {
                    let reset: Option<i32> = match &self.resp_headers {
                        Some(h) => match h.get("X-Rate-Limit-Reset".as_bytes()) {
                            Some(v) => crate::headers::parse_i32(v.as_slice()),
                            None => None,
                        },
                        None => None,
                    };
                    match reset {
                        Some(t) => {
                            self.state = RawState::Failed;
                            RawStep::Failed(Error::RateLimited(t))
                        },
                        None => {
                            self.state = RawState::Failed;
                            RawStep::Failed(Error::ApiError(errs))
                        },
                    }
                } else {
                    self.state = RawState::Failed;
                    RawStep::Failed(Error::ApiError(errs))
                }
            },
            None => {
                if self.status != SUCCESS_STATUS {
                    self.state = RawState::Failed;
                    RawStep::Failed(Error::HttpStatus(self.status))
                } else {
                    let mut body: Vec<u8> = Vec::new();
                    core::mem::swap(&mut body, &mut self.body);
                    let hs = match self.resp_headers.take() {
                        Some(h) => h,
                        None => {
                            // wf rules this out: a streaming exchange has
                            // its headers captured.
                            proof {
                                assert(false);
                            }
                            Headers::new()
                        },
                    };
                    self.state = RawState::Complete;
                    RawStep::Ready(body, hs)
                }
            },
        }
    }
}

/// Looks for an entry with the given code in a parsed error payload.
fn contains_code(v: &Vec<ApiErrorCode>, code: i64) -> (r: bool)
    ensures
        r == has_code(abstract_errors(v@), code as int),
{
    let n = v.len();
    let mut i: usize = 0;
    while i < n
        invariant
            0 <= i <= n == v@.len(),
            forall|k: int| 0 <= k < i ==> v@[k].code != code,
        decreases n - i,
    {
        if v[i].code == code {
            proof {
                assert(abstract_errors(v@)[i as int].0 == code as int);
            }
            return true;
        }
        i += 1;
    }
    proof {
        assert(forall|k: int|
            0 <= k < abstract_errors(v@).len() ==> abstract_errors(v@)[k].0 != code as int);
    }
    false
}

/// Creates a raw exchange holding the given request, in the unsent state,
/// with an empty body buffer.
pub fn make_raw_future(request: Request) -> (r: RawFuture)
    ensures
        r.wf(),
        r.state() == RawState::Unsent,
        r.request() == Some(request),
        r.body() == Seq::<u8>::empty(),
{
    RawFuture {
        state: RawState::Unsent,
        request: Some(request),
        status: 0,
        resp_headers: None,
        body: Vec::new(),
    }
}

} // verus!
