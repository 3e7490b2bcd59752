//! The typed request engine: one raw exchange composed with one one-shot
//! decoder, resolving to a single typed outcome.
//!
//! Each resumption first advances the raw exchange; while the transport
//! is not ready, the engine is not ready either. When the exchange
//! completes cleanly, the decoder is invoked synchronously, exactly once,
//! with the final body and the captured headers, and its result becomes
//! the engine's terminal value. A failed exchange is forwarded as it is,
//! without invoking the decoder. Resolving an engine a second time is
//! misuse and answers [`Error::ReuseError`], deterministically, every
//! time.

use vstd::prelude::*;
use core::marker::PhantomData;
use crate::error::Error;
use crate::headers::{extracted_snapshot, rate_headers, Headers};
use crate::raw::{classify, make_raw_future, Classification, RawEvent, RawFuture, RawState, Request, RawStep};
use crate::response::Response;

verus! {

/// A one-shot decoder: turns the final body text and the response headers
/// into a typed value, or fails decoding. Consuming `self` makes the
/// single use a matter of ownership.
///
/// Implementations live with each result type; the engine only requires
/// that one exists.
pub trait MakeResponse<T>: Sized {
    /// Decodes the buffered body — valid UTF-8, as the raw exchange
    /// guarantees — with the headers of the response it came from.
    fn make_response(self, raw: Vec<u8>, headers: &Headers) -> Result<T, Error>;
}

/// A typed value parsed from a response body alone; the standard decoder
/// wires this into the engine and attaches the rate-limit snapshot.
pub trait FromBody: Sized {
    /// Parses the body text, or fails decoding.
    fn from_body(body: &[u8]) -> Result<Self, Error>;
}

/// What one resumption of the typed engine reports back.
#[derive(Debug)]
pub enum TwitterStep<T> {
    /// The caller must now send this request on the transport.
    Send(Request),
    /// Not done yet; resume again with the next event.
    Pending,
    /// The terminal value: the decoded result, or one error of the
    /// taxonomy.
    Done(Result<T, Error>),
}

/// The typed request engine: a raw exchange and a decoder, consumed on
/// first use. Pending until the exchange ends; resolved exactly once.
pub struct TwitterFuture<T, D: MakeResponse<T>> {
    request: RawFuture,
    make_resp: Option<D>,
    _payload: PhantomData<T>,
}

impl<T, D: MakeResponse<T>> TwitterFuture<T, D> {
    /// The raw exchange inside.
    pub closed spec fn raw(self) -> RawFuture {
        self.request
    }

    /// True once the engine has delivered its terminal value; any further
    /// resumption is misuse.
    pub open spec fn resolved(self) -> bool {
        self.raw().is_terminal()
    }

    /// Structural soundness: the exchange is sound, and the decoder is
    /// still held as long as it may yet be needed.
    pub closed spec fn wf(self) -> bool {
        &&& self.request.wf()
        &&& (!self.request.is_terminal() ==> self.make_resp is Some)
    }

    /// One non-blocking resumption of the whole engine.
    ///
    /// A resolved engine answers `ReuseError` and changes nothing. An
    /// unresolved one advances the raw exchange with the given event;
    /// failure is forwarded without decoding, and on clean completion the
    /// decoder runs exactly once, synchronously, on the final body and
    /// headers.
    pub fn advance(&mut self, event: RawEvent) -> (r: TwitterStep<T>)
        requires
            old(self).wf(),
            old(self).resolved() || old(self).raw().accepts(event),
        ensures
            final(self).wf(),
            old(self).resolved() ==> ({
                &&& r matches TwitterStep::Done(res) && res matches Err(e) && e
                    == Error::ReuseError
                &&& *final(self) == *old(self)
            }),
            !old(self).resolved() ==> match event {
                RawEvent::NotReady => {
                    if old(self).raw().state() == RawState::Unsent {
                        &&& r matches TwitterStep::Send(req) && old(self).raw().request() == Some(
                            req,
                        )
                        &&& final(self).raw().state() == RawState::Sending
                        &&& !final(self).resolved()
                    } else {
                        r is Pending && *final(self) == *old(self)
                    }
                },
                RawEvent::TransportFailed => {
                    &&& r matches TwitterStep::Done(res) && res matches Err(e) && e
                        == Error::TransportError
                    &&& final(self).resolved()
                },
                RawEvent::HeadersArrived(st, hd) => {
                    &&& r is Pending
                    &&& final(self).raw().state() == RawState::HeadersReceived
                    &&& final(self).raw().status() == st
                    &&& final(self).raw().headers() == hd@
                    &&& final(self).raw().body() == old(self).raw().body()
                    &&& !final(self).resolved()
                },
                RawEvent::Chunk(c) => {
                    &&& r is Pending
                    &&& final(self).raw().status() == old(self).raw().status()
                    &&& final(self).raw().headers() == old(self).raw().headers()
                    &&& final(self).raw().body() == old(self).raw().body() + c@
                    &&& !final(self).resolved()
                },
                RawEvent::StreamEnd => {
                    &&& final(self).resolved()
                    &&& (final(self).raw().state() == RawState::Complete <==> classify(
                        old(self).raw().status(),
                        old(self).raw().headers(),
                        old(self).raw().body(),
                    ) is Plain)
                    &&& match classify(
                        old(self).raw().status(),
                        old(self).raw().headers(),
                        old(self).raw().body(),
                    ) {
                        Classification::NotText => r matches TwitterStep::Done(res) && res
                            matches Err(e) && e == Error::DecodeError,
                        Classification::Limited(t) => r matches TwitterStep::Done(res) && res
                            matches Err(e) && e == Error::RateLimited(t),
                        Classification::Errors(es) => r matches TwitterStep::Done(res) && res
                            matches Err(e) && e matches Error::ApiError(v)
                            && crate::error::abstract_errors(v@) == es,
                        Classification::Status(st) => r matches TwitterStep::Done(res) && res
                            matches Err(e) && e == Error::HttpStatus(st),
                        Classification::Plain(b) => r is Done,
                    }
                },
            },
    {
        if self.request.terminal() {
            return TwitterStep::Done(Err(Error::ReuseError));
        }
        match self.request.advance(event) {
            RawStep::Send(req) => TwitterStep::Send(req),
            RawStep::Pending => TwitterStep::Pending,
            RawStep::Failed(e) => TwitterStep::Done(Err(e)),
            RawStep::Ready(body, hs) => match self.make_resp.take() {
                Some(d) => TwitterStep::Done(d.make_response(body, &hs)),
                None => {
                    // wf rules this out: an unresolved engine still holds
                    // its decoder.
                    proof {
                        assert(false);
                    }
                    TwitterStep::Done(Err(Error::ReuseError))
                },
            },
        }
    }
}

/// Creates a typed request engine that will resolve the given request and
/// process the successful body through the given decoder.
pub fn make_future<T, D: MakeResponse<T>>(request: Request, make_resp: D) -> (r: TwitterFuture<
    T,
    D,
>)
    ensures
        r.wf(),
        !r.resolved(),
        r.raw().state() == RawState::Unsent,
        r.raw().request() == Some(request),
{
    TwitterFuture { request: make_raw_future(request), make_resp: Some(make_resp), _payload: PhantomData }
}

/// The standard decoding step: parses the body into the given type and
/// wraps it with the rate-limit snapshot extracted from the headers, so
/// a successful result always carries its quota accounting without a
/// second call.
///
/// Whether parsing succeeds is the parser's own affair; whenever it does,
/// the envelope's snapshot is exactly the header extraction, and the
/// parser's value is the payload.
pub fn make_response<T: FromBody>(full_resp: Vec<u8>, headers: &Headers) -> (r: Result<
    Response<T>,
    Error,
>)
    ensures
        r matches Ok(resp) ==> resp.snapshot() == extracted_snapshot(headers@),
{
    match T::from_body(full_resp.as_slice()) {
        Ok(out) => {
            let rh = rate_headers(headers);
            Ok(Response {
                rate_limit: rh.rate_limit,
                rate_limit_remaining: rh.rate_limit_remaining,
                rate_limit_reset: rh.rate_limit_reset,
                response: out,
            })
        },
        Err(e) => Err(e),
    }
}

/// The standard decoder as a value: decodes through [`FromBody`] and
/// attaches the rate-limit snapshot via [`make_response`].
pub struct ParsedResponse<T: FromBody> {
    _payload: PhantomData<T>,
}

impl<T: FromBody> MakeResponse<Response<T>> for ParsedResponse<T> {
    fn make_response(self, raw: Vec<u8>, headers: &Headers) -> Result<Response<T>, Error> {
        make_response::<T>(raw, headers)
    }
}

/// Creates a typed request engine that parses the given type out of the
/// response body, with the rate-limit snapshot attached.
pub fn make_parsed_future<T: FromBody>(request: Request) -> (r: TwitterFuture<
    Response<T>,
    ParsedResponse<T>,
>)
    ensures
        r.wf(),
        !r.resolved(),
        r.raw().state() == RawState::Unsent,
        r.raw().request() == Some(request),
{
    make_future(request, ParsedResponse { _payload: PhantomData })
}

} // verus!
