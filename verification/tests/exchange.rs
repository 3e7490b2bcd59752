//! The raw exchange state machine, the outcome classification, and the
//! typed request engine with its one-shot decoder.

use egg_mode::error::Error;
use egg_mode::future::{make_future, make_parsed_future, FromBody, MakeResponse, TwitterStep};
use egg_mode::headers::Headers;
use egg_mode::raw::{make_raw_future, RawEvent, RawStep, Request};
use egg_mode::response::Response;

fn request() -> Request {
    let mut headers = Headers::new();
    headers.push(b"Authorization".to_vec(), b"Bearer example-token".to_vec());
    Request {
        method: "GET".to_string(),
        url: "https://api.example.com/1.1/search/tweets.json".to_string(),
        headers,
        body: None,
    }
}

fn headers_with_reset(reset: &str) -> Headers {
    let mut h = Headers::new();
    h.push(b"X-Rate-Limit-Reset".to_vec(), reset.as_bytes().to_vec());
    h
}

/// Drives a fresh raw exchange through send, one response head, the given
/// body as two chunks, and the stream end; returns the final step.
fn run_exchange(status: u16, headers: Headers, body: &[u8]) -> RawStep {
    let mut raw = make_raw_future(request());
    let first = raw.advance(RawEvent::NotReady);
    assert!(matches!(first, RawStep::Send(_)));
    assert!(matches!(raw.advance(RawEvent::NotReady), RawStep::Pending));
    assert!(matches!(
        raw.advance(RawEvent::HeadersArrived(status, headers)),
        RawStep::Pending
    ));
    let mid = body.len() / 2;
    assert!(matches!(
        raw.advance(RawEvent::Chunk(body[..mid].to_vec())),
        RawStep::Pending
    ));
    assert!(matches!(raw.advance(RawEvent::NotReady), RawStep::Pending));
    assert!(matches!(
        raw.advance(RawEvent::Chunk(body[mid..].to_vec())),
        RawStep::Pending
    ));
    raw.advance(RawEvent::StreamEnd)
}

#[test]
fn rate_limit_code_with_reset_header() {
    let body = br#"{"errors":[{"code":88,"message":"x"}]}"#;
    let step = run_exchange(403, headers_with_reset("1500000000"), body);
    match step {
        RawStep::Failed(Error::RateLimited(t)) => assert_eq!(t, 1500000000),
        other => panic!("expected RateLimited, got {:?}", other),
    }
}

#[test]
fn rate_limit_code_without_reset_header() {
    let body = br#"{"errors":[{"code":88,"message":"x"}]}"#;
    let step = run_exchange(403, Headers::new(), body);
    match step {
        RawStep::Failed(Error::ApiError(payload)) => {
            assert_eq!(payload.len(), 1);
            assert!(payload[0].is_entry(88, b"x"));
        }
        other => panic!("expected ApiError, got {:?}", other),
    }
}

#[test]
fn rate_limit_code_with_malformed_reset_counts_as_absent() {
    let body = br#"{"errors":[{"code":88,"message":"x"}]}"#;
    let step = run_exchange(403, headers_with_reset("soon"), body);
    assert!(matches!(step, RawStep::Failed(Error::ApiError(_))));
}

#[test]
fn generic_error_code_any_header_state() {
    let body = br#"{"errors":[{"code":34,"message":"y"}]}"#;
    for headers in [Headers::new(), headers_with_reset("1500000000")] {
        let step = run_exchange(404, headers, body);
        match step {
            RawStep::Failed(Error::ApiError(payload)) => {
                assert_eq!(payload.len(), 1);
                assert!(payload[0].is_entry(34, b"y"));
            }
            other => panic!("expected ApiError, got {:?}", other),
        }
    }
}

#[test]
fn error_payload_beats_status_check() {
    let body = br#"{"errors":[{"code":34,"message":"y"}]}"#;
    let step = run_exchange(200, Headers::new(), body);
    assert!(matches!(step, RawStep::Failed(Error::ApiError(_))));
}

#[test]
fn several_error_entries_in_order() {
    let body = br#" { "errors" : [ {"code":1,"message":"a"} , {"code":2,"message":"b"} ] } "#;
    let step = run_exchange(400, Headers::new(), body);
    match step {
        RawStep::Failed(Error::ApiError(payload)) => {
            assert_eq!(payload.len(), 2);
            assert!(payload[0].is_entry(1, b"a"));
            assert!(payload[1].is_entry(2, b"b"));
        }
        other => panic!("expected ApiError, got {:?}", other),
    }
}

#[test]
fn message_escapes_and_negative_code() {
    let body = br#"{"errors":[{"code":-7,"message":"a\"b\\c"}]}"#;
    let step = run_exchange(400, Headers::new(), body);
    match step {
        RawStep::Failed(Error::ApiError(payload)) => {
            assert!(payload[0].is_entry(-7, b"a\"b\\c"));
        }
        other => panic!("expected ApiError, got {:?}", other),
    }
}

#[test]
fn empty_error_list_is_still_a_payload() {
    let step = run_exchange(200, Headers::new(), br#"{"errors":[]}"#);
    match step {
        RawStep::Failed(Error::ApiError(payload)) => assert!(payload.is_empty()),
        other => panic!("expected ApiError, got {:?}", other),
    }
}

#[test]
fn non_json_body_bad_status() {
    let step = run_exchange(503, Headers::new(), b"service unavailable");
    match step {
        RawStep::Failed(Error::HttpStatus(code)) => assert_eq!(code, 503),
        other => panic!("expected HttpStatus, got {:?}", other),
    }
}

#[test]
fn near_payload_bodies_are_not_payloads() {
    // Shapes that miss the grammar fall through to the status check.
    for body in [
        &br#"{"errors":{"code":88}}"#[..],
        br#"{"error":[{"code":88,"message":"x"}]}"#,
        br#"{"errors":[{"code":88,"message":"x"}]} extra"#,
        br#"{"errors":[{"code":88,"message":"x"},]}"#,
        br#"{"errors":[{"code":9223372036854775808,"message":"x"}]}"#,
        br#"{"errors":[{"message":"x","code":88}]}"#,
    ] {
        let step = run_exchange(500, Headers::new(), body);
        assert!(
            matches!(step, RawStep::Failed(Error::HttpStatus(500))),
            "body {:?} misclassified",
            String::from_utf8_lossy(body)
        );
    }
}

#[test]
fn success_returns_body_and_headers() {
    let mut h = Headers::new();
    h.push(b"X-Rate-Limit-Limit".to_vec(), b"180".to_vec());
    let step = run_exchange(200, h, br#"{"statuses":[]}"#);
    match step {
        RawStep::Ready(body, headers) => {
            assert_eq!(body, br#"{"statuses":[]}"#.to_vec());
            assert_eq!(headers.get(b"x-rate-limit-limit").map(|v| v.clone()), Some(b"180".to_vec()));
        }
        other => panic!("expected Ready, got {:?}", other),
    }
}

#[test]
fn empty_body_with_success_status() {
    // The stream may end before any chunk arrives.
    let mut raw = make_raw_future(request());
    assert!(matches!(raw.advance(RawEvent::NotReady), RawStep::Send(_)));
    raw.advance(RawEvent::HeadersArrived(200, Headers::new()));
    let step = raw.advance(RawEvent::StreamEnd);
    match step {
        RawStep::Ready(body, _) => assert!(body.is_empty()),
        other => panic!("expected Ready, got {:?}", other),
    }
}

#[test]
fn empty_body_with_error_status() {
    let mut raw = make_raw_future(request());
    assert!(matches!(raw.advance(RawEvent::NotReady), RawStep::Send(_)));
    raw.advance(RawEvent::HeadersArrived(404, Headers::new()));
    let step = raw.advance(RawEvent::StreamEnd);
    assert!(matches!(step, RawStep::Failed(Error::HttpStatus(404))));
}

#[test]
fn invalid_utf8_is_a_decode_error() {
    let step = run_exchange(200, Headers::new(), &[0x68, 0x69, 0xff, 0xfe]);
    assert!(matches!(step, RawStep::Failed(Error::DecodeError)));
}

#[test]
fn multibyte_utf8_is_accepted() {
    // Two-, three- and four-byte scalars.
    let body = "héllo \u{2603} \u{1F600}".as_bytes();
    let step = run_exchange(200, Headers::new(), body);
    match step {
        RawStep::Ready(got, _) => assert_eq!(got, body.to_vec()),
        other => panic!("expected Ready, got {:?}", other),
    }
}

#[test]
fn multibyte_scalar_split_across_chunks() {
    // The buffer grows monotonically: a scalar cut in half by the chunk
    // boundary is whole again at stream end.
    let bytes = "é".as_bytes();
    assert_eq!(bytes.len(), 2);
    let mut raw = make_raw_future(request());
    assert!(matches!(raw.advance(RawEvent::NotReady), RawStep::Send(_)));
    raw.advance(RawEvent::HeadersArrived(200, Headers::new()));
    raw.advance(RawEvent::Chunk(vec![bytes[0]]));
    raw.advance(RawEvent::NotReady);
    raw.advance(RawEvent::Chunk(vec![bytes[1]]));
    let step = raw.advance(RawEvent::StreamEnd);
    match step {
        RawStep::Ready(body, _) => assert_eq!(body, bytes.to_vec()),
        other => panic!("expected Ready, got {:?}", other),
    }
}

#[test]
fn truncated_utf8_is_a_decode_error() {
    // A three-byte leading byte with only one continuation byte.
    let step = run_exchange(200, Headers::new(), &[0xe2, 0x98]);
    assert!(matches!(step, RawStep::Failed(Error::DecodeError)));
}

#[test]
fn transport_failure_before_send() {
    let mut raw = make_raw_future(request());
    let step = raw.advance(RawEvent::TransportFailed);
    assert!(matches!(step, RawStep::Failed(Error::TransportError)));
}

#[test]
fn transport_failure_while_streaming() {
    let mut raw = make_raw_future(request());
    assert!(matches!(raw.advance(RawEvent::NotReady), RawStep::Send(_)));
    raw.advance(RawEvent::HeadersArrived(200, Headers::new()));
    raw.advance(RawEvent::Chunk(b"partial".to_vec()));
    let step = raw.advance(RawEvent::TransportFailed);
    assert!(matches!(step, RawStep::Failed(Error::TransportError)));
}

/// A decoder for the typed engine tests: keeps the body verbatim.
struct EchoBody(Vec<u8>);

impl FromBody for EchoBody {
    fn from_body(body: &[u8]) -> Result<Self, Error> {
        Ok(EchoBody(body.to_vec()))
    }
}

/// A decoder that always refuses, to see the engine forward its error.
struct NoBody;

impl FromBody for NoBody {
    fn from_body(_body: &[u8]) -> Result<Self, Error> {
        Err(Error::DecodeError)
    }
}

fn drive<T, D: MakeResponse<T>>(
    engine: &mut egg_mode::future::TwitterFuture<T, D>,
    status: u16,
    headers: Headers,
    body: &[u8],
) -> TwitterStep<T> {
    assert!(matches!(engine.advance(RawEvent::NotReady), TwitterStep::Send(_)));
    assert!(matches!(
        engine.advance(RawEvent::HeadersArrived(status, headers)),
        TwitterStep::Pending
    ));
    assert!(matches!(
        engine.advance(RawEvent::Chunk(body.to_vec())),
        TwitterStep::Pending
    ));
    engine.advance(RawEvent::StreamEnd)
}

#[test]
fn success_envelope_snapshot_matches_headers() {
    let mut h = Headers::new();
    h.push(b"X-Rate-Limit-Limit".to_vec(), b"180".to_vec());
    h.push(b"X-Rate-Limit-Remaining".to_vec(), b"179".to_vec());
    h.push(b"X-Rate-Limit-Reset".to_vec(), b"1500000000".to_vec());
    let mut engine = make_parsed_future::<EchoBody>(request());
    let step = drive(&mut engine, 200, h, br#"{"ok":true}"#);
    match step {
        TwitterStep::Done(Ok(resp)) => {
            assert_eq!(resp.rate_limit, 180);
            assert_eq!(resp.rate_limit_remaining, 179);
            assert_eq!(resp.rate_limit_reset, 1500000000);
            assert_eq!(resp.response.0, br#"{"ok":true}"#.to_vec());
        }
        other => panic!("expected Done(Ok(..)), got {:?}", step_name(&other)),
    }
}

#[test]
fn engine_forwards_decoder_refusal() {
    let mut engine = make_parsed_future::<NoBody>(request());
    let step = drive(&mut engine, 200, Headers::new(), b"{}");
    assert!(matches!(step, TwitterStep::Done(Err(Error::DecodeError))));
}

#[test]
fn engine_forwards_exchange_failure_without_decoding() {
    let mut engine = make_parsed_future::<EchoBody>(request());
    let step = drive(&mut engine, 503, Headers::new(), b"oops");
    assert!(matches!(step, TwitterStep::Done(Err(Error::HttpStatus(503)))));
}

#[test]
fn resolving_twice_is_a_reuse_error() {
    let mut engine = make_parsed_future::<EchoBody>(request());
    let step = drive(&mut engine, 200, Headers::new(), b"{}");
    assert!(matches!(step, TwitterStep::Done(Ok(_))));
    // A resolved engine answers ReuseError, deterministically, every time.
    for _ in 0..3 {
        let again = engine.advance(RawEvent::NotReady);
        assert!(matches!(again, TwitterStep::Done(Err(Error::ReuseError))));
    }
}

#[test]
fn resolving_twice_after_failure_is_a_reuse_error() {
    let mut engine = make_parsed_future::<EchoBody>(request());
    let step = drive(&mut engine, 500, Headers::new(), b"boom");
    assert!(matches!(step, TwitterStep::Done(Err(Error::HttpStatus(500)))));
    let again = engine.advance(RawEvent::NotReady);
    assert!(matches!(again, TwitterStep::Done(Err(Error::ReuseError))));
}

/// A closure-flavoured decoder through the `MakeResponse` trait itself.
struct Uppercase;

impl MakeResponse<String> for Uppercase {
    fn make_response(self, raw: Vec<u8>, _headers: &Headers) -> Result<String, Error> {
        String::from_utf8(raw).map(|s| s.to_uppercase()).map_err(|_| Error::DecodeError)
    }
}

#[test]
fn custom_decoder_through_make_future() {
    let mut engine = make_future(request(), Uppercase);
    let step = drive(&mut engine, 200, Headers::new(), b"ok then");
    match step {
        TwitterStep::Done(Ok(s)) => assert_eq!(s, "OK THEN"),
        other => panic!("expected Done(Ok(..)), got {:?}", step_name(&other)),
    }
}

#[test]
fn make_response_attaches_snapshot() {
    let mut h = Headers::new();
    h.push(b"X-Rate-Limit-Remaining".to_vec(), b"3".to_vec());
    let r: Result<Response<EchoBody>, Error> =
        egg_mode::future::make_response(b"body".to_vec(), &h);
    let resp = r.ok().unwrap();
    assert_eq!(resp.rate_limit, -1);
    assert_eq!(resp.rate_limit_remaining, 3);
    assert_eq!(resp.rate_limit_reset, -1);
    assert_eq!(resp.response.0, b"body".to_vec());
}

fn step_name<T>(step: &TwitterStep<T>) -> &'static str {
    match step {
        TwitterStep::Send(_) => "Send",
        TwitterStep::Pending => "Pending",
        TwitterStep::Done(Ok(_)) => "Done(Ok)",
        TwitterStep::Done(Err(_)) => "Done(Err)",
    }
}
