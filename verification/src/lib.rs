//! Core of a client for a rate-limited HTTP+JSON web API.
//!
//! The library turns one prepared HTTP request into a fully decoded, typed
//! value while distinguishing transport failure, HTTP status failure,
//! structured API errors and the dedicated "rate limit exceeded" condition,
//! and while attaching rate-limit accounting metadata to every successful
//! result.
//!
//! The pieces, leaf first:
//! - [`headers`]: the response-header model and the rate-limit header
//!   extraction;
//! - [`text`]: a UTF-8 validity check for response bodies;
//! - [`payload`]: the structured API error payload and its wire grammar;
//! - [`error`]: the outcome taxonomy;
//! - [`response`]: the rate-limit envelope [`response::Response`] with its
//!   map/iterate/merge combinators;
//! - [`raw`]: the raw exchange state machine that drives one request to a
//!   buffered body and classifies the outcome;
//! - [`future`]: the typed request engine composing a raw exchange with a
//!   one-shot decoder.
//!
//! Transport itself (sockets, TLS, an event loop) is not here: the raw
//! exchange is fed transport events by its caller and never blocks.

pub mod error;
pub mod future;
pub mod headers;
pub mod payload;
pub mod raw;
pub mod response;
pub mod text;
