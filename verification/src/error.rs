//! The outcome taxonomy: every way one logical request can end other than
//! with a decoded value.

use vstd::prelude::*;

verus! {

/// One entry of the structured API error payload: an integer code and a
/// message. Code 88 is the reserved "rate limit exceeded" sentinel; every
/// other code is a generic API error.
///
/// The message holds the raw bytes of the JSON string content.
#[derive(Debug)]
pub struct ApiErrorCode {
    pub code: i64,
    pub message: Vec<u8>,
}

/// The reserved error code meaning "rate limit exceeded".
pub const RATE_LIMIT_CODE: i64 = 88;

/// The mathematical shape of an error payload: the codes and message bytes,
/// in payload order.
pub open spec fn abstract_errors(v: Seq<ApiErrorCode>) -> Seq<(int, Seq<u8>)> {
    v.map_values(|e: ApiErrorCode| (e.code as int, e.message@))
}

/// True when some entry of the payload carries the given code.
pub open spec fn has_code(errs: Seq<(int, Seq<u8>)>, code: int) -> bool {
    exists|i: int| 0 <= i < errs.len() && errs[i].0 == code
}

/// Terminal, non-retried outcomes of a single exchange. No outcome is
/// retried or swallowed inside the core; each is forwarded unchanged.
#[derive(Debug)]
pub enum Error {
    /// Connection or I/O failure before a full response was obtained.
    TransportError,
    /// Non-success HTTP status with a body that is not a structured error
    /// payload; carries the raw status code.
    HttpStatus(u16),
    /// The body was not valid UTF-8, or it did not match the shape the
    /// active decoder expected.
    DecodeError,
    /// A structured error payload was present and no rate-limit sentinel
    /// matched; carries the full payload.
    ApiError(Vec<ApiErrorCode>),
    /// The payload carried code 88 and the rate reset header was present;
    /// carries the UTC Unix timestamp at which the rate window resets.
    RateLimited(i32),
    /// A decoder or engine was resolved more than once: programmer misuse,
    /// not a network condition.
    ReuseError,
}

impl ApiErrorCode {
    /// True when this entry equals the given code and message bytes; lets
    /// callers outside the library inspect a payload entry.
    pub fn is_entry(&self, code: i64, message: &[u8]) -> (r: bool)
        ensures
            r == (self.code == code && self.message@ == message@),
    {
        if self.code != code {
            return false;
        }
        if self.message.len() != message.len() {
            return false;
        }
        let mut i: usize = 0;
        while i < message.len()
            invariant
                0 <= i <= message@.len(),
                self.message@.len() == message@.len(),
                forall|j: int| 0 <= j < i ==> self.message@[j] == message@[j],
            decreases message@.len() - i,
        {
            if self.message[i] != message[i] {
                return false;
            }
            i += 1;
        }
        proof {
            assert(self.message@ =~= message@);
        }
        true
    }
}

} // verus!
