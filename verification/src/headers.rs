//! The response-header model and the rate-limit header extraction.
//!
//! Headers are held as ordered name/value pairs of raw bytes. The three
//! rate-limit headers are integer-valued; a header that is absent, or whose
//! value does not parse as an integer fitting `i32`, degrades to the
//! sentinel `-1` instead of failing.

use vstd::prelude::*;
use vstd::string::StringSliceAdditionalSpecFns;
use crate::response::Response;

verus! {

/// One response header: a name and a raw value.
#[derive(Debug)]
pub struct Header {
    pub name: Vec<u8>,
    pub value: Vec<u8>,
}

/// An ordered collection of response headers.
#[derive(Debug)]
pub struct Headers {
    pub fields: Vec<Header>,
}

impl View for Headers {
    type V = Seq<Header>;

    open spec fn view(&self) -> Seq<Header> {
        self.fields@
    }
}

/// The given byte with an ASCII capital letter folded to its small form;
/// any other byte is left as it is.
pub open spec fn ascii_lower(b: u8) -> u8 {
    if 65 <= b <= 90 {
        (b + 32) as u8
    } else {
        b
    }
}

/// True when two header names are equal up to ASCII case, as HTTP header
/// names are compared.
pub open spec fn name_matches(a: Seq<u8>, b: Seq<u8>) -> bool {
    a.len() == b.len() && (forall|i: int|
        0 <= i < a.len() ==> ascii_lower(a[i]) == ascii_lower(b[i]))
}

/// The value of the first header whose name matches the given name up to
/// ASCII case, or `None` when no header does.
pub open spec fn header_value(hs: Seq<Header>, name: Seq<u8>) -> Option<Seq<u8>>
    decreases hs.len(),
{
    if hs.len() == 0 {
        None
    } else if name_matches(hs[0].name@, name) {
        Some(hs[0].value@)
    } else {
        header_value(hs.drop_first(), name)
    }
}

/// True when the byte is an ASCII decimal digit.
pub open spec fn is_digit(b: u8) -> bool {
    48 <= b <= 57
}

/// The number denoted by a run of ASCII decimal digits.
pub open spec fn digits_value(s: Seq<u8>) -> int
    decreases s.len(),
{
    if s.len() == 0 {
        0
    } else {
        digits_value(s.drop_last()) * 10 + (s.last() - 48)
    }
}

/// True when the bytes are one or more ASCII decimal digits.
pub open spec fn all_digits(s: Seq<u8>) -> bool {
    s.len() > 0 && (forall|i: int| 0 <= i < s.len() ==> is_digit(s[i]))
}

/// The integer a byte string denotes: an optional ASCII `+` or `-` sign
/// followed by one or more decimal digits, as Rust's integer parsing
/// accepts it. Anything else denotes no integer.
pub open spec fn parsed_int(s: Seq<u8>) -> Option<int> {
    if s.len() >= 1 && (s[0] == 43 || s[0] == 45) && all_digits(s.drop_first()) {
        if s[0] == 45 {
            Some(-digits_value(s.drop_first()))
        } else {
            Some(digits_value(s.drop_first()))
        }
    } else if all_digits(s) {
        Some(digits_value(s))
    } else {
        None
    }
}

/// The integer a byte string denotes, when that integer fits `i32`.
pub open spec fn parsed_i32(s: Seq<u8>) -> Option<i32> {
    match parsed_int(s) {
        Some(v) => if -0x8000_0000 <= v <= 0x7fff_ffff {
            Some(v as i32)
        } else {
            None
        },
        None => None,
    }
}

/// The rate-limit field extracted for one header name: the parsed integer
/// when the header is present with an integer value, the sentinel `-1`
/// otherwise. Extraction never fails.
pub open spec fn extracted(hs: Seq<Header>, name: Seq<u8>) -> i32 {
    match header_value(hs, name) {
        Some(v) => match parsed_i32(v) {
            Some(x) => x,
            None => -1i32,
        },
        None => -1i32,
    }
}

/// The name of the header carrying the rate ceiling.
pub open spec fn limit_name() -> Seq<u8> {
    "X-Rate-Limit-Limit".spec_bytes()
}

/// The name of the header carrying the requests remaining in the window.
pub open spec fn remaining_name() -> Seq<u8> {
    "X-Rate-Limit-Remaining".spec_bytes()
}

/// The name of the header carrying the UTC Unix timestamp at which the
/// rate window resets.
pub open spec fn reset_name() -> Seq<u8> {
    "X-Rate-Limit-Reset".spec_bytes()
}

/// The rate-limit snapshot a header collection reports: one extracted
/// field per rate-limit header, each degrading to `-1` when absent or
/// malformed.
pub open spec fn extracted_snapshot(hs: Seq<Header>) -> (i32, i32, i32) {
    (extracted(hs, limit_name()), extracted(hs, remaining_name()), extracted(hs, reset_name()))
}

impl Headers {
    /// An empty header collection.
    pub fn new() -> (r: Headers)
        ensures
            r@ == Seq::<Header>::empty(),
    {
        Headers { fields: Vec::new() }
    }

    /// Appends one header.
    pub fn push(&mut self, name: Vec<u8>, value: Vec<u8>)
        ensures
            final(self)@ == old(self)@.push(Header { name: name, value: value }),
    {
        self.fields.push(Header { name, value });
    }

    /// Looks up the first header whose name matches the given name up to
    /// ASCII case and returns its value.
    pub fn get<'a>(&'a self, name: &[u8]) -> (r: Option<&'a Vec<u8>>)
        ensures
            match header_value(self@, name@) {
                Some(v) => r matches Some(rv) && rv@ == v,
                None => r is None,
            },
    {
        let n = self.fields.len();
        proof {
            assert(self@.skip(0) =~= self@);
        }
        let mut i: usize = 0;
        while i < n
            invariant
                0 <= i <= n == self@.len(),
                header_value(self@, name@) == header_value(self@.skip(i as int), name@),
            decreases n - i,
        {
            let f: &'a Header = &self.fields[i];
            if bytes_match(&f.name, name) {
                proof {
                    assert(self@.skip(i as int)[0] == self@[i as int]);
                }
                return Some(&f.value);
            }
            proof {
                assert(self@.skip(i as int).drop_first() =~= self@.skip(i as int + 1));
            }
            i += 1;
        }
        proof {
            assert(self@.skip(n as int).len() == 0);
        }
        None
    }
}

/// Compares two header names up to ASCII case.
fn bytes_match(a: &[u8], b: &[u8]) -> (r: bool)
    ensures
        r == name_matches(a@, b@),
{
    if a.len() != b.len() {
        return false;
    }
    let n = a.len();
    let mut i: usize = 0;
    while i < n
        invariant
            0 <= i <= n == a@.len() == b@.len(),
            forall|j: int| 0 <= j < i ==> ascii_lower(a@[j]) == ascii_lower(b@[j]),
        decreases n - i,
    {
        let x = a[i];
        let y = b[i];
        let xl: u8 = if 65 <= x && x <= 90 {
            x + 32
        } else {
            x
        };
        let yl: u8 = if 65 <= y && y <= 90 {
            y + 32
        } else {
            y
        };
        if xl != yl {
            return false;
        }
        i += 1;
    }
    true
}

/// The value of a run of digits is never negative.
pub proof fn lemma_digits_nonneg(s: Seq<u8>)
    requires
        forall|i: int| 0 <= i < s.len() ==> is_digit(s[i]),
    ensures
        digits_value(s) >= 0,
    decreases s.len(),
{
    if s.len() > 0 {
        lemma_digits_nonneg(s.drop_last());
    }
}

/// A prefix of a run of digits denotes no more than the whole run.
pub proof fn lemma_digits_prefix(s: Seq<u8>, i: int)
    requires
        forall|k: int| 0 <= k < s.len() ==> is_digit(s[k]),
        0 <= i <= s.len(),
    ensures
        digits_value(s.take(i)) <= digits_value(s),
    decreases s.len() - i,
{
    if i == s.len() {
        assert(s.take(i) =~= s);
    } else {
        let t = s.drop_last();
        lemma_digits_prefix(t, i);
        assert(s.take(i) =~= t.take(i));
        lemma_digits_nonneg(t);
    }
}

/// Parses a byte string as a decimal integer fitting `i32`: an optional
/// sign, then one or more digits. Returns `None` on any other input,
/// including an integer out of range.
pub fn parse_i32(s: &[u8]) -> (r: Option<i32>)
    ensures
        r == parsed_i32(s@),
{
    let n = s.len();
    if n == 0 {
        return None;
    }
    let first = s[0];
    let neg: bool = first == 45;
    let start: usize = if first == 45 || first == 43 {
        1
    } else {
        0
    };
    if start >= n {
        return None;
    }
    let ghost digits: Seq<u8> = if start == 1 {
        s@.drop_first()
    } else {
        s@
    };
    proof {
        assert(digits =~= s@.subrange(start as int, n as int));
    }
    let mut i: usize = start;
    let mut mag: u64 = 0;
    while i < n
        invariant
            start <= i <= n == s@.len(),
            digits =~= s@.subrange(start as int, n as int),
            start == 0 || start == 1,
            start == 1 ==> digits =~= s@.drop_first(),
            start == 0 ==> digits == s@,
            start == 0 ==> !(s@[0] == 43 || s@[0] == 45),
            start == 1 ==> (s@[0] == 43 || s@[0] == 45),
            neg == (s@[0] == 45),
            forall|j: int| start <= j < i ==> is_digit(s@[j]),
            mag == digits_value(s@.subrange(start as int, i as int)),
            mag <= 0x8000_0000u64,
        decreases n - i,
    {
        let d = s[i];
        if d < 48 || d > 57 {
            // Some byte is not a digit: no branch of the grammar accepts
            // the input.
            proof {
                assert(!is_digit(s@[i as int]));
                if start == 1 {
                    assert(digits[i as int - 1] == s@[i as int]);
                    assert(!all_digits(digits));
                }
                assert(!all_digits(s@));
            }
            return None;
        }
        let m2: u64 = mag * 10 + ((d - 48) as u64);
        proof {
            let pre = s@.subrange(start as int, i as int);
            let cur = s@.subrange(start as int, i as int + 1);
            assert(cur.drop_last() =~= pre);
            assert(cur.last() == s@[i as int]);
        }
        mag = m2;
        i += 1;
        if mag > 0x8000_0000u64 {
            // The digits seen so far already exceed the magnitude any
            // `i32` can carry; more digits only increase the value.
            proof {
                if all_digits(digits) {
                    let k: int = i - start;
                    assert(digits.take(k) =~= s@.subrange(start as int, i as int));
                    lemma_digits_prefix(digits, k);
                }
            }
            return None;
        }
    }
    proof {
        assert(s@.subrange(start as int, n as int) =~= digits);
        assert(all_digits(digits));
        lemma_digits_nonneg(digits);
    }
    if neg {
        if mag > 0x8000_0000u64 {
            return None;
        }
        let v: i64 = -(mag as i64);
        Some(v as i32)
    } else {
        if mag > 0x7fff_ffffu64 {
            return None;
        }
        Some(mag as i32)
    }
}

/// Extracts the rate-limit snapshot from a header collection, never
/// failing: each of the three integer-valued rate-limit headers
/// contributes its parsed value when present and well formed, and the
/// sentinel `-1` otherwise.
pub fn rate_headers(resp: &Headers) -> (r: Response<()>)
    ensures
        r.snapshot() == extracted_snapshot(resp@),
        r.response == (),
{
    Response {
        rate_limit: extract_field(resp, "X-Rate-Limit-Limit".as_bytes()),
        rate_limit_remaining: extract_field(resp, "X-Rate-Limit-Remaining".as_bytes()),
        rate_limit_reset: extract_field(resp, "X-Rate-Limit-Reset".as_bytes()),
        response: (),
    }
}

/// Extracts one integer-valued header field, degrading to `-1` when the
/// header is absent or its value malformed.
pub fn extract_field(resp: &Headers, name: &[u8]) -> (r: i32)
    ensures
        r == extracted(resp@, name@),
{
    match resp.get(name) {
        Some(v) => match parse_i32(v.as_slice()) {
            Some(x) => x,
            None => -1,
        },
        None => -1,
    }
}

} // verus!
