//! The structured API error payload and its wire grammar.
//!
//! Certain response bodies carry the API's own error list: a JSON object
//! whose single `"errors"` member holds an array of objects, each with an
//! integer `"code"` and a string `"message"`, in that member order. This
//! module defines that shape precisely as a grammar over bytes and parses
//! it.
//!
//! The accepted shape, with arbitrary JSON whitespace between tokens:
//!
//! ```text
//! { "errors" : [ entry , ... ] }      or      { "errors" : [ ] }
//! entry  =  { "code" : integer , "message" : string }
//! ```
//!
//! An integer is an optional `-` followed by decimal digits, with a
//! magnitude below 2^63; a string is quoted bytes without control bytes,
//! where `\"` and `\\` stand for a quote and a backslash. A body of any
//! other shape is not an error payload.

use vstd::prelude::*;
use vstd::string::StringSliceAdditionalSpecFns;
use crate::error::ApiErrorCode;
use crate::headers::{is_digit, digits_value, lemma_digits_nonneg, lemma_digits_prefix};

verus! {

/// True when the byte is JSON whitespace: space, tab, line feed or
/// carriage return.
pub open spec fn is_ws(b: u8) -> bool {
    b == 32 || b == 9 || b == 10 || b == 13
}

/// The first position at or after `i` holding no whitespace.
pub open spec fn skip_ws(s: Seq<u8>, i: int) -> int
    decreases s.len() - i,
{
    if 0 <= i < s.len() && is_ws(s[i]) {
        skip_ws(s, i + 1)
    } else {
        i
    }
}

/// The position after the given byte, when it stands at `i`.
pub open spec fn byte_at(s: Seq<u8>, i: int, b: u8) -> Option<int> {
    if 0 <= i < s.len() && s[i] == b {
        Some(i + 1)
    } else {
        None
    }
}

/// The position after the given literal, when it stands at `i`.
pub open spec fn literal_at(s: Seq<u8>, i: int, lit: Seq<u8>) -> Option<int> {
    if 0 <= i && i + lit.len() <= s.len() && s.subrange(i, i + lit.len()) == lit {
        Some(i + lit.len())
    } else {
        None
    }
}

/// The end of the run of decimal digits starting at `i`.
pub open spec fn digit_run_end(s: Seq<u8>, i: int) -> int
    decreases s.len() - i,
{
    if 0 <= i < s.len() && is_digit(s[i]) {
        digit_run_end(s, i + 1)
    } else {
        i
    }
}

/// The integer starting at `i` — an optional `-` then one or more digits,
/// its magnitude below 2^63 — and the position after it.
pub open spec fn code_at(s: Seq<u8>, i: int) -> Option<(int, int)> {
    let neg = 0 <= i < s.len() && s[i] == 45;
    let j = if neg {
        i + 1
    } else {
        i
    };
    let e = digit_run_end(s, j);
    if e > j {
        let m = digits_value(s.subrange(j, e));
        let v: int = if neg {
            -m
        } else {
            m
        };
        if -0x7fff_ffff_ffff_ffff <= v <= 0x7fff_ffff_ffff_ffff {
            Some((v, e))
        } else {
            None
        }
    } else {
        None
    }
}

/// The content of the string whose opening quote stands just before `i`,
/// and the position after its closing quote. Bytes below 32 end no
/// string; `\"` and `\\` stand for a quote and a backslash; any other
/// byte stands for itself.
pub open spec fn string_body_at(s: Seq<u8>, i: int) -> Option<(Seq<u8>, int)>
    decreases s.len() - i,
{
    if !(0 <= i < s.len()) {
        None
    } else if s[i] == 34 {
        Some((Seq::empty(), i + 1))
    } else if s[i] == 92 {
        if i + 1 < s.len() && (s[i + 1] == 34 || s[i + 1] == 92) {
            match string_body_at(s, i + 2) {
                Some(te) => Some((seq![s[i + 1]] + te.0, te.1)),
                None => None,
            }
        } else {
            None
        }
    } else if s[i] >= 32 {
        match string_body_at(s, i + 1) {
            Some(te) => Some((seq![s[i]] + te.0, te.1)),
            None => None,
        }
    } else {
        None
    }
}

/// The key of the code member, quotes included.
pub open spec fn code_key() -> Seq<u8> {
    "\"code\"".spec_bytes()
}

/// The key of the message member, quotes included.
pub open spec fn message_key() -> Seq<u8> {
    "\"message\"".spec_bytes()
}

/// The key of the errors member, quotes included.
pub open spec fn errors_key() -> Seq<u8> {
    "\"errors\"".spec_bytes()
}

/// One error entry starting at `i`: an object with a `"code"` member and
/// a `"message"` member, in that order. Yields the code, the message
/// bytes, and the position after the closing brace.
pub open spec fn entry_at(s: Seq<u8>, i: int) -> Option<((int, Seq<u8>), int)> {
    match byte_at(s, i, 123) {
        Some(a) => match literal_at(s, skip_ws(s, a), code_key()) {
            Some(b) => match byte_at(s, skip_ws(s, b), 58) {
                Some(c) => match code_at(s, skip_ws(s, c)) {
                    Some(vd) => match byte_at(s, skip_ws(s, vd.1), 44) {
                        Some(e) => match literal_at(s, skip_ws(s, e), message_key()) {
                            Some(f) => match byte_at(s, skip_ws(s, f), 58) {
                                Some(g) => match byte_at(s, skip_ws(s, g), 34) {
                                    Some(q) => match string_body_at(s, q) {
                                        Some(te) => match byte_at(s, skip_ws(s, te.1), 125) {
                                            Some(z) => Some(((vd.0, te.0), z)),
                                            None => None,
                                        },
                                        None => None,
                                    },
                                    None => None,
                                },
                                None => None,
                            },
                            None => None,
                        },
                        None => None,
                    },
                    None => None,
                },
                None => None,
            },
            None => None,
        },
        None => None,
    }
}

/// One or more comma-separated error entries, the first starting at
/// `skip_ws(s, i)`. Yields the entries and the position after the last
/// one.
pub open spec fn entries_at(s: Seq<u8>, i: int) -> Option<(Seq<(int, Seq<u8>)>, int)>
    decreases s.len() - i,
{
    match entry_at(s, skip_ws(s, i)) {
        Some(ve) => {
            let w = skip_ws(s, ve.1);
            if 0 <= w < s.len() && s[w] == 44 {
                if i < w + 1 <= s.len() {
                    match entries_at(s, w + 1) {
                        Some(re) => Some((seq![ve.0] + re.0, re.1)),
                        None => None,
                    }
                } else {
                    None
                }
            } else {
                Some((seq![ve.0], ve.1))
            }
        },
        None => None,
    }
}

/// The whole body as a structured error payload: a single JSON object
/// whose one member `"errors"` holds an array of error entries, with
/// nothing but whitespace around it. Yields the entries — codes and
/// message bytes in order — or `None` when the body has any other shape.
pub open spec fn error_payload(s: Seq<u8>) -> Option<Seq<(int, Seq<u8>)>> {
    match byte_at(s, skip_ws(s, 0), 123) {
        Some(a) => match literal_at(s, skip_ws(s, a), errors_key()) {
            Some(b) => match byte_at(s, skip_ws(s, b), 58) {
                Some(c) => match byte_at(s, skip_ws(s, c), 91) {
                    Some(d) => {
                        let g = skip_ws(s, d);
                        if 0 <= g < s.len() && s[g] == 93 {
                            match byte_at(s, skip_ws(s, g + 1), 125) {
                                Some(z) => if skip_ws(s, z) == s.len() {
                                    Some(Seq::empty())
                                } else {
                                    None
                                },
                                None => None,
                            }
                        } else {
                            match entries_at(s, d) {
                                Some(ve) => match byte_at(s, skip_ws(s, ve.1), 93) {
                                    Some(h) => match byte_at(s, skip_ws(s, h), 125) {
                                        Some(z) => if skip_ws(s, z) == s.len() {
                                            Some(ve.0)
                                        } else {
                                            None
                                        },
                                        None => None,
                                    },
                                    None => None,
                                },
                                None => None,
                            }
                        }
                    },
                    None => None,
                },
                None => None,
            },
            None => None,
        },
        None => None,
    }
}

/// Advances past whitespace.
fn scan_ws(s: &[u8], i: usize) -> (r: usize)
    requires
        i <= s@.len(),
    ensures
        r == skip_ws(s@, i as int),
        i <= r <= s@.len(),
{
    let n = s.len();
    let mut j = i;
    while j < n && (s[j] == 32 || s[j] == 9 || s[j] == 10 || s[j] == 13)
        invariant
            i <= j <= n == s@.len(),
            skip_ws(s@, i as int) == skip_ws(s@, j as int),
        decreases n - j,
    {
        j += 1;
    }
    j
}

/// Consumes one expected byte.
fn match_byte(s: &[u8], i: usize, b: u8) -> (r: Option<usize>)
    requires
        i <= s@.len(),
    ensures
        match byte_at(s@, i as int, b) {
            Some(e) => r matches Some(re) && re == e && i < re <= s@.len(),
            None => r is None,
        },
{
    if i < s.len() && s[i] == b {
        Some(i + 1)
    } else {
        None
    }
}

/// Consumes one expected literal.
fn match_literal(s: &[u8], i: usize, lit: &[u8]) -> (r: Option<usize>)
    requires
        i <= s@.len(),
    ensures
        match literal_at(s@, i as int, lit@) {
            Some(e) => r matches Some(re) && re == e && i <= re <= s@.len(),
            None => r is None,
        },
{
    let m = lit.len();
    let n = s.len();
    if n - i < m {
        return None;
    }
    let mut k: usize = 0;
    while k < m
        invariant
            0 <= k <= m == lit@.len(),
            i + m <= n == s@.len(),
            forall|j: int| 0 <= j < k ==> s@[i + j] == lit@[j],
        decreases m - k,
    {
        if s[i + k] != lit[k] {
            proof {
                assert(s@.subrange(i as int, i + lit@.len())[k as int] == s@[i + k]);
            }
            return None;
        }
        k += 1;
    }
    proof {
        assert(s@.subrange(i as int, i + lit@.len()) =~= lit@);
    }
    Some(i + m)
}

/// Parses the integer of a code member.
fn scan_code(s: &[u8], i: usize) -> (r: Option<(i64, usize)>)
    requires
        i <= s@.len(),
    ensures
        match code_at(s@, i as int) {
            Some(ve) => r matches Some(p) && p.0 == ve.0 && p.1 == ve.1 && i < p.1 <= s@.len(),
            None => r is None,
        },
{
    let n = s.len();
    let neg: bool = i < n && s[i] == 45;
    let start: usize = if neg {
        i + 1
    } else {
        i
    };
    let mut j = start;
    let mut mag: u128 = 0;
    while j < n && s[j] >= 48 && s[j] <= 57
        invariant
            start <= j <= n == s@.len(),
            i <= start,
            neg == (0 <= i < s@.len() && s@[i as int] == 45),
            neg ==> start == i + 1,
            !neg ==> start == i,
            forall|k: int| start <= k < j ==> is_digit(s@[k]),
            digit_run_end(s@, start as int) == digit_run_end(s@, j as int),
            mag == digits_value(s@.subrange(start as int, j as int)),
            mag <= 0x7fff_ffff_ffff_ffffu128,
        decreases n - j,
    {
        let d = s[j];
        let m2: u128 = mag * 10 + ((d - 48) as u128);
        proof {
            let pre = s@.subrange(start as int, j as int);
            let cur = s@.subrange(start as int, j as int + 1);
            assert(cur.drop_last() =~= pre);
            assert(cur.last() == s@[j as int]);
        }
        mag = m2;
        j += 1;
        if mag > 0x7fff_ffff_ffff_ffffu128 {
            // The digits seen so far already exceed the accepted
            // magnitude; more digits only increase it.
            proof {
                let j0: int = j - 1;
                assert(is_digit(s@[j0]));
                assert(digit_run_end(s@, j0) == digit_run_end(s@, j0 + 1));
                let e = digit_run_end(s@, j as int);
                assert(digit_run_end(s@, start as int) == e);
                lemma_digit_run_bounds(s@, j as int);
                lemma_digit_run_digits(s@, start as int);
                let run = s@.subrange(start as int, e);
                let k: int = j - start;
                assert(run.take(k) =~= s@.subrange(start as int, j as int));
                assert(forall|t: int| 0 <= t < run.len() ==> is_digit(run[t]));
                lemma_digits_prefix(run, k);
                assert(digits_value(run) >= digits_value(run.take(k)));
                assert(digits_value(run) > 0x7fff_ffff_ffff_ffff);
                assert(e > start);
                assert(code_at(s@, i as int) is None);
            }
            return None;
        }
    }
    proof {
        lemma_digit_run_digits(s@, start as int);
        if j < s@.len() {
            assert(!is_digit(s@[j as int]));
        }
        assert(digit_run_end(s@, j as int) == j);
        lemma_digits_nonneg(s@.subrange(start as int, j as int));
    }
    if j == start {
        return None;
    }
    let v: i64 = if neg {
        -(mag as i64)
    } else {
        mag as i64
    };
    Some((v, j))
}

/// The end of a digit run stays within the sequence.
proof fn lemma_digit_run_bounds(s: Seq<u8>, i: int)
    requires
        0 <= i <= s.len(),
    ensures
        i <= digit_run_end(s, i) <= s.len(),
    decreases s.len() - i,
{
    if i < s.len() && is_digit(s[i]) {
        lemma_digit_run_bounds(s, i + 1);
    }
}

/// Every byte of a digit run is a digit.
proof fn lemma_digit_run_digits(s: Seq<u8>, i: int)
    requires
        0 <= i <= s.len(),
    ensures
        i <= digit_run_end(s, i) <= s.len(),
        forall|k: int| i <= k < digit_run_end(s, i) ==> is_digit(s[k]),
    decreases s.len() - i,
{
    if i < s.len() && is_digit(s[i]) {
        lemma_digit_run_digits(s, i + 1);
    }
}

/// Parses a string body, the opening quote already consumed.
fn scan_string(s: &[u8], i: usize) -> (r: Option<(Vec<u8>, usize)>)
    requires
        i <= s@.len(),
    ensures
        match string_body_at(s@, i as int) {
            Some(te) => r matches Some(p) && p.0@ == te.0 && p.1 == te.1 && i < p.1 <= s@.len(),
            None => r is None,
        },
{
    let n = s.len();
    let mut acc: Vec<u8> = Vec::new();
    let mut j = i;
    proof {
        assert(Seq::<u8>::empty() + string_tail(s@, i as int) =~= string_tail(s@, i as int));
    }
    loop
        invariant
            i <= j <= n == s@.len(),
            match string_body_at(s@, j as int) {
                Some(te) => string_body_at(s@, i as int) == Some::<(Seq<u8>, int)>(
                    (acc@ + te.0, te.1),
                ),
                None => string_body_at(s@, i as int) is None,
            },
        decreases n - j,
    {
        if j >= n {
            return None;
        }
        let b = s[j];
        if b == 34 {
            proof {
                lemma_string_body_bounds(s@, j as int);
                assert(acc@ + Seq::<u8>::empty() =~= acc@);
            }
            return Some((acc, j + 1));
        } else if b == 92 {
            if j + 1 < n && (s[j + 1] == 34 || s[j + 1] == 92) {
                let ghost old_acc = acc@;
                let c = s[j + 1];
                acc.push(c);
                proof {
                    match string_body_at(s@, j as int + 2) {
                        Some(te) => {
                            assert(acc@ + te.0 =~= old_acc + (seq![s@[j as int + 1]] + te.0));
                        },
                        None => {},
                    }
                }
                j += 2;
            } else {
                return None;
            }
        } else if b >= 32 {
            let ghost old_acc = acc@;
            acc.push(b);
            proof {
                match string_body_at(s@, j as int + 1) {
                    Some(te) => {
                        assert(acc@ + te.0 =~= old_acc + (seq![s@[j as int]] + te.0));
                    },
                    None => {},
                }
            }
            j += 1;
        } else {
            return None;
        }
    }
}

/// The content of the string body at `i`, when there is one.
spec fn string_tail(s: Seq<u8>, i: int) -> Seq<u8> {
    match string_body_at(s, i) {
        Some(te) => te.0,
        None => Seq::empty(),
    }
}

/// A parsed string body ends after its starting position and within the
/// sequence.
proof fn lemma_string_body_bounds(s: Seq<u8>, i: int)
    requires
        0 <= i,
    ensures
        string_body_at(s, i) matches Some(te) ==> i < te.1 <= s.len(),
    decreases s.len() - i,
{
    if 0 <= i < s.len() {
        if s[i] == 92 {
            if i + 1 < s.len() && (s[i + 1] == 34 || s[i + 1] == 92) {
                lemma_string_body_bounds(s, i + 2);
            }
        } else if s[i] != 34 && s[i] >= 32 {
            lemma_string_body_bounds(s, i + 1);
        }
    }
}

/// Parses one error entry starting at `i`.
fn scan_entry(s: &[u8], i: usize) -> (r: Option<(ApiErrorCode, usize)>)
    requires
        i <= s@.len(),
    ensures
        match entry_at(s@, i as int) {
            Some(ve) => r matches Some(p) && p.0.code == ve.0.0 && p.0.message@ == ve.0.1
                && p.1 == ve.1 && i < p.1 <= s@.len(),
            None => r is None,
        },
{
    let a = match match_byte(s, i, 123) {
        Some(x) => x,
        None => {
            return None;
        },
    };
    let b = match match_literal(s, scan_ws(s, a), "\"code\"".as_bytes()) {
        Some(x) => x,
        None => {
            return None;
        },
    };
    let c = match match_byte(s, scan_ws(s, b), 58) {
        Some(x) => x,
        None => {
            return None;
        },
    };
    let (code, d) = match scan_code(s, scan_ws(s, c)) {
        Some(x) => x,
        None => {
            return None;
        },
    };
    let e = match match_byte(s, scan_ws(s, d), 44) {
        Some(x) => x,
        None => {
            return None;
        },
    };
    let f = match match_literal(s, scan_ws(s, e), "\"message\"".as_bytes()) {
        Some(x) => x,
        None => {
            return None;
        },
    };
    let g = match match_byte(s, scan_ws(s, f), 58) {
        Some(x) => x,
        None => {
            return None;
        },
    };
    let q = match match_byte(s, scan_ws(s, g), 34) {
        Some(x) => x,
        None => {
            return None;
        },
    };
    let (message, e2) = match scan_string(s, q) {
        Some(x) => x,
        None => {
            return None;
        },
    };
    let z = match match_byte(s, scan_ws(s, e2), 125) {
        Some(x) => x,
        None => {
            return None;
        },
    };
    Some((ApiErrorCode { code, message }, z))
}

/// Parses one or more comma-separated error entries.
fn scan_entries(s: &[u8], i: usize) -> (r: Option<(Vec<ApiErrorCode>, usize)>)
    requires
        i <= s@.len(),
    ensures
        match entries_at(s@, i as int) {
            Some(ve) => r matches Some(p) && crate::error::abstract_errors(p.0@) == ve.0
                && p.1 == ve.1 && p.1 <= s@.len(),
            None => r is None,
        },
{
    let n = s.len();
    let mut acc: Vec<ApiErrorCode> = Vec::new();
    let mut pos = i;
    proof {
        assert(crate::error::abstract_errors(Seq::<ApiErrorCode>::empty())
            =~= Seq::<(int, Seq<u8>)>::empty());
    }
    loop
        invariant
            i <= pos <= n == s@.len(),
            match entries_at(s@, pos as int) {
                Some(re) => entries_at(s@, i as int) == Some::<(Seq<(int, Seq<u8>)>, int)>(
                    (crate::error::abstract_errors(acc@) + re.0, re.1),
                ),
                None => entries_at(s@, i as int) is None,
            },
        decreases n - pos,
    {
        let w0 = scan_ws(s, pos);
        let (entry, e) = match scan_entry(s, w0) {
            Some(x) => x,
            None => {
                return None;
            },
        };
        let ghost entry_abs: (int, Seq<u8>) = (entry.code as int, entry.message@);
        let w = scan_ws(s, e);
        if w < n && s[w] == 44 {
            let ghost old_acc = acc@;
            acc.push(entry);
            proof {
                lemma_abstract_push(old_acc, entry);
                match entries_at(s@, w as int + 1) {
                    Some(re) => {
                        assert(crate::error::abstract_errors(old_acc) + (seq![entry_abs] + re.0)
                            =~= crate::error::abstract_errors(acc@) + re.0);
                    },
                    None => {},
                }
            }
            pos = w + 1;
        } else {
            let ghost old_acc = acc@;
            acc.push(entry);
            proof {
                lemma_abstract_push(old_acc, entry);
                assert(crate::error::abstract_errors(old_acc) + seq![entry_abs]
                    =~= crate::error::abstract_errors(acc@));
            }
            return Some((acc, e));
        }
    }
}

/// Abstracting a payload grows entry by entry.
proof fn lemma_abstract_push(v: Seq<ApiErrorCode>, e: ApiErrorCode)
    ensures
        crate::error::abstract_errors(v.push(e)) =~= crate::error::abstract_errors(v) + seq![
            (e.code as int, e.message@),
        ],
{
}

/// Parses a whole body as a structured error payload. Returns the error
/// entries when the body has exactly the payload shape, and `None`
/// otherwise.
pub fn parse_error_payload(s: &[u8]) -> (r: Option<Vec<ApiErrorCode>>)
    ensures
        match error_payload(s@) {
            Some(es) => r matches Some(v) && crate::error::abstract_errors(v@) == es,
            None => r is None,
        },
{
    let n = s.len();
    let a = match match_byte(s, scan_ws(s, 0), 123) {
        Some(x) => x,
        None => {
            return None;
        },
    };
    let b = match match_literal(s, scan_ws(s, a), "\"errors\"".as_bytes()) {
        Some(x) => x,
        None => {
            return None;
        },
    };
    let c = match match_byte(s, scan_ws(s, b), 58) {
        Some(x) => x,
        None => {
            return None;
        },
    };
    let d = match match_byte(s, scan_ws(s, c), 91) {
        Some(x) => x,
        None => {
            return None;
        },
    };
    let g = scan_ws(s, d);
    if g < n && s[g] == 93 {
        let z = match match_byte(s, scan_ws(s, g + 1), 125) {
            Some(x) => x,
            None => {
                return None;
            },
        };
        if scan_ws(s, z) == n {
            proof {
                assert(crate::error::abstract_errors(Seq::<ApiErrorCode>::empty())
                    =~= Seq::<(int, Seq<u8>)>::empty());
            }
            Some(Vec::new())
        } else {
            None
        }
    } else {
        let (entries, e1) = match scan_entries(s, d) {
            Some(x) => x,
            None => {
                return None;
            },
        };
        let h = match match_byte(s, scan_ws(s, e1), 93) {
            Some(x) => x,
            None => {
                return None;
            },
        };
        let z = match match_byte(s, scan_ws(s, h), 125) {
            Some(x) => x,
            None => {
                return None;
            },
        };
        if scan_ws(s, z) == n {
            Some(entries)
        } else {
            None
        }
    }
}

} // verus!
