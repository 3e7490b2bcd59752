//! UTF-8 validity of response bodies.
//!
//! A finished body must decode as UTF-8 text before any further
//! classification; this module holds the checker, proved against the
//! mathematical UTF-8 model of `vstd`.

use vstd::prelude::*;
use vstd::utf8::*;

verus! {

/// Checks that the bytes form a valid UTF-8 encoding, scalar by scalar:
/// each leading byte announces its width, the continuation bytes follow
/// the `10xxxxxx` pattern, and the encoded codepoint is neither overlong
/// nor a surrogate.
pub fn is_valid_utf8(s: &[u8]) -> (r: bool)
    ensures
        r == valid_utf8(s@),
{
    let n = s.len();
    let mut i: usize = 0;
    proof {
        assert(s@.skip(0) =~= s@);
    }
    while i < n
        invariant
            0 <= i <= n == s@.len(),
            valid_utf8(s@) == valid_utf8(s@.skip(i as int)),
        decreases n - i,
    {
        let ghost suffix: Seq<u8> = s@.skip(i as int);
        let b0 = s[i];
        if b0 <= 0x7f {
            // One-byte scalar: always valid.
            proof {
                assert(suffix[0] == s@[i as int]);
                assert(valid_first_scalar(suffix));
                assert(pop_first_scalar(suffix) =~= s@.skip(i as int + 1));
            }
            i += 1;
        } else if 0xc0 <= b0 && b0 <= 0xdf {
            if n - i < 2 {
                proof {
                    assert(suffix.len() == 1);
                    assert(!valid_first_scalar(suffix));
                }
                return false;
            }
            let b1 = s[i + 1];
            let cont1: bool = 0x80 <= b1 && b1 <= 0xbf;
            let cp: u32 = (((b0 & 0x1f) as u32) << 6u32) | ((b1 & 0x3f) as u32);
            proof {
                assert(suffix[0] == s@[i as int]);
                assert(suffix.len() >= 2 ==> suffix[1] == s@[i as int + 1]);
            }
            if !(cont1 && cp >= 0x80 && !(0xd800 <= cp && cp <= 0xdfff)) {
                proof {
                    assert(!valid_first_scalar(suffix));
                }
                return false;
            }
            proof {
                assert(valid_first_scalar(suffix));
                assert(pop_first_scalar(suffix) =~= s@.skip(i as int + 2));
            }
            i += 2;
        } else if 0xe0 <= b0 && b0 <= 0xef {
            if n - i < 3 {
                proof {
                    assert(suffix.len() <= 2);
                    assert(!valid_first_scalar(suffix));
                }
                return false;
            }
            let b1 = s[i + 1];
            let b2 = s[i + 2];
            let cont: bool = 0x80 <= b1 && b1 <= 0xbf && 0x80 <= b2 && b2 <= 0xbf;
            let cp: u32 = (((b0 & 0x0f) as u32) << 12u32) | (((b1 & 0x3f) as u32) << 6u32) | ((
            b2 & 0x3f) as u32);
            proof {
                assert(suffix[0] == s@[i as int]);
                assert(suffix[1] == s@[i as int + 1]);
                assert(suffix[2] == s@[i as int + 2]);
            }
            if !(cont && cp >= 0x800 && !(0xd800 <= cp && cp <= 0xdfff)) {
                proof {
                    assert(!valid_first_scalar(suffix));
                }
                return false;
            }
            proof {
                assert(valid_first_scalar(suffix));
                assert(pop_first_scalar(suffix) =~= s@.skip(i as int + 3));
            }
            i += 3;
        } else if 0xf0 <= b0 && b0 <= 0xf7 {
            if n - i < 4 {
                proof {
                    assert(suffix.len() <= 3);
                    assert(!valid_first_scalar(suffix));
                }
                return false;
            }
            let b1 = s[i + 1];
            let b2 = s[i + 2];
            let b3 = s[i + 3];
            let cont: bool = 0x80 <= b1 && b1 <= 0xbf && 0x80 <= b2 && b2 <= 0xbf && 0x80 <= b3
                && b3 <= 0xbf;
            let cp: u32 = (((b0 & 0x07) as u32) << 18u32) | (((b1 & 0x3f) as u32) << 12u32) | (((
            b2 & 0x3f) as u32) << 6u32) | ((b3 & 0x3f) as u32);
            proof {
                assert(suffix[0] == s@[i as int]);
                assert(suffix[1] == s@[i as int + 1]);
                assert(suffix[2] == s@[i as int + 2]);
                assert(suffix[3] == s@[i as int + 3]);
            }
            if !(cont && 0x10000 <= cp && cp <= 0x10ffff && !(0xd800 <= cp && cp <= 0xdfff)) {
                proof {
                    assert(!valid_first_scalar(suffix));
                }
                return false;
            }
            proof {
                assert(valid_first_scalar(suffix));
                assert(pop_first_scalar(suffix) =~= s@.skip(i as int + 4));
            }
            i += 4;
        } else {
            // A continuation byte or an out-of-range byte cannot lead a
            // scalar.
            proof {
                assert(suffix[0] == s@[i as int]);
                assert(!valid_first_scalar(suffix));
            }
            return false;
        }
    }
    proof {
        assert(s@.skip(n as int).len() == 0);
    }
    true
}

} // verus!
