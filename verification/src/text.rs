//! Validated boundary text.
//!
//! Every text-like payload crosses the boundary as a byte array and must be
//! valid UTF-8; the check happens once, here, against vstd's mathematical
//! definition of the encoding. The module also provides the small byte-
//! vector operations (comparison, copy, concatenation) the rest of the
//! library builds names and messages from.
use vstd::prelude::*;
use vstd::string::StrSliceExecFns;
use vstd::string::StringSliceAdditionalSpecFns;
use vstd::utf8::*;

verus! {

/// One validation step: a well-formed scalar of `w` bytes at the front of
/// the suffix starting at `i` shifts the remaining question `w` bytes on.
proof fn lemma_valid_scalar_step(s: Seq<u8>, i: int, w: int)
    requires
        0 <= i < s.len(),
        valid_first_scalar(s.subrange(i, s.len() as int)),
        length_of_first_scalar(s.subrange(i, s.len() as int)) == w,
        i + w <= s.len(),
    ensures
        valid_utf8(s.subrange(i, s.len() as int)) == valid_utf8(
            s.subrange(i + w, s.len() as int),
        ),
{
    let suf = s.subrange(i, s.len() as int);
    assert(suf.len() != 0);
    assert(valid_utf8(suf) == (valid_first_scalar(suf) && valid_utf8(pop_first_scalar(suf))));
    assert(pop_first_scalar(suf) =~= s.subrange(i + w, s.len() as int));
}

/// A suffix that does not start with a well-formed scalar is not valid
/// UTF-8.
proof fn lemma_invalid_scalar(s: Seq<u8>, i: int)
    requires
        0 <= i < s.len(),
        !valid_first_scalar(s.subrange(i, s.len() as int)),
    ensures
        !valid_utf8(s.subrange(i, s.len() as int)),
{
    let suf = s.subrange(i, s.len() as int);
    assert(suf.len() != 0);
    assert(valid_utf8(suf) == (valid_first_scalar(suf) && valid_utf8(pop_first_scalar(suf))));
}

/// Checks that `bytes` is a valid UTF-8 encoding, against vstd's
/// definition of the encoding.
pub fn check_utf8(bytes: &Vec<u8>) -> (r: bool)
    ensures
        r == valid_utf8(bytes@),
{
    let n = bytes.len();
    let mut i: usize = 0;
    proof {
        assert(bytes@.subrange(0, n as int) =~= bytes@);
    }
    while i < n
        invariant
            i <= n,
            n == bytes@.len(),
            valid_utf8(bytes@) == valid_utf8(bytes@.subrange(i as int, n as int)),
        decreases n - i,
    {
        let ghost suf = bytes@.subrange(i as int, n as int);
        proof {
            assert(suf.len() == n - i);
            assert(suf[0] == bytes@[i as int]);
        }
        let b0 = bytes[i];
        if b0 < 0x80 {
            // one-byte scalar
            proof {
                assert(b0 & 0x7f == b0) by (bit_vector)
                    requires
                        b0 < 0x80,
                ;
                assert(valid_first_scalar(suf));
                assert(length_of_first_scalar(suf) == 1);
                lemma_valid_scalar_step(bytes@, i as int, 1);
            }
            i += 1;
        } else if b0 < 0xc0 {
            // a continuation byte cannot lead a scalar
            proof {
                assert(!valid_leading_and_continuation_bytes_first_codepoint(suf));
                lemma_invalid_scalar(bytes@, i as int);
            }
            return false;
        } else if b0 < 0xe0 {
            // two-byte scalar
            if n - i < 2 {
                proof {
                    assert(!valid_leading_and_continuation_bytes_first_codepoint(suf));
                    lemma_invalid_scalar(bytes@, i as int);
                }
                return false;
            }
            let b1 = bytes[i + 1];
            proof {
                assert(suf[1] == bytes@[i + 1]);
            }
            if !(0x80 <= b1 && b1 < 0xc0) {
                proof {
                    assert(!valid_leading_and_continuation_bytes_first_codepoint(suf));
                    lemma_invalid_scalar(bytes@, i as int);
                }
                return false;
            }
            let cp: u32 = (((b0 & 0x1f) as u32) << 6) | ((b1 & 0x3f) as u32);
            proof {
                assert(valid_leading_and_continuation_bytes_first_codepoint(suf));
                assert(length_of_first_codepoint(suf) == 2);
                assert(decode_first_codepoint(suf) == cp);
            }
            if cp < 0x80 {
                // overlong encoding
                proof {
                    lemma_invalid_scalar(bytes@, i as int);
                }
                return false;
            }
            if 0xd800 <= cp && cp <= 0xdfff {
                proof {
                    lemma_invalid_scalar(bytes@, i as int);
                }
                return false;
            }
            proof {
                assert(valid_first_scalar(suf));
                lemma_valid_scalar_step(bytes@, i as int, 2);
            }
            i += 2;
        } else if b0 < 0xf0 {
            // three-byte scalar
            if n - i < 3 {
                proof {
                    assert(!valid_leading_and_continuation_bytes_first_codepoint(suf));
                    lemma_invalid_scalar(bytes@, i as int);
                }
                return false;
            }
            let b1 = bytes[i + 1];
            let b2 = bytes[i + 2];
            proof {
                assert(suf[1] == bytes@[i + 1]);
                assert(suf[2] == bytes@[i + 2]);
            }
            if !(0x80 <= b1 && b1 < 0xc0) || !(0x80 <= b2 && b2 < 0xc0) {
                proof {
                    assert(!valid_leading_and_continuation_bytes_first_codepoint(suf));
                    lemma_invalid_scalar(bytes@, i as int);
                }
                return false;
            }
            let cp: u32 = (((b0 & 0x0f) as u32) << 12) | (((b1 & 0x3f) as u32) << 6) | ((b2
                & 0x3f) as u32);
            proof {
                assert(valid_leading_and_continuation_bytes_first_codepoint(suf));
                assert(length_of_first_codepoint(suf) == 3);
                assert(decode_first_codepoint(suf) == cp);
            }
            if cp < 0x800 {
                // overlong encoding
                proof {
                    lemma_invalid_scalar(bytes@, i as int);
                }
                return false;
            }
            if 0xd800 <= cp && cp <= 0xdfff {
                // surrogate range
                proof {
                    lemma_invalid_scalar(bytes@, i as int);
                }
                return false;
            }
            proof {
                assert(valid_first_scalar(suf));
                lemma_valid_scalar_step(bytes@, i as int, 3);
            }
            i += 3;
        } else if b0 < 0xf8 {
            // four-byte scalar
            if n - i < 4 {
                proof {
                    assert(!valid_leading_and_continuation_bytes_first_codepoint(suf));
                    lemma_invalid_scalar(bytes@, i as int);
                }
                return false;
            }
            let b1 = bytes[i + 1];
            let b2 = bytes[i + 2];
            let b3 = bytes[i + 3];
            proof {
                assert(suf[1] == bytes@[i + 1]);
                assert(suf[2] == bytes@[i + 2]);
                assert(suf[3] == bytes@[i + 3]);
            }
            if !(0x80 <= b1 && b1 < 0xc0) || !(0x80 <= b2 && b2 < 0xc0) || !(0x80 <= b3 && b3
                < 0xc0) {
                proof {
                    assert(!valid_leading_and_continuation_bytes_first_codepoint(suf));
                    lemma_invalid_scalar(bytes@, i as int);
                }
                return false;
            }
            let cp: u32 = (((b0 & 0x07) as u32) << 18) | (((b1 & 0x3f) as u32) << 12) | (((b2
                & 0x3f) as u32) << 6) | ((b3 & 0x3f) as u32);
            proof {
                assert(valid_leading_and_continuation_bytes_first_codepoint(suf));
                assert(length_of_first_codepoint(suf) == 4);
                assert(decode_first_codepoint(suf) == cp);
            }
            if !(0x10000 <= cp && cp <= 0x10ffff) {
                // overlong encoding or beyond the last scalar value
                proof {
                    lemma_invalid_scalar(bytes@, i as int);
                }
                return false;
            }
            proof {
                assert(valid_first_scalar(suf));
                lemma_valid_scalar_step(bytes@, i as int, 4);
            }
            i += 4;
        } else {
            // 0xf8 and above lead no scalar of any width
            proof {
                assert(!valid_leading_and_continuation_bytes_first_codepoint(suf));
                lemma_invalid_scalar(bytes@, i as int);
            }
            return false;
        }
    }
    proof {
        assert(bytes@.subrange(i as int, n as int).len() == 0);
    }
    true
}

/// Every all-ASCII byte sequence is valid UTF-8. Callers proving the
/// validity of a concrete export or import name use this for the common
/// case.
pub proof fn lemma_ascii_is_utf8(s: Seq<u8>)
    requires
        forall|j: int| 0 <= j < s.len() ==> s[j] < 0x80,
    ensures
        valid_utf8(s),
    decreases s.len(),
{
    if s.len() > 0 {
        let b0 = s[0];
        assert(b0 & 0x7f == b0) by (bit_vector)
            requires
                b0 < 0x80,
        ;
        assert(valid_first_scalar(s));
        assert(length_of_first_scalar(s) == 1);
        let rest = pop_first_scalar(s);
        assert(rest =~= s.subrange(1, s.len() as int));
        assert(forall|j: int| 0 <= j < rest.len() ==> rest[j] < 0x80);
        lemma_ascii_is_utf8(rest);
        assert(valid_utf8(s) == (valid_first_scalar(s) && valid_utf8(rest)));
    }
}

/// Byte-for-byte equality of two byte vectors.
pub fn bytes_eq(a: &Vec<u8>, b: &Vec<u8>) -> (r: bool)
    ensures
        r == (a@ == b@),
{
    if a.len() != b.len() {
        assert(a@ != b@);
        return false;
    }
    let n = a.len();
    let mut i: usize = 0;
    while i < n
        invariant
            i <= n,
            n == a@.len(),
            n == b@.len(),
            forall|j: int| 0 <= j < i ==> a@[j] == b@[j],
        decreases n - i,
    {
        if a[i] != b[i] {
            assert(a@[i as int] != b@[i as int]);
            return false;
        }
        i += 1;
    }
    proof {
        assert(a@ =~= b@);
    }
    true
}

/// An owned copy of a byte vector.
pub fn clone_bytes(src: &Vec<u8>) -> (r: Vec<u8>)
    ensures
        r@ == src@,
{
    let mut r: Vec<u8> = Vec::new();
    let n = src.len();
    let mut i: usize = 0;
    while i < n
        invariant
            i <= n,
            n == src@.len(),
            r@ =~= src@.take(i as int),
        decreases n - i,
    {
        r.push(src[i]);
        i += 1;
    }
    proof {
        assert(r@ =~= src@);
    }
    r
}

/// Appends a copy of `src` to `dst`.
pub fn append_bytes(dst: &mut Vec<u8>, src: &Vec<u8>)
    ensures
        final(dst)@ == old(dst)@ + src@,
{
    let n = src.len();
    let mut i: usize = 0;
    while i < n
        invariant
            i <= n,
            n == src@.len(),
            dst@ =~= old(dst)@ + src@.take(i as int),
        decreases n - i,
    {
        dst.push(src[i]);
        i += 1;
    }
    proof {
        assert(dst@ =~= old(dst)@ + src@);
    }
}

/// The bytes of a message literal, as an owned vector.
pub fn message_bytes(s: &str) -> (r: Vec<u8>)
    ensures
        r@ == s.spec_bytes(),
{
    s.as_bytes_vec()
}

} // verus!
