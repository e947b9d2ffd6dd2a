//! UTF-8 validation and trailing-whitespace trimming on byte streams.
//!
//! Guest-supplied bytes that the host treats as text must be UTF-8; the
//! validator below decides membership against the standard shortest-form
//! definition: ASCII, two-byte sequences from 0xC2, three- and four-byte
//! sequences with the restricted second byte after 0xE0, 0xED, 0xF0 and
//! 0xF4, no surrogates, no code points beyond U+10FFFF.

use vstd::prelude::*;

verus! {

/// Whether `b` is a UTF-8 continuation byte.
pub open spec fn is_utf8_cont(b: u8) -> bool {
    0x80 <= b < 0xC0
}

/// Whether `s` is well-formed UTF-8.
pub open spec fn spec_valid_utf8(s: Seq<u8>) -> bool
    decreases s.len(),
{
    if s.len() == 0 {
        true
    } else {
        let b0 = s[0];
        if b0 < 0x80 {
            spec_valid_utf8(s.skip(1))
        } else if b0 < 0xC2 {
            false
        } else if b0 < 0xE0 {
            s.len() >= 2 && is_utf8_cont(s[1]) && spec_valid_utf8(s.skip(2))
        } else if b0 == 0xE0 {
            s.len() >= 3 && 0xA0 <= s[1] < 0xC0 && is_utf8_cont(s[2]) && spec_valid_utf8(s.skip(3))
        } else if b0 == 0xED {
            s.len() >= 3 && 0x80 <= s[1] < 0xA0 && is_utf8_cont(s[2]) && spec_valid_utf8(s.skip(3))
        } else if b0 < 0xF0 {
            s.len() >= 3 && is_utf8_cont(s[1]) && is_utf8_cont(s[2]) && spec_valid_utf8(s.skip(3))
        } else if b0 == 0xF0 {
            s.len() >= 4 && 0x90 <= s[1] < 0xC0 && is_utf8_cont(s[2]) && is_utf8_cont(s[3])
                && spec_valid_utf8(s.skip(4))
        } else if b0 < 0xF4 {
            s.len() >= 4 && is_utf8_cont(s[1]) && is_utf8_cont(s[2]) && is_utf8_cont(s[3])
                && spec_valid_utf8(s.skip(4))
        } else if b0 == 0xF4 {
            s.len() >= 4 && 0x80 <= s[1] < 0x90 && is_utf8_cont(s[2]) && is_utf8_cont(s[3])
                && spec_valid_utf8(s.skip(4))
        } else {
            false
        }
    }
}

/// Decides whether `bytes` is well-formed UTF-8.
pub fn check_utf8(bytes: &Vec<u8>) -> (r: bool)
    ensures
        r == spec_valid_utf8(bytes@),
{
    let n = bytes.len();
    let mut i: usize = 0;
    proof {
        assert(bytes@.skip(0) =~= bytes@);
    }
    while i < n
        invariant
            i <= n,
            n == bytes@.len(),
            spec_valid_utf8(bytes@) == spec_valid_utf8(bytes@.skip(i as int)),
        decreases n - i,
    {
        let ghost tail = bytes@.skip(i as int);
        let b0 = bytes[i];
        let step: usize;
        if b0 < 0x80 {
            step = 1;
        } else if b0 < 0xC2 {
            return false;
        } else if b0 < 0xE0 {
            if n - i < 2 || !cont(bytes[i + 1]) {
                return false;
            }
            step = 2;
        } else if b0 == 0xE0 {
            if n - i < 3 || !(0xA0 <= bytes[i + 1] && bytes[i + 1] < 0xC0) || !cont(
                bytes[i + 2],
            ) {
                return false;
            }
            step = 3;
        } else if b0 == 0xED {
            if n - i < 3 || !(0x80 <= bytes[i + 1] && bytes[i + 1] < 0xA0) || !cont(
                bytes[i + 2],
            ) {
                return false;
            }
            step = 3;
        } else if b0 < 0xF0 {
            if n - i < 3 || !cont(bytes[i + 1]) || !cont(bytes[i + 2]) {
                return false;
            }
            step = 3;
        } else if b0 == 0xF0 {
            if n - i < 4 || !(0x90 <= bytes[i + 1] && bytes[i + 1] < 0xC0) || !cont(bytes[i + 2])
                || !cont(bytes[i + 3]) {
                return false;
            }
            step = 4;
        } else if b0 < 0xF4 {
            if n - i < 4 || !cont(bytes[i + 1]) || !cont(bytes[i + 2]) || !cont(bytes[i + 3]) {
                return false;
            }
            step = 4;
        } else if b0 == 0xF4 {
            if n - i < 4 || !(0x80 <= bytes[i + 1] && bytes[i + 1] < 0x90) || !cont(bytes[i + 2])
                || !cont(bytes[i + 3]) {
                return false;
            }
            step = 4;
        } else {
            return false;
        }
        proof {
            assert(forall|k: int| 0 <= k < tail.len() ==> tail[k] == bytes@[i + k]);
            assert(tail.skip(step as int) =~= bytes@.skip(i + step));
        }
        i = i + step;
    }
    proof {
        assert(bytes@.skip(n as int).len() == 0);
    }
    true
}

/// Whether `b` is a UTF-8 continuation byte.
fn cont(b: u8) -> (r: bool)
    ensures
        r == is_utf8_cont(b),
{
    0x80 <= b && b < 0xC0
}

/// Whether `b` is ASCII whitespace: tab through carriage return, or space.
pub open spec fn is_ascii_ws(b: u8) -> bool {
    b == 0x20 || (0x09 <= b <= 0x0D)
}

/// `s` with its trailing ASCII whitespace removed.
pub open spec fn spec_trim_end(s: Seq<u8>) -> Seq<u8>
    decreases s.len(),
{
    if s.len() > 0 && is_ascii_ws(s.last()) {
        spec_trim_end(s.drop_last())
    } else {
        s
    }
}

/// Removes trailing ASCII whitespace from `bytes`.
pub fn trim_end(bytes: &Vec<u8>) -> (r: Vec<u8>)
    ensures
        r@ =~= spec_trim_end(bytes@),
{
    let mut n = bytes.len();
    proof {
        assert(bytes@.take(bytes@.len() as int) =~= bytes@);
    }
    while n > 0 && is_ws(bytes[n - 1])
        invariant
            n <= bytes@.len(),
            spec_trim_end(bytes@) == spec_trim_end(bytes@.take(n as int)),
        decreases n,
    {
        proof {
            assert(bytes@.take(n as int).last() == bytes@[n - 1]);
            assert(bytes@.take(n as int).drop_last() =~= bytes@.take(n - 1));
        }
        n = n - 1;
    }
    proof {
        if n > 0 {
            assert(bytes@.take(n as int).last() == bytes@[n - 1]);
        }
        assert(spec_trim_end(bytes@.take(n as int)) == bytes@.take(n as int));
    }
    let mut out: Vec<u8> = Vec::new();
    let mut i: usize = 0;
    while i < n
        invariant
            i <= n,
            n <= bytes@.len(),
            out@ =~= bytes@.take(n as int).take(i as int),
        decreases n - i,
    {
        out.push(bytes[i]);
        proof {
            assert(out@ =~= bytes@.take(n as int).take(i + 1));
        }
        i = i + 1;
    }
    proof {
        assert(out@ =~= bytes@.take(n as int));
    }
    out
}

/// Whether `b` is ASCII whitespace.
fn is_ws(b: u8) -> (r: bool)
    ensures
        r == is_ascii_ws(b),
{
    b == 0x20 || (0x09 <= b && b <= 0x0D)
}

} // verus!
