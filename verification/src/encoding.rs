//! Base64, the encoding in which images are embedded in a page.
use vstd::prelude::*;

use crate::text::{push_char, to_chars};

verus! {

/// The 64 characters of the standard base64 alphabet, in order.
pub const BASE64_ALPHABET: &'static str = "ABCDEFGHIJKLMNOPQRSTUVWXYZabcdefghijklmnopqrstuvwxyz0123456789+/";

/// The character of a 6-bit value.
pub open spec fn b64(v: int) -> char {
    BASE64_ALPHABET@[v]
}

/// The four characters of a group of up to three bytes: the 24 bits of the
/// group (missing bytes count as zero) in four 6-bit values, those past the
/// bytes given replaced by `=`.
pub open spec fn b64_group(b0: int, b1: int, b2: int, n: int) -> Seq<char> {
    let v = b0 * 65536 + b1 * 256 + b2;
    seq![
        b64(v / 262144),
        b64((v / 4096) % 64),
        if n >= 2 { b64((v / 64) % 64) } else { '=' },
        if n >= 3 { b64(v % 64) } else { '=' },
    ]
}

/// Standard base64 (RFC 4648, with padding) of a sequence of bytes.
pub open spec fn base64(b: Seq<u8>) -> Seq<char>
    decreases b.len(),
{
    if b.len() == 0 {
        Seq::empty()
    } else if b.len() == 1 {
        b64_group(b[0] as int, 0, 0, 1)
    } else if b.len() == 2 {
        b64_group(b[0] as int, b[1] as int, 0, 2)
    } else {
        b64_group(b[0] as int, b[1] as int, b[2] as int, 3) + base64(b.skip(3))
    }
}

/// Standard base64 of bytes.
pub fn to_base64(bytes: &Vec<u8>) -> (r: String)
    ensures
        r@ == base64(bytes@),
{
    let alphabet = to_chars(BASE64_ALPHABET);
    proof {
        reveal_strlit("ABCDEFGHIJKLMNOPQRSTUVWXYZabcdefghijklmnopqrstuvwxyz0123456789+/");
        assert(alphabet@.len() == 64);
    }
    let n = bytes.len();
    let mut out = String::new();
    let mut i: usize = 0;
    proof {
        assert(bytes@.skip(0) =~= bytes@);
        assert(out@ + base64(bytes@) =~= base64(bytes@));
    }
    while i < n
        invariant
            n == bytes@.len(),
            i <= n,
            alphabet@ == BASE64_ALPHABET@,
            alphabet@.len() == 64,
            out@ + base64(bytes@.skip(i as int)) == base64(bytes@),
        decreases n - i,
    {
        let ghost rest = bytes@.skip(i as int);
        let b0: u32 = bytes[i] as u32;
        let count: usize = if n - i >= 3 {
            3
        } else {
            n - i
        };
        let b1: u32 = if count >= 2 {
            bytes[i + 1] as u32
        } else {
            0
        };
        let b2: u32 = if count >= 3 {
            bytes[i + 2] as u32
        } else {
            0
        };
        let v: u32 = b0 * 65536 + b1 * 256 + b2;
        let c0 = alphabet[(v / 262144) as usize];
        let c1 = alphabet[((v / 4096) % 64) as usize];
        let c2 = if count >= 2 {
            alphabet[((v / 64) % 64) as usize]
        } else {
            '='
        };
        let c3 = if count >= 3 {
            alphabet[(v % 64) as usize]
        } else {
            '='
        };
        let ghost before = out@;
        push_char(&mut out, c0);
        push_char(&mut out, c1);
        push_char(&mut out, c2);
        push_char(&mut out, c3);
        proof {
            let g = b64_group(b0 as int, b1 as int, b2 as int, count as int);
            assert(rest[0] == bytes@[i as int]);
            if count >= 2 {
                assert(rest[1] == bytes@[i + 1]);
            }
            if count >= 3 {
                assert(rest[2] == bytes@[i + 2]);
                assert(rest.skip(3) =~= bytes@.skip(i + 3));
            }
            assert(out@ =~= before + g);
            if count == 1 {
                assert(base64(rest) == g);
                assert(bytes@.skip(i + 1) =~= Seq::<u8>::empty());
            } else if count == 2 {
                assert(base64(rest) == g);
                assert(bytes@.skip(i + 2) =~= Seq::<u8>::empty());
            } else {
                assert(base64(rest) == g + base64(bytes@.skip(i + 3)));
            }
        }
        i = i + count;
    }
    out
}

} // verus!
