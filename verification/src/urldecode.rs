//! Percent-decoding of URL-encoded names, as the exporter applied it
//! when saving attachment files: a `%` must be followed by exactly
//! two hexadecimal digits and stands for that byte; the accumulated
//! bytes must form well-formed text.

use vstd::prelude::*;
use vstd::string::StringSliceAdditionalSpecFns;
use vstd::utf8::{
    decode_utf8, encode_utf8, is_ascii_chars, is_ascii_chars_encode_utf8,
    is_ascii_chars_nat_bound, char_u32_cast, valid_utf8,
};
use crate::DecodeError;

verus! {

pub open spec fn is_hex(b: u8) -> bool {
    (0x30 <= b <= 0x39) || (0x41 <= b <= 0x46) || (0x61 <= b <= 0x66)
}

pub open spec fn hex_val(b: u8) -> int {
    if 0x30 <= b <= 0x39 {
        b - 0x30
    } else if 0x41 <= b <= 0x46 {
        b - 0x41 + 10
    } else {
        b - 0x61 + 10
    }
}

/// One pass of percent-decoding over bytes, or nothing when some `%`
/// is truncated or not followed by two hexadecimal digits.
pub open spec fn percent_decode(s: Seq<u8>) -> Option<Seq<u8>>
    decreases s.len(),
{
    if s.len() == 0 {
        Some(Seq::empty())
    } else if s[0] == 0x25 {
        if s.len() >= 3 && is_hex(s[1]) && is_hex(s[2]) {
            match percent_decode(s.skip(3)) {
                Some(r) => Some(seq![(hex_val(s[1]) * 16 + hex_val(s[2])) as u8] + r),
                None => None,
            }
        } else {
            None
        }
    } else {
        match percent_decode(s.skip(1)) {
            Some(r) => Some(seq![s[0]] + r),
            None => None,
        }
    }
}

/// One pass of percent-decoding over text: decode the bytes, then
/// the result must be well-formed text.
pub open spec fn urldecode_spec(s: Seq<char>) -> Option<Seq<char>> {
    match percent_decode(encode_utf8(s)) {
        Some(b) => if valid_utf8(b) {
            Some(decode_utf8(b))
        } else {
            None
        },
        None => None,
    }
}

/// Percent-decodes a byte string once.
#[verifier::loop_isolation(false)]
pub fn percent_decode_bytes(s: &[u8]) -> (r: Result<Vec<u8>, DecodeError>)
    ensures
        r is Ok <==> percent_decode(s@) is Some,
        r matches Ok(v) ==> Some(v@) == percent_decode(s@),
        r matches Err(e) ==> e == DecodeError::MalformedUrlEncoding,
{
    let n = s.len();
    let mut out: Vec<u8> = Vec::new();
    let mut i: usize = 0;
    proof {
        assert(s@.skip(0) =~= s@);
        if percent_decode(s@) is Some {
            assert(out@ + percent_decode(s@)->Some_0 =~= percent_decode(s@)->Some_0);
        }
    }
    while i < n
        invariant
            i <= n,
            n == s@.len(),
            percent_decode(s@) is Some <==> percent_decode(s@.skip(i as int)) is Some,
            percent_decode(s@.skip(i as int)) matches Some(rest) ==> percent_decode(s@)
                == Some(out@ + rest),
        decreases n - i,
    {
        let ghost pre = s@.skip(i as int);
        proof {
            assert(pre[0] == s@[i as int]);
        }
        if s[i] == 0x25 {
            if n - i < 3 {
                proof {
                    assert(pre.len() < 3);
                }
                return Err(DecodeError::MalformedUrlEncoding);
            }
            let h1 = s[i + 1];
            let h2 = s[i + 2];
            let ok1 = (0x30 <= h1 && h1 <= 0x39) || (0x41 <= h1 && h1 <= 0x46) || (0x61 <= h1
                && h1 <= 0x66);
            let ok2 = (0x30 <= h2 && h2 <= 0x39) || (0x41 <= h2 && h2 <= 0x46) || (0x61 <= h2
                && h2 <= 0x66);
            proof {
                assert(pre[1] == s@[i + 1]);
                assert(pre[2] == s@[i + 2]);
            }
            if !(ok1 && ok2) {
                return Err(DecodeError::MalformedUrlEncoding);
            }
            let v1: u8 = if 0x30 <= h1 && h1 <= 0x39 {
                h1 - 0x30
            } else if 0x41 <= h1 && h1 <= 0x46 {
                h1 - 0x41 + 10
            } else {
                h1 - 0x61 + 10
            };
            let v2: u8 = if 0x30 <= h2 && h2 <= 0x39 {
                h2 - 0x30
            } else if 0x41 <= h2 && h2 <= 0x46 {
                h2 - 0x41 + 10
            } else {
                h2 - 0x61 + 10
            };
            out.push(v1 * 16 + v2);
            proof {
                assert(pre.skip(3) =~= s@.skip(i + 3));
            }
            i += 3;
        } else {
            out.push(s[i]);
            proof {
                assert(pre.skip(1) =~= s@.skip(i + 1));
            }
            i += 1;
        }
    }
    proof {
        assert(s@.skip(n as int) =~= Seq::<u8>::empty());
        if percent_decode(s@) is Some {
            assert(percent_decode(s@)->Some_0 =~= out@ + Seq::<u8>::empty());
        }
    }
    Ok(out)
}

/// Relies on `String::from_utf8`: it returns `Ok` exactly when the
/// bytes are a well-formed UTF-8 encoding, and the string's
/// characters are then their decoding.
#[verifier::external_body]
fn string_from_utf8(v: Vec<u8>) -> (r: Option<String>)
    ensures
        r is Some <==> valid_utf8(v@),
        r matches Some(t) ==> t@ == decode_utf8(v@),
{
    String::from_utf8(v).ok()
}

/// Percent-decodes a string once.  Exactly the strings whose every
/// `%` heads a two-digit hexadecimal sequence, and whose decoded
/// bytes form well-formed text, decode.
pub fn urldecode(s: &str) -> (r: Result<String, DecodeError>)
    ensures
        r is Ok <==> urldecode_spec(s@) is Some,
        r matches Ok(t) ==> Some(t@) == urldecode_spec(s@),
        r matches Err(e) ==> e == DecodeError::MalformedUrlEncoding,
{
    let b = s.as_bytes();
    let dec = match percent_decode_bytes(b) {
        Ok(v) => v,
        Err(e) => {
            return Err(e);
        },
    };
    match string_from_utf8(dec) {
        Some(t) => Ok(t),
        None => Err(DecodeError::MalformedUrlEncoding),
    }
}

/// Decoding bytes without `%` returns them unchanged.
pub proof fn lemma_decode_no_percent(s: Seq<u8>)
    requires
        forall|i: int| 0 <= i < s.len() ==> #[trigger] s[i] != 0x25,
    ensures
        percent_decode(s) == Some(s),
    decreases s.len(),
{
    if s.len() > 0 {
        lemma_decode_no_percent(s.skip(1));
        assert(seq![s[0]] + s.skip(1) =~= s);
    }
}

/// Decoding shortens any byte string that holds a `%`, and leaves
/// one without a `%` unchanged: so repeated decoding reaches a fixed
/// point or fails after at most as many passes as the string has
/// bytes.
pub proof fn lemma_decode_shrinks(s: Seq<u8>)
    ensures
        percent_decode(s) matches Some(d) ==> d.len() <= s.len(),
        (percent_decode(s) matches Some(d) && (exists|i: int|
            0 <= i < s.len() && #[trigger] s[i] == 0x25)) ==> percent_decode(s)->Some_0.len()
            < s.len(),
        (forall|i: int| 0 <= i < s.len() ==> #[trigger] s[i] != 0x25) ==> percent_decode(s)
            == Some(s),
    decreases s.len(),
{
    if forall|i: int| 0 <= i < s.len() ==> #[trigger] s[i] != 0x25 {
        lemma_decode_no_percent(s);
    } else if s.len() > 0 {
        if s[0] == 0x25 {
            if s.len() >= 3 && is_hex(s[1]) && is_hex(s[2]) {
                lemma_decode_shrinks(s.skip(3));
            }
        } else {
            lemma_decode_shrinks(s.skip(1));
            assert(exists|i: int| 0 <= i < s.skip(1).len() && #[trigger] s.skip(1)[i] == 0x25)
                by {
                let w = choose|i: int| 0 <= i < s.len() && #[trigger] s[i] == 0x25;
                assert(s.skip(1)[w - 1] == s[w]);
            }
        }
    }
}

/// Percent-decoding leaves any string of plain characters unchanged:
/// for text in the ASCII range with no `%`, one decode returns the
/// text itself.
pub proof fn lemma_urldecode_identity(s: Seq<char>)
    requires
        is_ascii_chars(s),
        forall|i: int| 0 <= i < s.len() ==> #[trigger] s[i] != '%',
    ensures
        urldecode_spec(s) == Some(s),
{
    broadcast use vstd::utf8::encode_utf8_valid_utf8, vstd::utf8::encode_utf8_decode_utf8;

    let b = encode_utf8(s);
    is_ascii_chars_encode_utf8(s);
    assert forall|i: int| 0 <= i < b.len() implies #[trigger] b[i] != 0x25 by {
        if b[i] == 0x25 {
            is_ascii_chars_nat_bound(s);
            assert(s[i] as u8 == b[i]);
            assert((s[i] as nat) < 128);
            assert(s[i] as u32 == 0x25) by {
                assert(s[i] as u8 == 0x25);
            }
            char_u32_cast(s[i], 0x25);
            assert(s[i] == (0x25u32 as char));
            assert(('%' as u32) == 0x25);
            char_u32_cast('%', 0x25);
            assert(s[i] == '%');
        }
    }
    lemma_decode_no_percent(b);
}

} // verus!
