//! Decoding of the export's raw timestamps: microseconds since the
//! epoch, written as one undelimited decimal numeral of at least
//! seven digits.  The trailing six digits are the microseconds
//! within the second; the leading digits are whole seconds and may
//! carry a sign.
//!
//! Events are ordered by comparing the raw strings byte for byte;
//! [`lemma_lex_order_matches_decoded`] shows that for the fixed-width
//! timestamps of one export this agrees with numeric order of the
//! decoded values.

use vstd::prelude::*;
use vstd::string::StringSliceAdditionalSpecFns;
use vstd::utf8::encode_utf8;
use crate::DecodeError;
use crate::raw::EventHeader;

verus! {

pub open spec fn is_digit(b: u8) -> bool {
    0x30 <= b <= 0x39
}

pub open spec fn digit_val(b: u8) -> int {
    b - 0x30
}

pub open spec fn all_digits(s: Seq<u8>) -> bool {
    forall|i: int| 0 <= i < s.len() ==> is_digit(#[trigger] s[i])
}

/// The value of a decimal numeral, most significant digit first.
pub open spec fn numeral(s: Seq<u8>) -> int
    decreases s.len(),
{
    if s.len() == 0 {
        0
    } else {
        numeral(s.drop_last()) * 10 + digit_val(s.last())
    }
}

pub open spec fn pow10(n: nat) -> int
    decreases n,
{
    if n == 0 {
        1
    } else {
        10 * pow10((n - 1) as nat)
    }
}

pub proof fn lemma_pow10_pos(n: nat)
    ensures
        pow10(n) >= 1,
    decreases n,
{
    if n > 0 {
        lemma_pow10_pos((n - 1) as nat);
    }
}

/// A numeral of `n` digits is below `10^n`.
pub proof fn lemma_numeral_bound(s: Seq<u8>)
    requires
        all_digits(s),
    ensures
        0 <= numeral(s) < pow10(s.len()),
    decreases s.len(),
{
    if s.len() == 0 {
    } else {
        assert(all_digits(s.drop_last())) by {
            assert(forall|i: int|
                0 <= i < s.len() - 1 ==> s.drop_last()[i] == #[trigger] s[i]);
        }
        lemma_numeral_bound(s.drop_last());
        lemma_pow10_pos((s.len() - 1) as nat);
        assert(numeral(s.drop_last()) * 10 + digit_val(s.last()) < pow10(s.len())) by (nonlinear_arith)
            requires
                numeral(s.drop_last()) < pow10((s.len() - 1) as nat),
                numeral(s.drop_last()) >= 0,
                digit_val(s.last()) <= 9,
                pow10(s.len()) == 10 * pow10((s.len() - 1) as nat),
        ;
    }
}

/// Reading one more digit multiplies by ten and adds it.
pub proof fn lemma_numeral_step(s: Seq<u8>, k: int)
    requires
        0 <= k < s.len(),
    ensures
        numeral(s.subrange(0, k + 1)) == numeral(s.subrange(0, k)) * 10 + digit_val(s[k]),
{
    let t = s.subrange(0, k + 1);
    assert(t.drop_last() =~= s.subrange(0, k));
    assert(t.last() == s[k]);
}

/// A numeral never shrinks as digits are appended.
pub proof fn lemma_numeral_prefix_le(s: Seq<u8>, k: int)
    requires
        all_digits(s),
        0 <= k <= s.len(),
    ensures
        numeral(s.subrange(0, k)) <= numeral(s),
    decreases s.len() - k,
{
    if k == s.len() {
        assert(s.subrange(0, k) =~= s);
    } else {
        lemma_numeral_step(s, k);
        assert(all_digits(s.subrange(0, k))) by {
            assert(forall|i: int|
                0 <= i < k ==> s.subrange(0, k)[i] == #[trigger] s[i]);
        }
        assert(all_digits(s.subrange(0, k + 1))) by {
            assert(forall|i: int|
                0 <= i < k + 1 ==> s.subrange(0, k + 1)[i] == #[trigger] s[i]);
        }
        lemma_numeral_bound(s.subrange(0, k));
        assert(numeral(s.subrange(0, k)) <= numeral(s.subrange(0, k + 1)));
        lemma_numeral_prefix_le(s, k + 1);
    }
}

/// Concatenation: the left block is shifted by the width of the
/// right block.
pub proof fn lemma_numeral_concat(x: Seq<u8>, y: Seq<u8>)
    ensures
        numeral(x + y) == numeral(x) * pow10(y.len()) + numeral(y),
    decreases y.len(),
{
    if y.len() == 0 {
        assert(x + y =~= x);
    } else {
        let y1 = y.drop_last();
        lemma_numeral_concat(x, y1);
        assert((x + y).drop_last() =~= x + y1);
        assert((x + y).last() == y.last());
        assert((numeral(x) * pow10(y1.len()) + numeral(y1)) * 10 + digit_val(y.last())
            == numeral(x) * (10 * pow10(y1.len())) + (numeral(y1) * 10 + digit_val(y.last())))
            by (nonlinear_arith);
    }
}

/// The bytes that hold whole seconds.
pub open spec fn sec_bytes(s: Seq<u8>) -> Seq<u8> {
    s.subrange(0, s.len() - 6)
}

/// The six bytes that hold microseconds within the second.
pub open spec fn micro_bytes(s: Seq<u8>) -> Seq<u8> {
    s.subrange(s.len() - 6, s.len() as int)
}

/// The seconds part: an optional minus sign, then at least one digit.
pub open spec fn sec_part_wf(p: Seq<u8>) -> bool {
    if p.len() > 0 && p[0] == 0x2d {
        p.len() >= 2 && all_digits(p.skip(1))
    } else {
        p.len() >= 1 && all_digits(p)
    }
}

pub open spec fn sec_value(p: Seq<u8>) -> int {
    if p.len() > 0 && p[0] == 0x2d {
        -numeral(p.skip(1))
    } else {
        numeral(p)
    }
}

/// A raw timestamp is well formed when it has at least seven bytes,
/// its last six bytes are digits, its leading part is a signed
/// numeral, and the seconds value fits a 64-bit signed integer.
pub open spec fn ts_wf(s: Seq<u8>) -> bool {
    &&& s.len() >= 7
    &&& all_digits(micro_bytes(s))
    &&& sec_part_wf(sec_bytes(s))
    &&& i64::MIN <= sec_value(sec_bytes(s)) <= i64::MAX
}

/// Parses the digits `b[from..to]` as an unsigned numeral, stopping
/// with `None` on a non-digit or when the value would not fit.
#[verifier::loop_isolation(false)]
fn parse_digits_u64(b: &[u8], from: usize, to: usize) -> (r: Option<u64>)
    requires
        from <= to <= b@.len(),
    ensures
        r matches Some(u) ==> all_digits(b@.subrange(from as int, to as int)) && u == numeral(
            b@.subrange(from as int, to as int),
        ),
        r is None ==> !all_digits(b@.subrange(from as int, to as int)) || numeral(
            b@.subrange(from as int, to as int),
        ) > u64::MAX,
{
    let whole = Ghost(b@.subrange(from as int, to as int));
    let mut acc: u64 = 0;
    let mut i: usize = from;
    while i < to
        invariant
            from <= i <= to,
            acc == numeral(b@.subrange(from as int, i as int)),
            all_digits(b@.subrange(from as int, i as int)),
        decreases to - i,
    {
        let d = b[i];
        if !(0x30 <= d && d <= 0x39) {
            proof {
                assert(whole@[i - from] == b@[i as int]);
            }
            return None;
        }
        let dv: u64 = (d - 0x30) as u64;
        proof {
            lemma_numeral_step(whole@, i - from);
            assert(whole@.subrange(0, i - from) =~= b@.subrange(from as int, i as int));
            assert(whole@.subrange(0, i - from + 1) =~= b@.subrange(from as int, i + 1 as int));
            assert(whole@[i - from] == b@[i as int]);
        }
        if acc > (u64::MAX - dv) / 10 {
            proof {
                assert(acc * 10 + dv > u64::MAX) by (nonlinear_arith)
                    requires
                        acc > (u64::MAX - dv) / 10,
                        0 <= dv <= 9,
                        acc >= 0,
                ;
                assert(all_digits(whole@) ==> numeral(whole@) > u64::MAX) by {
                    if all_digits(whole@) {
                        lemma_numeral_prefix_le(whole@, i - from + 1);
                    }
                }
            }
            return None;
        }
        proof {
            assert(acc * 10 + dv <= u64::MAX) by (nonlinear_arith)
                requires
                    acc <= (u64::MAX - dv) / 10,
                    0 <= dv <= 9,
                    acc >= 0,
            ;
        }
        acc = acc * 10 + dv;
        proof {
            assert forall|j: int| 0 <= j < i + 1 - from implies is_digit(
                #[trigger] b@.subrange(from as int, i + 1 as int)[j],
            ) by {
                assert(b@.subrange(from as int, i + 1 as int)[j] == b@[from + j]);
                if j < i - from {
                    assert(b@.subrange(from as int, i as int)[j] == b@[from + j]);
                }
            }
        }
        i += 1;
    }
    proof {
        assert(b@.subrange(from as int, to as int) == b@.subrange(from as int, i as int));
    }
    Some(acc)
}

/// Decodes a raw timestamp into whole seconds since the epoch and
/// nanoseconds within the second.  Exactly the well-formed strings
/// decode; anything else is a malformed timestamp, surfaced rather
/// than defaulted, since a bad timestamp corrupts sort order.
#[verifier::loop_isolation(false)]
pub fn decode_timestamp(s: &str) -> (r: Result<(i64, u32), DecodeError>)
    ensures
        r is Ok <==> ts_wf(s.spec_bytes()),
        r matches Ok(t) ==> t.0 == sec_value(sec_bytes(s.spec_bytes())) && t.1 == numeral(
            micro_bytes(s.spec_bytes()),
        ) * 1000,
        r matches Err(e) ==> e == DecodeError::MalformedTimestamp,
{
    let b = s.as_bytes();
    let n = b.len();
    if n < 7 {
        return Err(DecodeError::MalformedTimestamp);
    }
    let micros = match parse_digits_u64(b, n - 6, n) {
        Some(u) => u,
        None => {
            proof {
                lemma_numeral_bound_micro(s.spec_bytes());
            }
            return Err(DecodeError::MalformedTimestamp);
        },
    };
    proof {
        assert(micro_bytes(s.spec_bytes()) == b@.subrange(n - 6, n as int));
        lemma_numeral_bound(b@.subrange(n - 6, n as int));
        assert(pow10(6) == 1000000) by {
        reveal_with_fuel(pow10, 7);
    }
    }
    let neg = b[0] == 0x2d;
    let start: usize = if neg { 1 } else { 0 };
    if n - 6 <= start {
        return Err(DecodeError::MalformedTimestamp);
    }
    let mag = match parse_digits_u64(b, start, n - 6) {
        Some(u) => u,
        None => {
            proof {
                lemma_sec_refused(s.spec_bytes(), neg);
            }
            return Err(DecodeError::MalformedTimestamp);
        },
    };
    proof {
        if neg {
            assert(sec_bytes(s.spec_bytes()).skip(1) =~= b@.subrange(start as int, n - 6));
        } else {
            assert(sec_bytes(s.spec_bytes()) =~= b@.subrange(start as int, n - 6));
        }
    }
    let secs: i64 = if neg {
        if mag > 9223372036854775808u64 {
            return Err(DecodeError::MalformedTimestamp);
        }
        if mag == 9223372036854775808u64 {
            i64::MIN
        } else {
            -(mag as i64)
        }
    } else {
        if mag > i64::MAX as u64 {
            return Err(DecodeError::MalformedTimestamp);
        }
        mag as i64
    };
    Ok((secs, (micros as u32) * 1000))
}

/// If the trailing six bytes refuse to parse, they hold a non-digit:
/// six digits always fit a 64-bit integer.
proof fn lemma_numeral_bound_micro(s: Seq<u8>)
    requires
        s.len() >= 7,
        all_digits(s.subrange(s.len() - 6, s.len() as int)) ==> numeral(
            s.subrange(s.len() - 6, s.len() as int),
        ) > u64::MAX,
    ensures
        !ts_wf(s),
{
    if all_digits(micro_bytes(s)) {
        lemma_numeral_bound(micro_bytes(s));
        assert(pow10(6) == 1000000) by {
        reveal_with_fuel(pow10, 7);
    }
    }
}

/// If the seconds digits refuse to parse, the timestamp is not well
/// formed: either they hold a non-digit or the value is out of range.
proof fn lemma_sec_refused(s: Seq<u8>, neg: bool)
    requires
        s.len() >= 7,
        neg == (s[0] == 0x2d),
        neg ==> s.len() - 6 >= 2,
        !neg ==> s.len() - 6 >= 1,
        ({
            let from = if neg { 1int } else { 0int };
            !all_digits(s.subrange(from, s.len() - 6)) || numeral(s.subrange(from, s.len() - 6))
                > u64::MAX
        }),
    ensures
        !ts_wf(s),
{
    let from = if neg { 1int } else { 0int };
    let p = sec_bytes(s);
    if neg {
        assert(p.skip(1) =~= s.subrange(from, s.len() - 6));
    } else {
        assert(p =~= s.subrange(from, s.len() - 6));
    }
}

impl EventHeader {
    /// The event's decoded time: whole seconds since the epoch and
    /// nanoseconds within the second, from the raw timestamp field.
    pub fn timestamp(&self) -> (r: Result<(i64, u32), DecodeError>)
        ensures
            r is Ok <==> ts_wf(encode_utf8(self.timestamp@)),
            r matches Ok(t) ==> t.0 == sec_value(sec_bytes(encode_utf8(self.timestamp@)))
                && t.1 == numeral(micro_bytes(encode_utf8(self.timestamp@))) * 1000,
            r matches Err(e) ==> e == DecodeError::MalformedTimestamp,
    {
        decode_timestamp(self.timestamp.as_str())
    }
}

/// Byte-wise lexicographic order, as the raw strings are compared
/// when events are sorted.
pub open spec fn lex_lt(a: Seq<u8>, b: Seq<u8>) -> bool
    decreases a.len(),
{
    if b.len() == 0 {
        false
    } else if a.len() == 0 {
        true
    } else if a[0] != b[0] {
        a[0] < b[0]
    } else {
        lex_lt(a.drop_first(), b.drop_first())
    }
}

/// The leading digit carries its place value.
proof fn lemma_numeral_front(s: Seq<u8>)
    requires
        s.len() >= 1,
    ensures
        numeral(s) == digit_val(s[0]) * pow10((s.len() - 1) as nat) + numeral(s.drop_first()),
    decreases s.len(),
{
    if s.len() == 1 {
        assert(s.drop_last() =~= Seq::<u8>::empty());
        assert(s.drop_first() =~= Seq::<u8>::empty());
        assert(s.last() == s[0]);
    } else {
        let t = s.drop_last();
        lemma_numeral_front(t);
        assert(t[0] == s[0]);
        assert(t.drop_first() =~= s.drop_first().drop_last());
        assert(s.drop_first().last() == s.last());
        assert((digit_val(s[0]) * pow10((s.len() - 2) as nat) + numeral(s.drop_first().drop_last()))
            * 10 + digit_val(s.last()) == digit_val(s[0]) * (10 * pow10((s.len() - 2) as nat)) + (
        numeral(s.drop_first().drop_last()) * 10 + digit_val(s.last()))) by (nonlinear_arith);
    }
}

/// On equal-length digit strings, byte order implies numeric order.
proof fn lemma_lex_lt_implies_lt(a: Seq<u8>, b: Seq<u8>)
    requires
        a.len() == b.len(),
        all_digits(a),
        all_digits(b),
        lex_lt(a, b),
    ensures
        numeral(a) < numeral(b),
    decreases a.len(),
{
    if a[0] != b[0] {
        lemma_numeral_front(a);
        lemma_numeral_front(b);
        assert(all_digits(a.drop_first()) && all_digits(b.drop_first())) by {
            assert(forall|i: int|
                0 <= i < a.len() - 1 ==> a.drop_first()[i] == #[trigger] a[i + 1]);
            assert(forall|i: int|
                0 <= i < b.len() - 1 ==> b.drop_first()[i] == #[trigger] b[i + 1]);
        }
        lemma_numeral_bound(a.drop_first());
        lemma_numeral_bound(b.drop_first());
        lemma_pow10_pos((a.len() - 1) as nat);
        assert(numeral(a) < numeral(b)) by (nonlinear_arith)
            requires
                numeral(a) == digit_val(a[0]) * pow10((a.len() - 1) as nat) + numeral(
                    a.drop_first(),
                ),
                numeral(b) == digit_val(b[0]) * pow10((b.len() - 1) as nat) + numeral(
                    b.drop_first(),
                ),
                a.len() == b.len(),
                digit_val(a[0]) + 1 <= digit_val(b[0]),
                0 <= numeral(a.drop_first()) < pow10((a.len() - 1) as nat),
                0 <= numeral(b.drop_first()),
                pow10((a.len() - 1) as nat) >= 1,
        ;
    } else {
        assert(all_digits(a.drop_first()) && all_digits(b.drop_first())) by {
            assert(forall|i: int|
                0 <= i < a.len() - 1 ==> a.drop_first()[i] == #[trigger] a[i + 1]);
            assert(forall|i: int|
                0 <= i < b.len() - 1 ==> b.drop_first()[i] == #[trigger] b[i + 1]);
        }
        lemma_lex_lt_implies_lt(a.drop_first(), b.drop_first());
        lemma_numeral_front(a);
        lemma_numeral_front(b);
    }
}

/// Equal-length strings that neither precedes are equal.
proof fn lemma_lex_trichotomy(a: Seq<u8>, b: Seq<u8>)
    requires
        a.len() == b.len(),
        !lex_lt(a, b),
        !lex_lt(b, a),
    ensures
        a == b,
    decreases a.len(),
{
    if a.len() == 0 {
        assert(a =~= b);
    } else {
        lemma_lex_trichotomy(a.drop_first(), b.drop_first());
        assert(a =~= seq![a[0]] + a.drop_first());
        assert(b =~= seq![b[0]] + b.drop_first());
    }
}

/// Byte-wise order of equal-length digit strings is exactly numeric
/// order.
pub proof fn lemma_digits_lex_matches_numeric(a: Seq<u8>, b: Seq<u8>)
    requires
        a.len() == b.len(),
        all_digits(a),
        all_digits(b),
    ensures
        lex_lt(a, b) <==> numeral(a) < numeral(b),
{
    if lex_lt(a, b) {
        lemma_lex_lt_implies_lt(a, b);
    } else if lex_lt(b, a) {
        lemma_lex_lt_implies_lt(b, a);
    } else {
        lemma_lex_trichotomy(a, b);
    }
}

/// Byte-wise order of two equal-length, digit-only raw timestamps
/// agrees with numeric order of their decoded values: first by whole
/// seconds, then by nanoseconds.  This is what makes sorting events
/// by the raw strings sound for the fixed-width timestamps of one
/// export.
pub proof fn lemma_lex_order_matches_decoded(a: Seq<u8>, b: Seq<u8>)
    requires
        a.len() == b.len(),
        a.len() >= 7,
        all_digits(a),
        all_digits(b),
    ensures
        lex_lt(a, b) <==> (numeral(sec_bytes(a)) < numeral(sec_bytes(b)) || (numeral(sec_bytes(a))
            == numeral(sec_bytes(b)) && numeral(micro_bytes(a)) * 1000 < numeral(micro_bytes(b))
            * 1000)),
{
    lemma_digits_lex_matches_numeric(a, b);
    lemma_split_digits(a);
    lemma_split_digits(b);
    let sa = numeral(sec_bytes(a));
    let sb = numeral(sec_bytes(b));
    let ma = numeral(micro_bytes(a));
    let mb = numeral(micro_bytes(b));
    assert(pow10(6) == 1000000) by {
        reveal_with_fuel(pow10, 7);
    }
    assert((sa * 1000000 + ma < sb * 1000000 + mb) <==> (sa < sb || (sa == sb && ma < mb)))
        by (nonlinear_arith)
        requires
            0 <= ma < 1000000,
            0 <= mb < 1000000,
            0 <= sa,
            0 <= sb,
    ;
}

/// A digit-only timestamp splits into its seconds and microsecond
/// blocks by place value.
proof fn lemma_split_digits(s: Seq<u8>)
    requires
        s.len() >= 7,
        all_digits(s),
    ensures
        numeral(s) == numeral(sec_bytes(s)) * 1000000 + numeral(micro_bytes(s)),
        0 <= numeral(micro_bytes(s)) < 1000000,
        0 <= numeral(sec_bytes(s)),
{
    assert(s =~= sec_bytes(s) + micro_bytes(s));
    lemma_numeral_concat(sec_bytes(s), micro_bytes(s));
    assert(all_digits(sec_bytes(s)) && all_digits(micro_bytes(s))) by {
        assert(forall|i: int|
            0 <= i < s.len() - 6 ==> sec_bytes(s)[i] == #[trigger] s[i]);
        assert(forall|i: int|
            0 <= i < 6 ==> micro_bytes(s)[i] == #[trigger] s[i + s.len() - 6]);
    }
    lemma_numeral_bound(micro_bytes(s));
    lemma_numeral_bound(sec_bytes(s));
    assert(pow10(6) == 1000000) by {
        reveal_with_fuel(pow10, 7);
    }
    assert(numeral(s) == numeral(sec_bytes(s)) * 1000000 + numeral(micro_bytes(s)));
}

} // verus!
