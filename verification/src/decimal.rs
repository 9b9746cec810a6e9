//! Decimal text for integers, as it appears in length headers and arguments.

use crate::text::{ascii_text, lemma_ascii_text_encoding, push_char};
use vstd::prelude::*;
use vstd::utf8::encode_utf8;

verus! {

/// Whether `b` is an ASCII digit.
pub open spec fn is_digit(b: u8) -> bool {
    0x30 <= b <= 0x39
}

/// Whether every byte of `s` is an ASCII digit.
pub open spec fn all_digits(s: Seq<u8>) -> bool {
    forall|i: int| 0 <= i < s.len() ==> is_digit(#[trigger] s[i])
}

/// The number that the digits of `s` spell, most significant first.
pub open spec fn digits_value(s: Seq<u8>) -> nat
    decreases s.len(),
{
    if s.len() == 0 {
        0
    } else {
        (digits_value(s.drop_last()) * 10 + (s.last() - 0x30)) as nat
    }
}

/// The digits of `n`, most significant first, without leading zeros; `0` is "0".
pub open spec fn nat_digits(n: nat) -> Seq<u8>
    decreases n,
{
    if n < 10 {
        seq![(n + 0x30) as u8]
    } else {
        nat_digits(n / 10).push((n % 10 + 0x30) as u8)
    }
}

/// The decimal text of `n`: a minus sign for a negative number, then its digits.
pub open spec fn int_digits(n: int) -> Seq<u8> {
    if n < 0 {
        seq![0x2du8] + nat_digits((-n) as nat)
    } else {
        nat_digits(n as nat)
    }
}

/// What an unsigned decimal text means: an optional plus sign, then at least
/// one digit. `None` where the text is not of that form.
pub open spec fn unsigned_value(s: Seq<u8>) -> Option<nat> {
    let body = if s.len() > 0 && s[0] == 0x2b {
        s.subrange(1, s.len() as int)
    } else {
        s
    };
    if body.len() > 0 && all_digits(body) {
        Some(digits_value(body))
    } else {
        None
    }
}

/// What a signed decimal text means: an optional plus or minus sign, then at
/// least one digit. `None` where the text is not of that form.
pub open spec fn signed_value(s: Seq<u8>) -> Option<int> {
    if s.len() > 0 && s[0] == 0x2d {
        let body = s.subrange(1, s.len() as int);
        if body.len() > 0 && all_digits(body) {
            Some(-(digits_value(body) as int))
        } else {
            None
        }
    } else {
        match unsigned_value(s) {
            Some(v) => Some(v as int),
            None => None,
        }
    }
}

/// A prefix of a digit string spells no more than the whole string.
pub proof fn lemma_digits_value_prefix(s: Seq<u8>, k: int)
    requires
        0 <= k <= s.len(),
        all_digits(s),
    ensures
        digits_value(s.subrange(0, k)) <= digits_value(s),
    decreases s.len(),
{
    if k == s.len() {
        assert(s.subrange(0, k) =~= s);
    } else {
        assert(is_digit(s[s.len() - 1]));
        lemma_digits_value_prefix(s.drop_last(), k);
        assert(s.drop_last().subrange(0, k) =~= s.subrange(0, k));
    }
}

/// The number that a run of digits spells, where the run is not empty, holds
/// digits only and spells a number that fits in 64 bits.
pub open spec fn digits_outcome(body: Seq<u8>) -> Option<u64> {
    if body.len() > 0 && all_digits(body) && digits_value(body) <= u64::MAX {
        Some(digits_value(body) as u64)
    } else {
        None
    }
}

/// The bytes of `s` from `start` to its end; none where `start` lies behind
/// the end.
pub open spec fn tail(s: Seq<u8>, start: int) -> Seq<u8> {
    if 0 <= start <= s.len() {
        s.subrange(start, s.len() as int)
    } else {
        Seq::empty()
    }
}

/// Reads the digits of `s` from `start` to its end.
///
/// Succeeds exactly when that part is non-empty, holds digits only and spells a
/// number that fits in 64 bits.
pub fn parse_digits(s: &[u8], start: usize) -> (r: Option<u64>)
    ensures
        r == digits_outcome(tail(s@, start as int)),
{
    let n: usize = s.len();
    if start >= n {
        return None;
    }
    let ghost body = s@.subrange(start as int, n as int);
    let mut acc: u64 = 0;
    let mut i: usize = start;
    while i < n
        invariant
            start <= i <= n,
            n == s@.len(),
            body == s@.subrange(start as int, n as int),
            all_digits(body.subrange(0, i - start)),
            acc == digits_value(body.subrange(0, i - start)),
        decreases n - i,
    {
        let b: u8 = s[i];
        let ghost next = body.subrange(0, i - start + 1);
        proof {
            assert(next.drop_last() =~= body.subrange(0, i - start));
            assert(next.last() == b);
        }
        if b < 0x30 || b > 0x39 {
            proof {
                assert(body[i - start] == b);
            }
            return None;
        }
        let d: u64 = (b - 0x30) as u64;
        if acc > (u64::MAX - d) / 10 {
            proof {
                if all_digits(body) {
                    lemma_digits_value_prefix(body, i - start + 1);
                }
            }
            return None;
        }
        acc = acc * 10 + d;
        proof {
            assert forall|j: int| 0 <= j < next.len() implies is_digit(#[trigger] next[j]) by {
                if j < i - start {
                    assert(body.subrange(0, i - start)[j] == next[j]);
                }
            }
        }
        i = i + 1;
    }
    proof {
        assert(body.subrange(0, i - start) =~= body);
    }
    Some(acc)
}

/// Reads an unsigned decimal number: an optional plus sign, then digits.
///
/// `None` where the text is not of that form or the number does not fit in
/// 64 bits.
pub fn parse_unsigned(s: &[u8]) -> (r: Option<u64>)
    ensures
        r == match unsigned_value(s@) {
            Some(v) => if v <= u64::MAX {
                Some(v as u64)
            } else {
                None
            },
            None => None,
        },
{
    if s.len() > 0 && s[0] == 0x2b {
        parse_digits(s, 1)
    } else {
        proof {
            assert(s@.subrange(0, s@.len() as int) =~= s@);
        }
        parse_digits(s, 0)
    }
}

/// Reads a signed decimal number: an optional plus or minus sign, then digits.
///
/// `None` where the text is not of that form or the number does not fit in a
/// signed 64 bit integer.
pub fn parse_signed(s: &[u8]) -> (r: Option<i64>)
    ensures
        r == match signed_value(s@) {
            Some(v) => if i64::MIN <= v <= i64::MAX {
                Some(v as i64)
            } else {
                None
            },
            None => None,
        },
{
    if s.len() > 0 && s[0] == 0x2d {
        match parse_digits(s, 1) {
            Some(m) => {
                if m <= 0x7fff_ffff_ffff_ffffu64 {
                    Some(-(m as i64))
                } else if m == 0x8000_0000_0000_0000u64 {
                    Some(i64::MIN)
                } else {
                    None
                }
            },
            None => None,
        }
    } else {
        match parse_unsigned(s) {
            Some(m) => {
                if m <= 0x7fff_ffff_ffff_ffffu64 {
                    Some(m as i64)
                } else {
                    None
                }
            },
            None => None,
        }
    }
}

/// The digits of a number are digits, and there is at least one.
pub proof fn lemma_nat_digits_shape(n: nat)
    ensures
        nat_digits(n).len() > 0,
        all_digits(nat_digits(n)),
    decreases n,
{
    if n >= 10 {
        lemma_nat_digits_shape(n / 10);
    }
}

/// Reading the digits of a number gives the number back.
pub proof fn lemma_digits_value_of_nat_digits(n: nat)
    ensures
        digits_value(nat_digits(n)) == n,
    decreases n,
{
    if n < 10 {
        assert(nat_digits(n).drop_last() =~= Seq::<u8>::empty());
        assert(digits_value(Seq::<u8>::empty()) == 0);
    } else {
        lemma_digits_value_of_nat_digits(n / 10);
        assert(nat_digits(n).drop_last() =~= nat_digits(n / 10));
    }
}

/// The decimal text of a natural number reads back as that number.
pub proof fn lemma_unsigned_round_trip(n: nat)
    ensures
        unsigned_value(nat_digits(n)) == Some(n),
{
    lemma_nat_digits_shape(n);
    lemma_digits_value_of_nat_digits(n);
    assert(is_digit(nat_digits(n)[0]));
}

/// The decimal text of an integer reads back as that integer.
pub proof fn lemma_signed_round_trip(n: int)
    ensures
        signed_value(int_digits(n)) == Some(n),
{
    if n < 0 {
        let m = (-n) as nat;
        lemma_nat_digits_shape(m);
        lemma_digits_value_of_nat_digits(m);
        assert(int_digits(n).subrange(1, int_digits(n).len() as int) =~= nat_digits(m));
    } else {
        lemma_unsigned_round_trip(n as nat);
        assert(is_digit(nat_digits(n as nat)[0])) by {
            lemma_nat_digits_shape(n as nat);
        }
    }
}

/// Appends the decimal text of `n` to `out`.
pub fn push_decimal(out: &mut Vec<u8>, n: u64)
    ensures
        final(out)@ == old(out)@ + nat_digits(n as nat),
    decreases n,
{
    if n >= 10 {
        push_decimal(out, n / 10);
    }
    let d: u8 = (n % 10) as u8;
    out.push(d + 0x30);
    proof {
        assert(out@ =~= old(out)@ + nat_digits(n as nat));
    }
}

/// Appends the decimal text of `n`, with a minus sign where it is negative.
pub fn push_signed_decimal(out: &mut Vec<u8>, n: i64)
    ensures
        final(out)@ == old(out)@ + int_digits(n as int),
{
    if n < 0 {
        out.push(0x2d);
        let m: u64 = if n == i64::MIN {
            0x8000_0000_0000_0000u64
        } else {
            (-n) as u64
        };
        push_decimal(out, m);
        proof {
            assert(out@ =~= old(out)@ + int_digits(n as int));
        }
    } else {
        push_decimal(out, n as u64);
    }
}

/// The decimal text of a natural number, as characters.
pub open spec fn nat_text(n: nat) -> Seq<char> {
    ascii_text(nat_digits(n))
}

/// The decimal text of an integer, as characters.
pub open spec fn int_text(n: int) -> Seq<char> {
    ascii_text(int_digits(n))
}

/// The bytes of a decimal text are below 0x80.
pub proof fn lemma_int_digits_ascii(n: int)
    ensures
        forall|i: int| 0 <= i < int_digits(n).len() ==> #[trigger] int_digits(n)[i] < 0x80,
{
    if n < 0 {
        lemma_nat_digits_shape((-n) as nat);
        assert forall|i: int| 0 <= i < int_digits(n).len() implies #[trigger] int_digits(n)[i]
            < 0x80 by {
            if i > 0 {
                assert(is_digit(nat_digits((-n) as nat)[i - 1]));
            }
        }
    } else {
        lemma_nat_digits_shape(n as nat);
        assert forall|i: int| 0 <= i < int_digits(n).len() implies #[trigger] int_digits(n)[i]
            < 0x80 by {
            assert(is_digit(nat_digits(n as nat)[i]));
        }
    }
}

/// A decimal text is encoded as its digits, so it reads back as its number.
pub proof fn lemma_decimal_text(n: int)
    ensures
        encode_utf8(int_text(n)) == int_digits(n),
        signed_value(encode_utf8(int_text(n))) == Some(n),
        n >= 0 ==> encode_utf8(nat_text(n as nat)) == nat_digits(n as nat),
        n >= 0 ==> unsigned_value(encode_utf8(nat_text(n as nat))) == Some(n as nat),
{
    lemma_int_digits_ascii(n);
    lemma_ascii_text_encoding(int_digits(n));
    lemma_signed_round_trip(n);
    if n >= 0 {
        lemma_unsigned_round_trip(n as nat);
    }
}

/// The text whose characters are the bytes of `bytes`, each below 0x80.
fn ascii_string(bytes: &Vec<u8>) -> (r: String)
    requires
        forall|i: int| 0 <= i < bytes@.len() ==> #[trigger] bytes@[i] < 0x80,
    ensures
        r@ == ascii_text(bytes@),
{
    let mut text = String::new();
    let mut i: usize = 0;
    while i < bytes.len()
        invariant
            i <= bytes.len(),
            text@ == ascii_text(bytes@.subrange(0, i as int)),
        decreases bytes.len() - i,
    {
        push_char(&mut text, bytes[i] as char);
        proof {
            assert(text@ =~= ascii_text(bytes@.subrange(0, i + 1)));
        }
        i = i + 1;
    }
    proof {
        assert(bytes@.subrange(0, i as int) =~= bytes@);
    }
    text
}

/// The decimal text of `n`.
pub fn decimal_string(n: u64) -> (r: String)
    ensures
        r@ == nat_text(n as nat),
{
    let mut bytes: Vec<u8> = Vec::new();
    push_decimal(&mut bytes, n);
    proof {
        assert(bytes@ =~= int_digits(n as int));
        lemma_int_digits_ascii(n as int);
        assert forall|i: int| 0 <= i < bytes@.len() implies #[trigger] bytes@[i] < 0x80 by {
            assert(int_digits(n as int)[i] < 0x80);
        }
    }
    ascii_string(&bytes)
}

/// The decimal text of `n`, with a minus sign where it is negative.
pub fn signed_decimal_string(n: i64) -> (r: String)
    ensures
        r@ == int_text(n as int),
{
    let mut bytes: Vec<u8> = Vec::new();
    push_signed_decimal(&mut bytes, n);
    proof {
        assert(bytes@ =~= int_digits(n as int));
        lemma_int_digits_ascii(n as int);
        assert forall|i: int| 0 <= i < bytes@.len() implies #[trigger] bytes@[i] < 0x80 by {
            assert(int_digits(n as int)[i] < 0x80);
        }
    }
    ascii_string(&bytes)
}

} // verus!
