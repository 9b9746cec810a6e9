//! Text helpers: comparison of strings, change of case and UTF-8 decoding.

use vstd::prelude::*;
use vstd::utf8::{
    decode_utf8, encode_scalar, encode_utf8, has_width_1_encoding, is_ascii_chars, valid_utf8,
};

verus! {

/// The lowercase form of a text, as `str::to_lowercase` computes it.
pub uninterp spec fn lowercase_of(s: Seq<char>) -> Seq<char>;

/// Calls `str::to_lowercase`. Trusted: the result is the lowercase form of the
/// argument, which depends on the argument alone.
#[verifier::external_body]
pub(crate) fn lowercase(s: &str) -> (r: String)
    ensures
        r@ == lowercase_of(s@),
{
    s.to_lowercase()
}

/// The parts of a text between its runs of white space, in order, as
/// `str::split_whitespace` gives them.
pub uninterp spec fn whitespace_split(s: Seq<char>) -> Seq<Seq<char>>;

/// The texts that `parts` hold, in order.
pub open spec fn part_texts(parts: Seq<String>) -> Seq<Seq<char>> {
    Seq::new(parts.len(), |i: int| parts[i]@)
}

/// Calls `str::split_whitespace` and copies the parts. Trusted: the parts
/// depend on the text alone.
#[verifier::external_body]
pub(crate) fn split_whitespace(s: &str) -> (r: Vec<String>)
    ensures
        part_texts(r@) == whitespace_split(s@),
{
    s.split_whitespace().map(String::from).collect()
}

/// The error of `String::from_utf8` for bytes that are no text.
#[verifier::external_type_specification]
#[verifier::external_body]
pub struct ExFromUtf8Error(std::string::FromUtf8Error);

/// Calls `String::from_utf8` on a copy of `bytes`. Trusted: it succeeds exactly
/// on well-formed UTF-8, and the text it returns is what the bytes decode to.
#[verifier::external_body]
fn from_utf8(bytes: &[u8]) -> (r: Result<String, std::string::FromUtf8Error>)
    ensures
        r is Ok <==> valid_utf8(bytes@),
        r is Ok ==> r->Ok_0@ == decode_utf8(bytes@),
{
    String::from_utf8(bytes.to_vec())
}

/// The text that `bytes` encode, where they are well-formed UTF-8.
pub fn utf8_text(bytes: &[u8]) -> (r: Option<String>)
    ensures
        r is Some <==> valid_utf8(bytes@),
        r is Some ==> r->0@ == decode_utf8(bytes@),
{
    match from_utf8(bytes) {
        Ok(text) => Some(text),
        Err(_) => None,
    }
}

/// Calls `String::push`. Trusted: the character is appended to the text.
#[verifier::external_body]
pub(crate) fn push_char(text: &mut String, c: char)
    ensures
        final(text)@ == old(text)@.push(c),
{
    text.push(c)
}

/// Whether a text fits on one line: it holds no carriage return and no line
/// feed.
pub open spec fn is_line(text: Seq<char>) -> bool {
    forall|i: int| 0 <= i < text.len() ==> #[trigger] text[i] != '\r' && text[i] != '\n'
}

/// A byte of the encoding of a character is below 0x80 only where it is the
/// character itself.
proof fn lemma_scalar_low_byte(c: char, k: int)
    requires
        0 <= k < encode_scalar(c as u32).len(),
        encode_scalar(c as u32)[k] < 0x80,
    ensures
        encode_scalar(c as u32)[k] == c as u32,
{
    let v = c as u32;
    vstd::utf8::char_is_scalar(c);
    assert(forall|y: u8| (0x80u8 | y) >= 0x80u8) by (bit_vector);
    assert(forall|y: u8| (0xC0u8 | y) >= 0x80u8) by (bit_vector);
    assert(forall|y: u8| (0xE0u8 | y) >= 0x80u8) by (bit_vector);
    assert(forall|y: u8| (0xF0u8 | y) >= 0x80u8) by (bit_vector);
    if has_width_1_encoding(v) {
        assert((v & 0x7F) as u8 == v) by (bit_vector)
            requires
                v <= 0x7F,
        ;
    }
}

/// The encoding of a one-line text holds no carriage return and no line feed.
pub proof fn lemma_line_encoding(text: Seq<char>)
    requires
        is_line(text),
    ensures
        forall|i: int|
            0 <= i < encode_utf8(text).len() ==> #[trigger] encode_utf8(text)[i] != 0x0d
                && encode_utf8(text)[i] != 0x0a,
    decreases text.len(),
{
    if text.len() > 0 {
        let head = encode_scalar(text[0] as u32);
        let tail = encode_utf8(text.drop_first());
        assert(is_line(text.drop_first())) by {
            let rest = text.drop_first();
            assert forall|i: int| 0 <= i < rest.len() implies #[trigger] rest[i] != '\r' && rest[i]
                != '\n' by {
                assert(rest[i] == text[i + 1]);
            }
        }
        lemma_line_encoding(text.drop_first());
        assert forall|i: int| 0 <= i < encode_utf8(text).len() implies #[trigger] encode_utf8(
            text,
        )[i] != 0x0d && encode_utf8(text)[i] != 0x0a by {
            assert(encode_utf8(text) == head + tail);
            if i < head.len() {
                assert(encode_utf8(text)[i] == head[i]);
                if head[i] < 0x80 {
                    lemma_scalar_low_byte(text[0], i);
                    assert(text[0] != '\r' && text[0] != '\n');
                    assert('\r' as u32 == 0x0d && '\n' as u32 == 0x0a);
                    if head[i] == 0x0d {
                        vstd::utf8::char_u32_cast(text[0], 0x0du32);
                        vstd::utf8::char_u32_cast('\r', 0x0du32);
                    }
                    if head[i] == 0x0a {
                        vstd::utf8::char_u32_cast(text[0], 0x0au32);
                        vstd::utf8::char_u32_cast('\n', 0x0au32);
                    }
                }
            } else {
                assert(encode_utf8(text)[i] == tail[i - head.len()]);
            }
        }
    }
}

/// Two texts with the same UTF-8 encoding are the same text.
pub proof fn lemma_encode_utf8_injective(a: Seq<char>, b: Seq<char>)
    requires
        encode_utf8(a) == encode_utf8(b),
    ensures
        a == b,
{
    vstd::utf8::encode_utf8_decode_utf8(a);
    vstd::utf8::encode_utf8_decode_utf8(b);
}

/// Whether two byte strings are equal.
pub fn bytes_eq(a: &[u8], b: &[u8]) -> (r: bool)
    ensures
        r == (a@ == b@),
{
    if a.len() != b.len() {
        return false;
    }
    let mut i: usize = 0;
    while i < a.len()
        invariant
            i <= a.len(),
            a.len() == b.len(),
            a@.subrange(0, i as int) == b@.subrange(0, i as int),
        decreases a.len() - i,
    {
        if a[i] != b[i] {
            return false;
        }
        proof {
            assert(a@.subrange(0, i + 1) =~= a@.subrange(0, i as int).push(a@[i as int]));
            assert(b@.subrange(0, i + 1) =~= b@.subrange(0, i as int).push(b@[i as int]));
        }
        i = i + 1;
    }
    proof {
        assert(a@ =~= a@.subrange(0, i as int));
        assert(b@ =~= b@.subrange(0, i as int));
    }
    true
}

/// Whether two texts are equal, character for character.
pub fn str_eq(a: &str, b: &str) -> (r: bool)
    ensures
        r == (a@ == b@),
{
    let same = bytes_eq(a.as_bytes(), b.as_bytes());
    proof {
        if same {
            lemma_encode_utf8_injective(a@, b@);
        }
    }
    same
}

/// The lowercase form of an ASCII capital letter; any other byte is itself.
pub open spec fn ascii_lower(b: u8) -> u8 {
    if 0x41 <= b <= 0x5a {
        (b + 0x20) as u8
    } else {
        b
    }
}

/// The bytes of `s` with every ASCII capital letter made lowercase.
pub open spec fn ascii_lowered(s: Seq<u8>) -> Seq<u8> {
    Seq::new(s.len(), |i: int| ascii_lower(s[i]))
}

/// Whether two texts are equal when the case of ASCII letters is ignored.
pub open spec fn same_ignoring_case(a: Seq<char>, b: Seq<char>) -> bool {
    ascii_lowered(encode_utf8(a)) == ascii_lowered(encode_utf8(b))
}

/// Whether two texts are equal when the case of ASCII letters is ignored.
pub fn eq_ignore_case(a: &str, b: &str) -> (r: bool)
    ensures
        r == same_ignoring_case(a@, b@),
{
    let x = a.as_bytes();
    let y = b.as_bytes();
    if x.len() != y.len() {
        proof {
            assert(ascii_lowered(x@).len() != ascii_lowered(y@).len());
        }
        return false;
    }
    let mut i: usize = 0;
    while i < x.len()
        invariant
            i <= x.len(),
            x.len() == y.len(),
            x@ == encode_utf8(a@),
            y@ == encode_utf8(b@),
            forall|j: int| 0 <= j < i ==> ascii_lower(#[trigger] x@[j]) == ascii_lower(y@[j]),
        decreases x.len() - i,
    {
        let p: u8 = x[i];
        let q: u8 = y[i];
        let lp: u8 = if 0x41 <= p && p <= 0x5a {
            p + 0x20
        } else {
            p
        };
        let lq: u8 = if 0x41 <= q && q <= 0x5a {
            q + 0x20
        } else {
            q
        };
        if lp != lq {
            proof {
                assert(ascii_lowered(x@)[i as int] != ascii_lowered(y@)[i as int]);
            }
            return false;
        }
        i = i + 1;
    }
    proof {
        assert(ascii_lowered(x@) =~= ascii_lowered(y@));
    }
    true
}

/// The text whose characters are the bytes of `bytes`.
pub open spec fn ascii_text(bytes: Seq<u8>) -> Seq<char> {
    Seq::new(bytes.len(), |i: int| bytes[i] as char)
}

/// A text made of bytes below 0x80 is encoded as those bytes.
pub proof fn lemma_ascii_text_encoding(bytes: Seq<u8>)
    requires
        forall|i: int| 0 <= i < bytes.len() ==> #[trigger] bytes[i] < 0x80,
    ensures
        encode_utf8(ascii_text(bytes)) == bytes,
{
    let text = ascii_text(bytes);
    assert(is_ascii_chars(text)) by {
        assert forall|i: int| 0 <= i < text.len() implies '\0' <= #[trigger] text[i]
            <= '\u{7f}' by {
            assert(bytes[i] < 0x80);
        }
    }
    vstd::utf8::is_ascii_chars_encode_utf8(text);
    assert(encode_utf8(text) =~= bytes) by {
        assert forall|i: int| 0 <= i < bytes.len() implies encode_utf8(text)[i] == bytes[i] by {
            assert(text[i] as u8 == encode_utf8(text)[i]);
            assert(bytes[i] < 0x80);
        }
    }
}

/// An ASCII text is encoded byte for character, so two ASCII texts are equal
/// when case is ignored exactly where they have the same length and their
/// characters are equal once capitals are made lowercase.
pub proof fn lemma_same_ignoring_case_ascii(a: Seq<char>, b: Seq<char>)
    requires
        is_ascii_chars(a),
        is_ascii_chars(b),
    ensures
        same_ignoring_case(a, b) <==> (a.len() == b.len() && forall|i: int|
            0 <= i < a.len() ==> ascii_lower(#[trigger] a[i] as u8) == ascii_lower(b[i] as u8)),
{
    vstd::utf8::is_ascii_chars_encode_utf8(a);
    vstd::utf8::is_ascii_chars_encode_utf8(b);
    let x = ascii_lowered(encode_utf8(a));
    let y = ascii_lowered(encode_utf8(b));
    if a.len() == b.len() && (forall|i: int|
        0 <= i < a.len() ==> ascii_lower(#[trigger] a[i] as u8) == ascii_lower(b[i] as u8)) {
        assert(x =~= y) by {
            assert forall|i: int| 0 <= i < x.len() implies x[i] == y[i] by {
                assert(a[i] as u8 == encode_utf8(a)[i]);
                assert(b[i] as u8 == encode_utf8(b)[i]);
            }
        }
    }
    if x == y {
        assert(x.len() == y.len());
        assert forall|i: int| 0 <= i < a.len() implies ascii_lower(#[trigger] a[i] as u8)
            == ascii_lower(b[i] as u8) by {
            assert(a[i] as u8 == encode_utf8(a)[i]);
            assert(b[i] as u8 == encode_utf8(b)[i]);
            assert(x[i] == y[i]);
        }
    }
}

} // verus!
