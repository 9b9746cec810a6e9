//! The frame codec: how a frame is written as bytes, and how bytes are read
//! back as frames without touching what follows them.

use crate::decimal::{
    int_text, nat_digits, parse_signed, parse_unsigned, push_decimal, signed_decimal_string,
    signed_value, unsigned_value,
};
use crate::text::{push_char, utf8_text};
use vstd::slice::{slice_subrange, slice_to_vec};
use crate::redis_type::{boxed_frames, plain_frames, Frame, RedisType};
use crate::RedisWritable;
use vstd::prelude::*;
use vstd::string::StringExecFns;
use vstd::utf8::{decode_utf8, encode_utf8, valid_utf8};

verus! {

/// The two bytes that end a line.
pub open spec fn crlf() -> Seq<u8> {
    seq![0x0du8, 0x0au8]
}

/// The bytes of a frame on the wire.
pub open spec fn serialize(f: Frame) -> Seq<u8>
    decreases f, 0nat,
{
    match f {
        Frame::List(items) => seq![0x2au8] + nat_digits(items.len()) + crlf() + serialize_prefix(
            items,
            items.len(),
        ),
        Frame::BulkString(text) => seq![0x24u8] + nat_digits(encode_utf8(text).len()) + crlf()
            + encode_utf8(text) + crlf(),
        Frame::SimpleString(text) => seq![0x2bu8] + encode_utf8(text) + crlf(),
        Frame::NullBulkString => seq![0x24u8, 0x2du8, 0x31u8, 0x0du8, 0x0au8],
        Frame::SimpleError(text) => seq![0x2du8] + encode_utf8(text) + crlf(),
        Frame::RDBFile(file) => seq![0x24u8] + nat_digits(file.len()) + crlf() + file,
        Frame::Multiple(items) => serialize_prefix(items, items.len()),
    }
}

/// The bytes of the first `k` frames of `items`, one after the other.
pub open spec fn serialize_prefix(items: Seq<Frame>, k: nat) -> Seq<u8>
    decreases items, k,
{
    if k == 0 || k > items.len() {
        Seq::empty()
    } else {
        serialize_prefix(items, (k - 1) as nat) + serialize(items[k - 1])
    }
}

/// Why bytes could not be read as a frame.
#[derive(Debug, PartialEq, Eq, Clone, Copy)]
pub enum ParseError {
    /// The bytes end inside a frame.
    Truncated,
    /// A length header is not a decimal number that fits its range.
    MalformedLength,
    /// A bulk string announces a length below -1.
    InvalidBulkLength { len: i64 },
    /// Text is not well-formed UTF-8.
    InvalidUtf8,
    /// The payload of a bulk string is not followed by a line end.
    MissingLineEnd,
    /// A snapshot was expected and the bytes start with another tag.
    UnexpectedTag { tag: u8 },
}

impl ParseError {
    /// The message that reports this error.
    pub open spec fn spec_message(&self) -> Seq<char> {
        match self {
            ParseError::Truncated => "Truncated frame"@,
            ParseError::MalformedLength => "Malformed length"@,
            ParseError::InvalidBulkLength { len } => "Invalid bulk string len ("@ + int_text(
                *len as int,
            ) + ")!"@,
            ParseError::InvalidUtf8 => "Text is not valid UTF-8"@,
            ParseError::MissingLineEnd => "Bulk string does not end with a line end"@,
            ParseError::UnexpectedTag { tag } => "Expected first byte of RDB encoding to be '$'"@,
        }
    }

    /// The message that reports this error.
    pub fn message(&self) -> (r: String)
        ensures
            r@ == self.spec_message(),
    {
        match self {
            ParseError::Truncated => "Truncated frame".to_owned(),
            ParseError::MalformedLength => "Malformed length".to_owned(),
            ParseError::InvalidBulkLength { len } => "Invalid bulk string len (".to_owned().concat(
                signed_decimal_string(*len).as_str(),
            ).concat(")!"),
            ParseError::InvalidUtf8 => "Text is not valid UTF-8".to_owned(),
            ParseError::MissingLineEnd => "Bulk string does not end with a line end".to_owned(),
            ParseError::UnexpectedTag { tag } => {
                "Expected first byte of RDB encoding to be '$'".to_owned()
            },
        }
    }
}

/// The position of the first line end in `s` at or after `from`, if any.
pub open spec fn find_crlf(s: Seq<u8>, from: int) -> Option<int>
    decreases s.len() - from,
{
    if from < 0 || from + 1 >= s.len() {
        None
    } else if s[from] == 0x0d && s[from + 1] == 0x0a {
        Some(from)
    } else {
        find_crlf(s, from + 1)
    }
}

/// The text of the error that stands for a frame with an unknown tag byte.
pub open spec fn unknown_tag_message(tag: u8) -> Seq<char> {
    "Unknown command "@.push(tag as char)
}

/// The first line end in `s` at or after `from`, with both of its bytes
/// inside `s`.
pub open spec fn line_end(s: Seq<u8>, from: int) -> Option<int> {
    match find_crlf(s, from) {
        Some(end) => if from <= end && end + 2 <= s.len() {
            Some(end)
        } else {
            None
        },
        None => None,
    }
}

/// The outcome of reading a list, from the outcome of reading its items.
pub open spec fn list_outcome(items: Result<(Seq<Frame>, int), ParseError>) -> Result<
    Option<(Frame, int)>,
    ParseError,
> {
    match items {
        Ok((items, next)) => Ok(Some((Frame::List(items), next))),
        Err(e) => Err(e),
    }
}

/// What reading a line of text behind the tag byte at `pos` gives: the UTF-8
/// text up to the first line end, and the position behind that line end.
pub open spec fn spec_text_line(s: Seq<u8>, pos: int) -> Result<(Seq<char>, int), ParseError> {
    match line_end(s, pos + 1) {
        Some(end) => if valid_utf8(s.subrange(pos + 1, end)) {
            Ok((decode_utf8(s.subrange(pos + 1, end)), end + 2))
        } else {
            Err(ParseError::InvalidUtf8)
        },
        None => Err(ParseError::Truncated),
    }
}

/// What reading the payload of a bulk string of `len` bytes gives, where the
/// payload starts at `start`: the bytes must be there, a line end must follow
/// them, and they must be UTF-8.
pub open spec fn spec_bulk_payload(s: Seq<u8>, start: int, len: int) -> Result<
    Option<(Frame, int)>,
    ParseError,
> {
    if start + len + 2 > s.len() {
        Err(ParseError::Truncated)
    } else if !(s[start + len] == 0x0d && s[start + len + 1] == 0x0a) {
        Err(ParseError::MissingLineEnd)
    } else if valid_utf8(s.subrange(start, start + len)) {
        Ok(Some((Frame::BulkString(decode_utf8(s.subrange(start, start + len))), start + len + 2)))
    } else {
        Err(ParseError::InvalidUtf8)
    }
}

/// What reading one frame of `s` at `pos` gives.
///
/// `Ok(None)` where no byte is left at `pos`; `Ok(Some((f, next)))` where the
/// bytes from `pos` up to `next` are the frame `f`; an error otherwise.
///
/// A list is its count, a line end, and that many frames. A bulk string is
/// its length, a line end, that many bytes of UTF-8 and a line end; the
/// length -1 gives the null bulk string. A simple string and a simple error
/// are the UTF-8 text up to the first line end. A first byte that is none of
/// the four tags gives an error frame that names it, and only that byte is
/// taken.
pub open spec fn spec_parse(s: Seq<u8>, pos: int) -> Result<Option<(Frame, int)>, ParseError>
    decreases s.len() - pos, 0nat,
{
    if pos < 0 || pos >= s.len() {
        Ok(None)
    } else if s[pos] == 0x2a {
        match line_end(s, pos + 1) {
            Some(end) => match unsigned_value(s.subrange(pos + 1, end)) {
                Some(count) => if count <= u64::MAX {
                    list_outcome(spec_parse_items(s, end + 2, count))
                } else {
                    Err(ParseError::MalformedLength)
                },
                None => Err(ParseError::MalformedLength),
            },
            None => Err(ParseError::Truncated),
        }
    } else if s[pos] == 0x24 {
        match line_end(s, pos + 1) {
            Some(end) => match signed_value(s.subrange(pos + 1, end)) {
                Some(len) => if len < i64::MIN || len > i64::MAX {
                    Err(ParseError::MalformedLength)
                } else if len == -1 {
                    Ok(Some((Frame::NullBulkString, end + 2)))
                } else if len < 0 {
                    Err(ParseError::InvalidBulkLength { len: len as i64 })
                } else {
                    spec_bulk_payload(s, end + 2, len)
                },
                None => Err(ParseError::MalformedLength),
            },
            None => Err(ParseError::Truncated),
        }
    } else if s[pos] == 0x2b {
        match spec_text_line(s, pos) {
            Ok((text, next)) => Ok(Some((Frame::SimpleString(text), next))),
            Err(e) => Err(e),
        }
    } else if s[pos] == 0x2d {
        match spec_text_line(s, pos) {
            Ok((text, next)) => Ok(Some((Frame::SimpleError(text), next))),
            Err(e) => Err(e),
        }
    } else {
        Ok(Some((Frame::SimpleError(unknown_tag_message(s[pos])), pos + 1)))
    }
}

/// What reading `count` frames of `s` one after the other, from `pos`, gives:
/// the frames and the position behind the last of them.
pub open spec fn spec_parse_items(s: Seq<u8>, pos: int, count: nat) -> Result<
    (Seq<Frame>, int),
    ParseError,
>
    decreases s.len() - pos, 1nat, count,
{
    if count == 0 {
        Ok((Seq::empty(), pos))
    } else {
        match spec_parse(s, pos) {
            Ok(Some((first, next))) => if next <= pos || next > s.len() {
                Err(ParseError::Truncated)
            } else {
                match spec_parse_items(s, next, (count - 1) as nat) {
                    Ok((rest, end)) => Ok((seq![first] + rest, end)),
                    Err(e) => Err(e),
                }
            },
            Ok(None) => Err(ParseError::Truncated),
            Err(e) => Err(e),
        }
    }
}

/// Where `find_crlf` finds a line end, it lies at or after `from` and both of
/// its bytes lie inside `s`; no line end starts between `from` and it.
pub proof fn lemma_find_crlf(s: Seq<u8>, from: int)
    requires
        0 <= from,
    ensures
        match find_crlf(s, from) {
            Some(end) => {
                &&& from <= end
                &&& end + 2 <= s.len()
                &&& s[end] == 0x0d
                &&& s[end + 1] == 0x0a
                &&& forall|i: int|
                    from <= i < end ==> !(s[i] == 0x0d && #[trigger] s[i + 1] == 0x0a)
            },
            None => forall|i: int|
                from <= i && i + 1 < s.len() ==> !(s[i] == 0x0d && #[trigger] s[i + 1] == 0x0a),
        },
    decreases s.len() - from,
{
    if from + 1 >= s.len() {
    } else if s[from] == 0x0d && s[from + 1] == 0x0a {
    } else {
        lemma_find_crlf(s, from + 1);
    }
}

/// Finds the first line end in `s` at or after `from`.
pub fn find_line_end(s: &[u8], from: usize) -> (r: Option<usize>)
    ensures
        match r {
            Some(end) => line_end(s@, from as int) == Some(end as int) && from <= end && end + 2
                <= s@.len(),
            None => line_end(s@, from as int) is None,
        },
{
    proof {
        lemma_find_crlf(s@, from as int);
    }
    let n: usize = s.len();
    let mut i: usize = from;
    while i < n && n - i >= 2
        invariant
            from <= i,
            n == s@.len(),
            find_crlf(s@, from as int) == find_crlf(s@, i as int),
        decreases n - i,
    {
        if s[i] == 0x0d && s[i + 1] == 0x0a {
            return Some(i);
        }
        i = i + 1;
    }
    None
}

/// What reading a snapshot of `s` at `pos` gives: a length header and that many
/// bytes, with no line end behind them.
pub open spec fn spec_snapshot(s: Seq<u8>, pos: int) -> Result<Option<(Frame, int)>, ParseError> {
    if pos < 0 || pos >= s.len() {
        Ok(None)
    } else if s[pos] != 0x24 {
        Err(ParseError::UnexpectedTag { tag: s[pos] })
    } else {
        match line_end(s, pos + 1) {
            Some(end) => match unsigned_value(s.subrange(pos + 1, end)) {
                Some(len) => if len > u64::MAX {
                    Err(ParseError::MalformedLength)
                } else if end + 2 + len > s.len() {
                    Err(ParseError::Truncated)
                } else {
                    Ok(Some((Frame::RDBFile(s.subrange(end + 2, end + 2 + len)), end + 2 + len)))
                },
                None => Err(ParseError::MalformedLength),
            },
            None => Err(ParseError::Truncated),
        }
    }
}

/// Whether what a parse returned is what the bytes mean.
pub open spec fn same_outcome(
    got: Result<Option<(RedisType, usize)>, ParseError>,
    want: Result<Option<(Frame, int)>, ParseError>,
) -> bool {
    match got {
        Ok(Some((frame, next))) => want == Ok::<Option<(Frame, int)>, ParseError>(
            Some((frame@, next as int)),
        ),
        Ok(None) => want == Ok::<Option<(Frame, int)>, ParseError>(None),
        Err(e) => want == Err::<Option<(Frame, int)>, ParseError>(e),
    }
}

/// The outcome of reading more frames, behind frames that were read already.
pub open spec fn behind(done: Seq<Frame>, more: Result<(Seq<Frame>, int), ParseError>) -> Result<
    (Seq<Frame>, int),
    ParseError,
> {
    match more {
        Ok((rest, end)) => Ok((done + rest, end)),
        Err(e) => Err(e),
    }
}

/// Reads the line of text behind the tag byte at `pos`: the UTF-8 text up to
/// the first line end, and the position behind that line end.
fn read_text_line(input: &[u8], pos: usize) -> (r: Result<(String, usize), ParseError>)
    requires
        pos < input@.len(),
    ensures
        match r {
            Ok((text, next)) => spec_text_line(input@, pos as int) == Ok::<
                (Seq<char>, int),
                ParseError,
            >((text@, next as int)) && pos < next <= input@.len(),
            Err(e) => spec_text_line(input@, pos as int) == Err::<(Seq<char>, int), ParseError>(e),
        },
{
    let n: usize = input.len();
    let end: usize = match find_line_end(input, pos + 1) {
        Some(end) => end,
        None => {
            return Err(ParseError::Truncated);
        },
    };
    let line = slice_subrange(input, pos + 1, end);
    match utf8_text(line) {
        Some(text) => Ok((text, end + 2)),
        None => Err(ParseError::InvalidUtf8),
    }
}

impl RedisType {
    /// Reads one frame from `input`, starting at `pos`.
    ///
    /// Returns the frame and the position behind it, and reads no byte at or
    /// after that position. Returns `Ok(None)` where no byte is left at `pos`,
    /// `Truncated` where the bytes end inside the frame, and another error
    /// where they are malformed. A first byte that is none of the tags `*`,
    /// `$`, `+` and `-` gives a simple error frame that names it, and only
    /// that byte is taken.
    pub fn parse(input: &[u8], pos: usize) -> (r: Result<Option<(RedisType, usize)>, ParseError>)
        ensures
            same_outcome(r, spec_parse(input@, pos as int)),
            r matches Ok(Some((_, next))) ==> pos < next <= input@.len(),
        decreases input@.len() - pos,
    {
        let n: usize = input.len();
        if pos >= n {
            return Ok(None);
        }
        let tag: u8 = input[pos];
        if tag == 0x2a {
            let end: usize = match find_line_end(input, pos + 1) {
                Some(end) => end,
                None => {
                    return Err(ParseError::Truncated);
                },
            };
            let header = slice_subrange(input, pos + 1, end);
            let count: u64 = match parse_unsigned(header) {
                Some(count) => count,
                None => {
                    return Err(ParseError::MalformedLength);
                },
            };
            let mut items: Vec<Box<RedisType>> = Vec::new();
            let mut cur: usize = end + 2;
            let mut i: u64 = 0;
            while i < count
                invariant
                    n == input@.len(),
                    pos < cur <= n,
                    i <= count,
                    spec_parse(input@, pos as int) == list_outcome(
                        spec_parse_items(input@, end + 2, count as nat),
                    ),
                    spec_parse_items(input@, end + 2, count as nat) == behind(
                        boxed_frames(items@),
                        spec_parse_items(input@, cur as int, (count - i) as nat),
                    ),
                decreases count - i,
            {
                match RedisType::parse(input, cur) {
                    Ok(Some((item, next))) => {
                        proof {
                            let ghost before = boxed_frames(items@);
                            let ghost after = boxed_frames(items@.push(Box::new(item)));
                            assert(after =~= before + seq![item@]);
                            let more = spec_parse_items(
                                input@,
                                next as int,
                                (count - i - 1) as nat,
                            );
                            match more {
                                Ok((rest, last)) => {
                                    assert(before + (seq![item@] + rest) =~= after + rest);
                                },
                                Err(_) => {},
                            }
                        }
                        items.push(Box::new(item));
                        cur = next;
                    },
                    Ok(None) => {
                        return Err(ParseError::Truncated);
                    },
                    Err(e) => {
                        return Err(e);
                    },
                }
                i = i + 1;
            }
            proof {
                assert(boxed_frames(items@) + Seq::<Frame>::empty() =~= boxed_frames(items@));
            }
            Ok(Some((RedisType::List { data: items }, cur)))
        } else if tag == 0x24 {
            let end: usize = match find_line_end(input, pos + 1) {
                Some(end) => end,
                None => {
                    return Err(ParseError::Truncated);
                },
            };
            let header = slice_subrange(input, pos + 1, end);
            let len: i64 = match parse_signed(header) {
                Some(len) => len,
                None => {
                    return Err(ParseError::MalformedLength);
                },
            };
            let start: usize = end + 2;
            if len == -1 {
                return Ok(Some((RedisType::NullBulkString, start)));
            }
            if len < 0 {
                return Err(ParseError::InvalidBulkLength { len });
            }
            let left: usize = n - start;
            if left < 2 || len as u64 > (left - 2) as u64 {
                return Err(ParseError::Truncated);
            }
            let size: usize = len as usize;
            if !(input[start + size] == 0x0d && input[start + size + 1] == 0x0a) {
                return Err(ParseError::MissingLineEnd);
            }
            let payload = slice_subrange(input, start, start + size);
            match utf8_text(payload) {
                Some(data) => Ok(Some((RedisType::BulkString { data }, start + size + 2))),
                None => Err(ParseError::InvalidUtf8),
            }
        } else if tag == 0x2b {
            match read_text_line(input, pos) {
                Ok((data, next)) => Ok(Some((RedisType::SimpleString { data }, next))),
                Err(e) => Err(e),
            }
        } else if tag == 0x2d {
            match read_text_line(input, pos) {
                Ok((message, next)) => Ok(Some((RedisType::SimpleError { message }, next))),
                Err(e) => Err(e),
            }
        } else {
            let mut message: String = "Unknown command ".to_owned();
            push_char(&mut message, tag as char);
            Ok(Some((RedisType::SimpleError { message }, pos + 1)))
        }
    }
}

impl RedisType {
    /// Reads a snapshot from `input`, starting at `pos`: a `$`, the length, a
    /// line end and that many bytes, with no line end behind them.
    ///
    /// Returns the snapshot and the position behind it. Returns `Ok(None)`
    /// where no byte is left at `pos`, `Truncated` where the bytes end inside
    /// the snapshot, and another error where they are malformed.
    pub fn read_snapshot_blob(input: &[u8], pos: usize) -> (r: Result<
        Option<(RedisType, usize)>,
        ParseError,
    >)
        ensures
            same_outcome(r, spec_snapshot(input@, pos as int)),
            r matches Ok(Some((_, next))) ==> pos < next <= input@.len(),
    {
        let n: usize = input.len();
        if pos >= n {
            return Ok(None);
        }
        let tag: u8 = input[pos];
        if tag != 0x24 {
            return Err(ParseError::UnexpectedTag { tag });
        }
        let end: usize = match find_line_end(input, pos + 1) {
            Some(end) => end,
            None => {
                return Err(ParseError::Truncated);
            },
        };
        let header = slice_subrange(input, pos + 1, end);
        let len: u64 = match parse_unsigned(header) {
            Some(len) => len,
            None => {
                return Err(ParseError::MalformedLength);
            },
        };
        let start: usize = end + 2;
        if len > (n - start) as u64 {
            return Err(ParseError::Truncated);
        }
        let size: usize = len as usize;
        let file = slice_to_vec(slice_subrange(input, start, start + size));
        Ok(Some((RedisType::RDBFile { file }, start + size)))
    }
}

/// Appends the two bytes that end a line.
fn push_crlf(out: &mut Vec<u8>)
    ensures
        final(out)@ == old(out)@ + crlf(),
{
    out.push(0x0d);
    out.push(0x0a);
    proof {
        assert(out@ =~= old(out)@ + crlf());
    }
}

impl RedisType {
    /// Appends the bytes of this frame to `out`.
    pub fn write_into(&self, out: &mut Vec<u8>)
        ensures
            final(out)@ == old(out)@ + serialize(self@),
        decreases self,
    {
        match self {
            RedisType::List { data } => {
                out.push(0x2a);
                push_decimal(out, data.len() as u64);
                push_crlf(out);
                let ghost head = out@;
                let ghost items = boxed_frames(data@);
                let mut i: usize = 0;
                while i < data.len()
                    invariant
                        *self == (RedisType::List { data: *data }),
                        items == boxed_frames(data@),
                        i <= data.len(),
                        out@ == head + serialize_prefix(items, i as nat),
                    decreases data.len() - i,
                {
                    proof {
                        assert(decreases_to!(*self => self->List_data));
                        assert(decreases_to!(*data => data@));
                    }
                    data[i].write_into(out);
                    proof {
                        assert(items[i as int] == data[i as int]@);
                        assert(out@ =~= head + serialize_prefix(items, (i + 1) as nat));
                    }
                    i = i + 1;
                }
                proof {
                    assert(out@ =~= old(out)@ + serialize(self@));
                }
            },
            RedisType::BulkString { data } => {
                let bytes = data.as_str().as_bytes();
                out.push(0x24);
                push_decimal(out, bytes.len() as u64);
                push_crlf(out);
                out.extend_from_slice(bytes);
                push_crlf(out);
                proof {
                    assert(out@ =~= old(out)@ + serialize(self@));
                }
            },
            RedisType::SimpleString { data } => {
                out.push(0x2b);
                out.extend_from_slice(data.as_str().as_bytes());
                push_crlf(out);
                proof {
                    assert(out@ =~= old(out)@ + serialize(self@));
                }
            },
            RedisType::NullBulkString => {
                out.push(0x24);
                out.push(0x2d);
                out.push(0x31);
                out.push(0x0d);
                out.push(0x0a);
                proof {
                    assert(out@ =~= old(out)@ + serialize(self@));
                }
            },
            RedisType::SimpleError { message } => {
                out.push(0x2d);
                out.extend_from_slice(message.as_str().as_bytes());
                push_crlf(out);
                proof {
                    assert(out@ =~= old(out)@ + serialize(self@));
                }
            },
            RedisType::RDBFile { file } => {
                out.push(0x24);
                push_decimal(out, file.len() as u64);
                push_crlf(out);
                out.extend_from_slice(file.as_slice());
                proof {
                    assert(out@ =~= old(out)@ + serialize(self@));
                }
            },
            RedisType::Multiple { parts } => {
                let ghost head = out@;
                let ghost items = plain_frames(parts@);
                let mut i: usize = 0;
                while i < parts.len()
                    invariant
                        *self == (RedisType::Multiple { parts: *parts }),
                        items == plain_frames(parts@),
                        i <= parts.len(),
                        out@ == head + serialize_prefix(items, i as nat),
                    decreases parts.len() - i,
                {
                    proof {
                        assert(decreases_to!(*self => self->parts));
                        assert(decreases_to!(*parts => parts@));
                    }
                    parts[i].write_into(out);
                    proof {
                        assert(items[i as int] == parts[i as int]@);
                        assert(out@ =~= head + serialize_prefix(items, (i + 1) as nat));
                    }
                    i = i + 1;
                }
                proof {
                    assert(out@ =~= old(out)@ + serialize(self@));
                }
            },
        }
    }
}

impl RedisWritable for RedisType {
    open spec fn spec_protocol(&self) -> Seq<u8> {
        serialize(self@)
    }

    fn write_as_protocol(&self) -> (bytes: Vec<u8>) {
        let mut out: Vec<u8> = Vec::new();
        self.write_into(&mut out);
        proof {
            assert(out@ =~= serialize(self@));
        }
        out
    }
}

} // verus!
