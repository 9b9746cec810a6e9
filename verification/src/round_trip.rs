//! Reading back what was written: a frame that is fit for the wire parses
//! from its own bytes, wherever they stand, and nothing beyond them is read.

use crate::codec::{
    find_crlf, line_end, serialize, serialize_prefix, spec_parse, spec_parse_items, spec_snapshot,
    ParseError,
};
use crate::decimal::{
    is_digit, lemma_nat_digits_shape, lemma_signed_round_trip, lemma_unsigned_round_trip,
    nat_digits, signed_value, unsigned_value,
};
use crate::redis_type::Frame;
use crate::text::{is_line, lemma_line_encoding};
use vstd::prelude::*;
use vstd::utf8::encode_utf8;

verus! {

/// Whether a frame can be written and read back: it is made of lists, bulk
/// strings, one-line simple strings, one-line simple errors and the null bulk
/// string, and its lengths fit the integers that announce them.
pub open spec fn wire_ready(f: Frame) -> bool
    decreases f,
{
    match f {
        Frame::List(items) => items.len() <= u64::MAX && forall|i: int|
            0 <= i < items.len() ==> wire_ready(#[trigger] items[i]),
        Frame::BulkString(text) => encode_utf8(text).len() <= i64::MAX,
        Frame::SimpleString(text) => is_line(text),
        Frame::NullBulkString => true,
        Frame::SimpleError(text) => is_line(text),
        Frame::RDBFile(_) => false,
        Frame::Multiple(_) => false,
    }
}

/// Whether a frame is one that the wire's ordinary frames can spell: it holds
/// no snapshot and no compound reply.
pub open spec fn ordinary(f: Frame) -> bool
    decreases f,
{
    match f {
        Frame::List(items) => forall|i: int| 0 <= i < items.len() ==> ordinary(#[trigger] items[i]),
        Frame::RDBFile(_) => false,
        Frame::Multiple(_) => false,
        _ => true,
    }
}

/// What is read as a frame lies inside the input and takes at least one byte,
/// and it is an ordinary frame: reading never gives a snapshot.
pub proof fn lemma_parse_ordinary(s: Seq<u8>, pos: int)
    ensures
        spec_parse(s, pos) matches Ok(Some((f, next))) ==> 0 <= pos < next <= s.len() && ordinary(
            f,
        ),
    decreases s.len() - pos, 0nat,
{
    if 0 <= pos < s.len() && s[pos] == 0x2a {
        match line_end(s, pos + 1) {
            Some(end) => match unsigned_value(s.subrange(pos + 1, end)) {
                Some(count) => {
                    lemma_parse_items_ordinary(s, end + 2, count);
                },
                None => {},
            },
            None => {},
        }
    }
}

/// What is read as a run of frames lies inside the input, has the length
/// that was asked for, and holds ordinary frames only.
pub proof fn lemma_parse_items_ordinary(s: Seq<u8>, pos: int, count: nat)
    requires
        0 <= pos <= s.len(),
    ensures
        spec_parse_items(s, pos, count) matches Ok((items, next)) ==> pos <= next <= s.len()
            && items.len() == count && forall|i: int|
            0 <= i < items.len() ==> ordinary(#[trigger] items[i]),
    decreases s.len() - pos, 1nat, count,
{
    if count > 0 {
        lemma_parse_ordinary(s, pos);
        match spec_parse(s, pos) {
            Ok(Some((first, next))) => {
                lemma_parse_items_ordinary(s, next, (count - 1) as nat);
                match spec_parse_items(s, next, (count - 1) as nat) {
                    Ok((rest, end)) => {
                        let items = seq![first] + rest;
                        assert forall|i: int| 0 <= i < items.len() implies ordinary(
                            #[trigger] items[i],
                        ) by {
                            if i > 0 {
                                assert(items[i] == rest[i - 1]);
                            }
                        }
                    },
                    Err(_) => {},
                }
            },
            _ => {},
        }
    }
}

/// A line end that stands at `end`, with no carriage return between `from` and
/// it, is the first line end at or after `from`.
pub proof fn lemma_find_crlf_hit(s: Seq<u8>, from: int, end: int)
    requires
        0 <= from <= end,
        end + 2 <= s.len(),
        s[end] == 0x0d,
        s[end + 1] == 0x0a,
        forall|i: int| from <= i < end ==> #[trigger] s[i] != 0x0d,
    ensures
        find_crlf(s, from) == Some(end),
        line_end(s, from) == Some(end),
    decreases end - from,
{
    if from < end {
        lemma_find_crlf_hit(s, from + 1, end);
    }
}

/// The bytes of the first `j` frames open the bytes of the first `n`.
pub proof fn lemma_prefix_of_prefix(items: Seq<Frame>, j: nat, n: nat)
    requires
        j <= n <= items.len(),
    ensures
        serialize_prefix(items, j).len() <= serialize_prefix(items, n).len(),
        serialize_prefix(items, n).subrange(0, serialize_prefix(items, j).len() as int)
            == serialize_prefix(items, j),
    decreases n - j,
{
    if j == n {
        assert(serialize_prefix(items, n).subrange(0, serialize_prefix(items, j).len() as int)
            =~= serialize_prefix(items, j));
    } else {
        lemma_prefix_of_prefix(items, j, (n - 1) as nat);
        assert(serialize_prefix(items, n).subrange(0, serialize_prefix(items, j).len() as int)
            =~= serialize_prefix(items, (n - 1) as nat).subrange(
            0,
            serialize_prefix(items, j).len() as int,
        ));
    }
}

/// A frame that is fit for the wire takes at least one byte.
pub proof fn lemma_serialize_nonempty(f: Frame)
    requires
        wire_ready(f),
    ensures
        serialize(f).len() > 0,
{
}

/// Digits hold no carriage return.
proof fn lemma_digits_no_cr(n: nat)
    ensures
        forall|i: int| 0 <= i < nat_digits(n).len() ==> #[trigger] nat_digits(n)[i] != 0x0d,
{
    lemma_nat_digits_shape(n);
    assert forall|i: int| 0 <= i < nat_digits(n).len() implies #[trigger] nat_digits(n)[i]
        != 0x0d by {
        assert(is_digit(nat_digits(n)[i]));
    }
}

/// Where `w` stands in `s` at `pos`, its bytes are those of `s` from `pos` on.
proof fn lemma_window(s: Seq<u8>, pos: int, w: Seq<u8>)
    requires
        0 <= pos,
        pos + w.len() <= s.len(),
        s.subrange(pos, pos + w.len()) == w,
    ensures
        forall|k: int| 0 <= k < w.len() ==> s[pos + k] == #[trigger] w[k],
{
    assert forall|k: int| 0 <= k < w.len() implies s[pos + k] == #[trigger] w[k] by {
        assert(s.subrange(pos, pos + w.len())[k] == s[pos + k]);
    }
}

/// Where a tag byte, a line without a carriage return and a line end stand in
/// `s` at `pos`, the first line end behind the tag is that one, and the bytes
/// before it are the line.
proof fn lemma_header_line(s: Seq<u8>, pos: int, w: Seq<u8>, line: Seq<u8>)
    requires
        0 <= pos,
        pos + w.len() <= s.len(),
        s.subrange(pos, pos + w.len()) == w,
        w.len() >= 1 + line.len() + 2,
        w.subrange(1, 1 + line.len() as int) == line,
        w[1 + line.len() as int] == 0x0d,
        w[2 + line.len() as int] == 0x0a,
        forall|i: int| 0 <= i < line.len() ==> #[trigger] line[i] != 0x0d,
    ensures
        line_end(s, pos + 1) == Some(pos + 1 + line.len() as int),
        s.subrange(pos + 1, pos + 1 + line.len() as int) == line,
        s[pos] == w[0],
{
    let end = pos + 1 + line.len() as int;
    lemma_window(s, pos, w);
    assert forall|i: int| pos + 1 <= i < end implies #[trigger] s[i] != 0x0d by {
        assert(s[i] == w[i - pos]);
        assert(w[i - pos] == w.subrange(1, 1 + line.len() as int)[i - pos - 1]);
        assert(line[i - pos - 1] != 0x0d);
    }
    assert(s[end] == w[end - pos]);
    assert(s[end + 1] == w[end + 1 - pos]);
    lemma_find_crlf_hit(s, pos + 1, end);
    assert(s.subrange(pos + 1, end) =~= line) by {
        assert forall|k: int| 0 <= k < line.len() implies s[pos + 1 + k] == line[k] by {
            assert(s[pos + 1 + k] == w[1 + k]);
            assert(w[1 + k] == w.subrange(1, 1 + line.len() as int)[k]);
        }
    }
    assert(s[pos] == w[0]);
}

/// The window lemma for a bulk string.
proof fn lemma_bulk_window(s: Seq<u8>, pos: int, text: Seq<char>)
    requires
        wire_ready(Frame::BulkString(text)),
        0 <= pos,
        pos + serialize(Frame::BulkString(text)).len() <= s.len(),
        s.subrange(pos, pos + serialize(Frame::BulkString(text)).len()) == serialize(
            Frame::BulkString(text),
        ),
    ensures
        spec_parse(s, pos) == Ok::<Option<(Frame, int)>, ParseError>(
            Some((Frame::BulkString(text), pos + serialize(Frame::BulkString(text)).len())),
        ),
{
    let w = serialize(Frame::BulkString(text));
    let enc = encode_utf8(text);
    let digits = nat_digits(enc.len());
    let end = pos + 1 + digits.len();
    lemma_digits_no_cr(enc.len());
    lemma_signed_round_trip(enc.len() as int);
    assert(w.subrange(1, 1 + digits.len() as int) =~= digits);
    lemma_header_line(s, pos, w, digits);
    lemma_window(s, pos, w);
    assert(w.len() == 1 + digits.len() + 2 + enc.len() + 2);
    assert(s.subrange(end + 2, end + 2 + enc.len()) =~= enc) by {
        assert forall|k: int| 0 <= k < enc.len() implies s[end + 2 + k] == enc[k] by {
            assert(s[end + 2 + k] == w[end + 2 + k - pos]);
        }
    }
    assert(s[end + 2 + enc.len()] == w[end + 2 + enc.len() - pos]);
    assert(s[end + 2 + enc.len() + 1] == w[end + 2 + enc.len() + 1 - pos]);
    vstd::utf8::encode_utf8_valid_utf8(text);
    vstd::utf8::encode_utf8_decode_utf8(text);
}

/// The window lemma for a simple string.
proof fn lemma_simple_window(s: Seq<u8>, pos: int, text: Seq<char>)
    requires
        wire_ready(Frame::SimpleString(text)),
        0 <= pos,
        pos + serialize(Frame::SimpleString(text)).len() <= s.len(),
        s.subrange(pos, pos + serialize(Frame::SimpleString(text)).len()) == serialize(
            Frame::SimpleString(text),
        ),
    ensures
        spec_parse(s, pos) == Ok::<Option<(Frame, int)>, ParseError>(
            Some((Frame::SimpleString(text), pos + serialize(Frame::SimpleString(text)).len())),
        ),
{
    let w = serialize(Frame::SimpleString(text));
    let enc = encode_utf8(text);
    lemma_line_encoding(text);
    assert(w.subrange(1, 1 + enc.len() as int) =~= enc);
    lemma_header_line(s, pos, w, enc);
    vstd::utf8::encode_utf8_valid_utf8(text);
    vstd::utf8::encode_utf8_decode_utf8(text);
}

/// The window lemma for a simple error.
proof fn lemma_error_window(s: Seq<u8>, pos: int, text: Seq<char>)
    requires
        wire_ready(Frame::SimpleError(text)),
        0 <= pos,
        pos + serialize(Frame::SimpleError(text)).len() <= s.len(),
        s.subrange(pos, pos + serialize(Frame::SimpleError(text)).len()) == serialize(
            Frame::SimpleError(text),
        ),
    ensures
        spec_parse(s, pos) == Ok::<Option<(Frame, int)>, ParseError>(
            Some((Frame::SimpleError(text), pos + serialize(Frame::SimpleError(text)).len())),
        ),
{
    let w = serialize(Frame::SimpleError(text));
    let enc = encode_utf8(text);
    lemma_line_encoding(text);
    assert(w.subrange(1, 1 + enc.len() as int) =~= enc);
    lemma_header_line(s, pos, w, enc);
    vstd::utf8::encode_utf8_valid_utf8(text);
    vstd::utf8::encode_utf8_decode_utf8(text);
}

/// The window lemma for the null bulk string.
proof fn lemma_null_window(s: Seq<u8>, pos: int)
    requires
        0 <= pos,
        pos + serialize(Frame::NullBulkString).len() <= s.len(),
        s.subrange(pos, pos + serialize(Frame::NullBulkString).len()) == serialize(
            Frame::NullBulkString,
        ),
    ensures
        spec_parse(s, pos) == Ok::<Option<(Frame, int)>, ParseError>(
            Some((Frame::NullBulkString, pos + serialize(Frame::NullBulkString).len())),
        ),
{
    let w = serialize(Frame::NullBulkString);
    let line = crate::decimal::int_digits(-1);
    reveal_with_fuel(nat_digits, 2);
    assert(line =~= seq![0x2du8, 0x31u8]);
    assert(w.subrange(1, 3) =~= line);
    lemma_header_line(s, pos, w, line);
    lemma_signed_round_trip(-1);
}

/// Where the bytes of a frame that is fit for the wire stand in `s` at `pos`,
/// reading at `pos` gives that frame and the position behind its bytes,
/// whatever stands before and after them.
pub proof fn lemma_parse_window(s: Seq<u8>, pos: int, f: Frame)
    requires
        wire_ready(f),
        0 <= pos,
        pos + serialize(f).len() <= s.len(),
        s.subrange(pos, pos + serialize(f).len()) == serialize(f),
    ensures
        spec_parse(s, pos) == Ok::<Option<(Frame, int)>, ParseError>(
            Some((f, pos + serialize(f).len())),
        ),
    decreases f, 0nat,
{
    match f {
        Frame::List(items) => {
            let w = serialize(f);
            let digits = nat_digits(items.len());
            let base = pos + 1 + digits.len() + 2;
            let body = serialize_prefix(items, items.len());
            lemma_digits_no_cr(items.len());
            lemma_unsigned_round_trip(items.len());
            assert(w.subrange(1, 1 + digits.len() as int) =~= digits);
            lemma_header_line(s, pos, w, digits);
            lemma_window(s, pos, w);
            assert(w.len() == 1 + digits.len() + 2 + body.len());
            assert(s.subrange(base, base + body.len()) =~= body) by {
                assert forall|k: int| 0 <= k < body.len() implies s[base + k] == body[k] by {
                    assert(s[base + k] == w[base + k - pos]);
                }
            }
            lemma_parse_items_window(s, base, items, 0);
            assert(items.subrange(0, items.len() as int) =~= items);
        },
        Frame::BulkString(text) => {
            lemma_bulk_window(s, pos, text);
        },
        Frame::SimpleString(text) => {
            lemma_simple_window(s, pos, text);
        },
        Frame::NullBulkString => {
            lemma_null_window(s, pos);
        },
        Frame::SimpleError(text) => {
            lemma_error_window(s, pos, text);
        },
        Frame::RDBFile(_) => {},
        Frame::Multiple(_) => {},
    }
}

/// Where the bytes of frames that are fit for the wire stand in `s` from
/// `base`, one after the other, reading the frames from the `j`-th on gives
/// them in order, and the position behind the last.
pub proof fn lemma_parse_items_window(s: Seq<u8>, base: int, items: Seq<Frame>, j: nat)
    requires
        forall|i: int| 0 <= i < items.len() ==> wire_ready(#[trigger] items[i]),
        0 <= base,
        j <= items.len(),
        base + serialize_prefix(items, items.len()).len() <= s.len(),
        s.subrange(base, base + serialize_prefix(items, items.len()).len()) == serialize_prefix(
            items,
            items.len(),
        ),
    ensures
        spec_parse_items(
            s,
            base + serialize_prefix(items, j).len(),
            (items.len() - j) as nat,
        ) == Ok::<(Seq<Frame>, int), ParseError>(
            (
                items.subrange(j as int, items.len() as int),
                base + serialize_prefix(items, items.len()).len(),
            ),
        ),
    decreases items, items.len() - j,
{
    let n = items.len();
    let all = serialize_prefix(items, n);
    if j == n {
        assert(items.subrange(j as int, n as int) =~= Seq::<Frame>::empty());
    } else {
        let here = base + serialize_prefix(items, j).len();
        let item = items[j as int];
        let next = base + serialize_prefix(items, (j + 1) as nat).len();
        lemma_prefix_of_prefix(items, j, (j + 1) as nat);
        lemma_prefix_of_prefix(items, (j + 1) as nat, n);
        assert(serialize_prefix(items, (j + 1) as nat) == serialize_prefix(items, j) + serialize(
            item,
        ));
        assert(next == here + serialize(item).len());
        assert(s.subrange(here, next) =~= serialize(item)) by {
            assert forall|k: int| 0 <= k < serialize(item).len() implies s[here + k] == serialize(
                item,
            )[k] by {
                assert(s[here + k] == s.subrange(base, base + all.len())[here + k - base]);
                assert(all[here + k - base] == all.subrange(
                    0,
                    serialize_prefix(items, (j + 1) as nat).len() as int,
                )[here + k - base]);
            }
        }
        lemma_parse_window(s, here, item);
        lemma_serialize_nonempty(item);
        lemma_parse_items_window(s, base, items, (j + 1) as nat);
        assert(seq![item] + items.subrange(j as int + 1, n as int) =~= items.subrange(
            j as int,
            n as int,
        ));
    }
}

/// The bytes of a frame that is fit for the wire read back as that frame, and
/// behind them the input is at its end.
pub proof fn lemma_round_trip(f: Frame)
    requires
        wire_ready(f),
    ensures
        spec_parse(serialize(f), 0) == Ok::<Option<(Frame, int)>, ParseError>(
            Some((f, serialize(f).len() as int)),
        ),
        spec_parse(serialize(f), serialize(f).len() as int) == Ok::<
            Option<(Frame, int)>,
            ParseError,
        >(None),
{
    let s = serialize(f);
    assert(s.subrange(0, s.len() as int) =~= s);
    lemma_parse_window(s, 0, f);
}

/// From the bytes of two frames, one written behind the other, two reads give
/// the first frame and then the second, the second read starts where the
/// first ended, and behind them the input is at its end.
pub proof fn lemma_no_over_read(first: Frame, second: Frame)
    requires
        wire_ready(first),
        wire_ready(second),
    ensures
        ({
            let s = serialize(first) + serialize(second);
            let mid = serialize(first).len() as int;
            &&& spec_parse(s, 0) == Ok::<Option<(Frame, int)>, ParseError>(
                Some((first, mid)),
            )
            &&& spec_parse(s, mid) == Ok::<Option<(Frame, int)>, ParseError>(
                Some((second, s.len() as int)),
            )
            &&& spec_parse(s, s.len() as int) == Ok::<Option<(Frame, int)>, ParseError>(
                None,
            )
        }),
{
    let s = serialize(first) + serialize(second);
    let mid = serialize(first).len() as int;
    assert(s.subrange(0, mid) =~= serialize(first));
    assert(s.subrange(mid, mid + serialize(second).len()) =~= serialize(second));
    lemma_parse_window(s, 0, first);
    lemma_parse_window(s, mid, second);
}

/// The bytes of a snapshot read back as that snapshot, wherever they stand, and
/// nothing behind them is read.
pub proof fn lemma_snapshot_window(s: Seq<u8>, pos: int, file: Seq<u8>)
    requires
        file.len() <= u64::MAX,
        0 <= pos,
        pos + serialize(Frame::RDBFile(file)).len() <= s.len(),
        s.subrange(pos, pos + serialize(Frame::RDBFile(file)).len()) == serialize(
            Frame::RDBFile(file),
        ),
    ensures
        spec_snapshot(s, pos) == Ok::<Option<(Frame, int)>, ParseError>(
            Some((Frame::RDBFile(file), pos + serialize(Frame::RDBFile(file)).len())),
        ),
{
    let w = serialize(Frame::RDBFile(file));
    let digits = nat_digits(file.len());
    let end = pos + 1 + digits.len();
    lemma_digits_no_cr(file.len());
    lemma_unsigned_round_trip(file.len());
    assert(w.subrange(1, 1 + digits.len() as int) =~= digits);
    lemma_header_line(s, pos, w, digits);
    lemma_window(s, pos, w);
    assert(s.subrange(end + 2, end + 2 + file.len()) =~= file) by {
        assert forall|k: int| 0 <= k < file.len() implies s[end + 2 + k] == file[k] by {
            assert(s[end + 2 + k] == w[end + 2 + k - pos]);
        }
    }
}

/// Whether `s` and `t` hold the same bytes from `lo` up to `hi`.
pub open spec fn agree(s: Seq<u8>, t: Seq<u8>, lo: int, hi: int) -> bool {
    &&& hi <= s.len()
    &&& hi <= t.len()
    &&& forall|i: int| lo <= i < hi ==> s[i] == t[i]
}

/// A line end that stands at `end`, with no line end starting between `from`
/// and it, is the first line end at or after `from`.
proof fn lemma_find_crlf_first(s: Seq<u8>, from: int, end: int)
    requires
        0 <= from <= end,
        end + 2 <= s.len(),
        s[end] == 0x0d,
        s[end + 1] == 0x0a,
        forall|i: int| from <= i < end ==> !(s[i] == 0x0d && #[trigger] s[i + 1] == 0x0a),
    ensures
        line_end(s, from) == Some(end),
    decreases end - from,
{
    if from < end {
        assert(!(s[from] == 0x0d && s[from + 1] == 0x0a));
        lemma_find_crlf_first(s, from + 1, end);
    }
}

/// The first line end of `s` behind `from` is also that of any `t` that holds
/// the same bytes up to the end of that line end.
proof fn lemma_line_end_local(s: Seq<u8>, t: Seq<u8>, from: int)
    requires
        0 <= from,
        line_end(s, from) is Some,
        agree(s, t, from, line_end(s, from)->0 + 2),
    ensures
        line_end(t, from) == line_end(s, from),
{
    let end = line_end(s, from)->0;
    crate::codec::lemma_find_crlf(s, from);
    assert forall|i: int| from <= i < end implies !(t[i] == 0x0d && #[trigger] t[i + 1]
        == 0x0a) by {
        assert(!(s[i] == 0x0d && s[i + 1] == 0x0a));
    }
    lemma_find_crlf_first(t, from, end);
}

/// Nothing is read beyond a frame: what is read as a frame depends on the
/// bytes of that frame alone. An input that holds the same bytes from `pos`
/// up to the position behind the frame gives the same frame and the same
/// position, whatever follows.
pub proof fn lemma_parse_local(s: Seq<u8>, t: Seq<u8>, pos: int)
    requires
        spec_parse(s, pos) matches Ok(Some((_, next))) && agree(s, t, pos, next),
    ensures
        spec_parse(t, pos) == spec_parse(s, pos),
    decreases s.len() - pos, 0nat,
{
    lemma_parse_ordinary(s, pos);
    assert(s[pos] == t[pos]);
    if s[pos] == 0x2a {
        let end = line_end(s, pos + 1)->0;
        let count = unsigned_value(s.subrange(pos + 1, end))->0;
        lemma_parse_items_ordinary(s, end + 2, count);
        lemma_line_end_local(s, t, pos + 1);
        assert(t.subrange(pos + 1, end) =~= s.subrange(pos + 1, end));
        lemma_parse_items_local(s, t, end + 2, count);
    } else if s[pos] == 0x24 {
        let end = line_end(s, pos + 1)->0;
        let len = signed_value(s.subrange(pos + 1, end))->0;
        lemma_line_end_local(s, t, pos + 1);
        assert(t.subrange(pos + 1, end) =~= s.subrange(pos + 1, end));
        if len >= 0 {
            assert(t.subrange(end + 2, end + 2 + len) =~= s.subrange(end + 2, end + 2 + len));
            assert(t[end + 2 + len] == s[end + 2 + len]);
            assert(t[end + 2 + len + 1] == s[end + 2 + len + 1]);
        }
    } else if s[pos] == 0x2b || s[pos] == 0x2d {
        let end = line_end(s, pos + 1)->0;
        lemma_line_end_local(s, t, pos + 1);
        assert(t.subrange(pos + 1, end) =~= s.subrange(pos + 1, end));
    }
}

/// Nothing is read beyond a run of frames: what is read depends on the bytes of
/// those frames alone.
pub proof fn lemma_parse_items_local(s: Seq<u8>, t: Seq<u8>, pos: int, count: nat)
    requires
        0 <= pos <= s.len(),
        spec_parse_items(s, pos, count) matches Ok((_, end)) && agree(s, t, pos, end),
    ensures
        spec_parse_items(t, pos, count) == spec_parse_items(s, pos, count),
    decreases s.len() - pos, 1nat, count,
{
    if count > 0 {
        lemma_parse_ordinary(s, pos);
        match spec_parse(s, pos) {
            Ok(Some((first, next))) => {
                lemma_parse_items_ordinary(s, next, (count - 1) as nat);
                lemma_parse_local(s, t, pos);
                lemma_parse_items_local(s, t, next, (count - 1) as nat);
            },
            _ => {},
        }
    }
}

} // verus!
