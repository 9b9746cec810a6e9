//! Frames of the wire protocol: the values that travel between client and
//! server, their mathematical model and their constructors.

use crate::text::{lowercase, lowercase_of, str_eq};
use vstd::prelude::*;

verus! {

/// The mathematical model of a frame.
pub enum Frame {
    /// An array of frames, possibly nested.
    List(Seq<Frame>),
    /// A length-prefixed payload.
    BulkString(Seq<char>),
    /// One line of text.
    SimpleString(Seq<char>),
    /// The "no value" sentinel.
    NullBulkString,
    /// One line of text that reports an error.
    SimpleError(Seq<char>),
    /// A length-prefixed binary payload without a trailing delimiter.
    RDBFile(Seq<u8>),
    /// Several frames sent one after the other as a single reply.
    Multiple(Seq<Frame>),
}

/// A frame of the wire protocol.
#[derive(Debug, PartialEq, Eq)]
#[allow(inconsistent_fields)]
pub enum RedisType {
    List { data: Vec<Box<RedisType>> },
    BulkString { data: String },
    SimpleString { data: String },
    NullBulkString,
    SimpleError { message: String },
    RDBFile { file: Vec<u8> },
    Multiple { parts: Vec<RedisType> },
}

/// The models of the boxed frames in `items`, in order.
pub open spec fn boxed_frames(items: Seq<Box<RedisType>>) -> Seq<Frame>
    decreases items,
{
    Seq::new(
        items.len(),
        |i: int|
            if 0 <= i < items.len() {
                items[i].spec_frame()
            } else {
                Frame::NullBulkString
            },
    )
}

/// The models of the frames in `items`, in order.
pub open spec fn plain_frames(items: Seq<RedisType>) -> Seq<Frame>
    decreases items,
{
    Seq::new(
        items.len(),
        |i: int|
            if 0 <= i < items.len() {
                items[i].spec_frame()
            } else {
                Frame::NullBulkString
            },
    )
}

/// The text that shows a frame to a reader, as its `Debug` form does.
pub uninterp spec fn frame_debug(f: Frame) -> Seq<char>;

/// Formats a frame with its `Debug` form. Trusted: the text depends on what
/// the frame holds alone.
#[verifier::external_body]
pub(crate) fn debug_text(frame: &RedisType) -> (r: String)
    ensures
        r@ == frame_debug(frame@),
{
    format!("{:?}", frame)
}

/// Why a frame was not the text that was expected.
#[derive(Debug, PartialEq, Eq)]
pub struct ExpectError {
    /// What the caller was doing, as the start of a message.
    pub message_start: String,
    /// The text that was expected.
    pub expected: String,
    /// The frame that came instead.
    pub received: RedisType,
}

/// The mathematical model of `ExpectError`.
pub struct ExpectFault {
    pub message_start: Seq<char>,
    pub expected: Seq<char>,
    pub received: Frame,
}

impl View for ExpectError {
    type V = ExpectFault;

    open spec fn view(&self) -> ExpectFault {
        ExpectFault {
            message_start: self.message_start@,
            expected: self.expected@,
            received: self.received@,
        }
    }
}

/// The text of a bulk or simple string, and nothing for any other frame.
pub open spec fn frame_text(f: Frame) -> Option<Seq<char>> {
    match f {
        Frame::BulkString(text) => Some(text),
        Frame::SimpleString(text) => Some(text),
        _ => None,
    }
}

/// What expecting the text `expected` of the frame `f` gives: the text of
/// `f`, where `f` is a string that is equal to `expected` once both are made
/// lowercase; otherwise an error that holds what was passed in.
pub open spec fn spec_expect_string(
    f: Frame,
    expected: Seq<char>,
    message_start: Seq<char>,
) -> Result<Seq<char>, ExpectFault> {
    if frame_text(f) is Some && lowercase_of(expected) == lowercase_of(frame_text(f)->0) {
        Ok(frame_text(f)->0)
    } else {
        Err(ExpectFault { message_start, expected, received: f })
    }
}

impl RedisType {
    /// The text of a bulk or simple string, and nothing for any other frame.
    pub fn extract_string(&self) -> (r: Option<&str>)
        ensures
            r is Some <==> frame_text(self@) is Some,
            r is Some ==> r->0@ == frame_text(self@)->0,
    {
        match self {
            RedisType::BulkString { data } => Some(data.as_str()),
            RedisType::SimpleString { data } => Some(data.as_str()),
            _ => None,
        }
    }

    /// Checks that this frame is a string equal to `expected` when case is
    /// ignored, and hands its text back.
    ///
    /// Otherwise the error holds `message_start`, `expected` and a copy of this
    /// frame.
    pub fn expect_string(&self, expected: &str, message_start: &str) -> (r: Result<
        &str,
        ExpectError,
    >)
        ensures
            match r {
                Ok(text) => spec_expect_string(self@, expected@, message_start@) == Ok::<
                    Seq<char>,
                    ExpectFault,
                >(text@),
                Err(e) => spec_expect_string(self@, expected@, message_start@) == Err::<
                    Seq<char>,
                    ExpectFault,
                >(e@),
            },
    {
        match self.extract_string() {
            Some(string) => {
                let want = lowercase(expected);
                let have = lowercase(string);
                if str_eq(want.as_str(), have.as_str()) {
                    return Ok(string);
                }
            },
            None => {},
        }
        Err(
            ExpectError {
                message_start: message_start.to_owned(),
                expected: expected.to_owned(),
                received: self.clone(),
            },
        )
    }

    /// A simple string that holds `data`.
    pub fn simple_string(data: &str) -> (r: Self)
        ensures
            r@ == Frame::SimpleString(data@),
    {
        RedisType::SimpleString { data: data.to_owned() }
    }

    /// A bulk string that holds `data`.
    pub fn bulk_string(data: &str) -> (r: Self)
        ensures
            r@ == Frame::BulkString(data@),
    {
        RedisType::BulkString { data: data.to_owned() }
    }

    /// A list of the frames in `data`, in order.
    pub fn list(data: Vec<Self>) -> (r: Self)
        ensures
            r@ == Frame::List(plain_frames(data@)),
    {
        let ghost items = data@;
        let mut boxed: Vec<Box<RedisType>> = Vec::new();
        for item in it: data
            invariant
                it.seq() == items,
                boxed.len() == it.index(),
                forall|j: int| 0 <= j < it.index() ==> *(#[trigger] boxed[j]) == items[j],
        {
            boxed.push(Box::new(item));
        }
        proof {
            assert(boxed_frames(boxed@) =~= plain_frames(items));
        }
        RedisType::List { data: boxed }
    }

    /// A reply made of the frames in `parts`, sent one after the other.
    pub fn multiple(parts: Vec<Self>) -> (r: Self)
        ensures
            r@ == Frame::Multiple(plain_frames(parts@)),
    {
        RedisType::Multiple { parts }
    }

    /// A simple error that holds `message`.
    pub fn simple_error(message: &str) -> (r: Self)
        ensures
            r@ == Frame::SimpleError(message@),
    {
        RedisType::SimpleError { message: message.to_owned() }
    }

    /// The model of this frame.
    pub open spec fn spec_frame(&self) -> Frame
        decreases self,
    {
        match self {
            RedisType::List { data } => Frame::List(boxed_frames(data@)),
            RedisType::BulkString { data } => Frame::BulkString(data@),
            RedisType::SimpleString { data } => Frame::SimpleString(data@),
            RedisType::NullBulkString => Frame::NullBulkString,
            RedisType::SimpleError { message } => Frame::SimpleError(message@),
            RedisType::RDBFile { file } => Frame::RDBFile(file@),
            RedisType::Multiple { parts } => Frame::Multiple(plain_frames(parts@)),
        }
    }
}

impl Clone for RedisType {
    /// A copy with the same model.
    fn clone(&self) -> (r: Self)
        ensures
            r@ == self@,
        decreases self,
    {
        match self {
            RedisType::List { data } => {
                let mut copy: Vec<Box<RedisType>> = Vec::new();
                let mut i: usize = 0;
                while i < data.len()
                    invariant
                        *self == (RedisType::List { data: *data }),
                        i <= data.len(),
                        copy.len() == i,
                        forall|j: int| 0 <= j < i ==> (#[trigger] copy[j])@ == data[j]@,
                    decreases data.len() - i,
                {
                    proof {
                        assert(decreases_to!(*self => self->List_data));
                        assert(decreases_to!(*data => data@));
                        assert(decreases_to!(data@ => data@[i as int]));
                    }
                    let item: RedisType = (*data[i]).clone();
                    copy.push(Box::new(item));
                    i = i + 1;
                }
                proof {
                    assert(boxed_frames(copy@) =~= boxed_frames(data@));
                }
                RedisType::List { data: copy }
            },
            RedisType::BulkString { data } => RedisType::BulkString { data: data.clone() },
            RedisType::SimpleString { data } => RedisType::SimpleString { data: data.clone() },
            RedisType::NullBulkString => RedisType::NullBulkString,
            RedisType::SimpleError { message } => RedisType::SimpleError {
                message: message.clone(),
            },
            RedisType::RDBFile { file } => RedisType::RDBFile { file: file.clone() },
            RedisType::Multiple { parts } => {
                let mut copy: Vec<RedisType> = Vec::new();
                let mut i: usize = 0;
                while i < parts.len()
                    invariant
                        *self == (RedisType::Multiple { parts: *parts }),
                        i <= parts.len(),
                        copy.len() == i,
                        forall|j: int| 0 <= j < i ==> (#[trigger] copy[j])@ == parts[j]@,
                    decreases parts.len() - i,
                {
                    proof {
                        assert(decreases_to!(*self => self->parts));
                        assert(decreases_to!(*parts => parts@));
                        assert(decreases_to!(parts@ => parts@[i as int]));
                    }
                    let item: RedisType = parts[i].clone();
                    copy.push(item);
                    i = i + 1;
                }
                proof {
                    assert(plain_frames(copy@) =~= plain_frames(parts@));
                }
                RedisType::Multiple { parts: copy }
            },
        }
    }
}

impl View for RedisType {
    type V = Frame;

    open spec fn view(&self) -> Frame {
        self.spec_frame()
    }
}

} // verus!
