//! Commands: what a client may ask of the server, how a frame is read as a
//! command, and how a command is written back as a frame.

use crate::codec::serialize;
use crate::decimal::{
    decimal_string, int_text, lemma_decimal_text, nat_text, parse_signed, parse_unsigned,
    signed_decimal_string, signed_value, unsigned_value,
};
use crate::redis_type::{boxed_frames, frame_text, plain_frames, Frame, RedisType};
use crate::RedisWritable;
use crate::text::{
    ascii_lower, eq_ignore_case, lemma_same_ignoring_case_ascii, same_ignoring_case, str_eq,
};
use vstd::prelude::*;
use vstd::slice::slice_subrange;
use vstd::utf8::encode_utf8;

verus! {

/// The mathematical model of the argument of `REPLCONF`.
pub enum ReplConf {
    /// The port on which the replica listens.
    Port(u16),
    /// The capabilities that the replica announces.
    Capabilities(Seq<Seq<char>>),
}

/// The mathematical model of a command.
#[allow(inconsistent_fields)]
pub enum Command {
    PING,
    ECHO(Seq<char>),
    /// `ttl` counts milliseconds.
    SET { key: Seq<char>, val: Frame, ttl: Option<u64> },
    GET { key: Seq<char> },
    INFO { arg: Seq<char> },
    REPLCONF { arg: ReplConf },
    PSYNC { master_id: Seq<char>, master_offset: i64 },
}

/// The argument of `REPLCONF`.
#[derive(Debug, PartialEq, Eq)]
pub enum ReplConfArgs {
    /// The port on which the replica listens.
    Port(u16),
    /// The capabilities that the replica announces.
    Capabilities(Vec<String>),
}

/// A command.
#[derive(Debug, PartialEq, Eq)]
#[allow(inconsistent_fields)]
pub enum RedisCommand {
    PING,
    ECHO(String),
    /// `ttl` counts milliseconds.
    SET { key: String, val: RedisType, ttl: Option<u64> },
    GET { key: String },
    INFO { arg: String },
    REPLCONF { arg: ReplConfArgs },
    PSYNC { master_id: String, master_offset: i64 },
}

/// The texts that `tokens` hold, in order.
pub open spec fn token_texts(tokens: Seq<String>) -> Seq<Seq<char>> {
    Seq::new(tokens.len(), |i: int| tokens[i]@)
}

impl View for ReplConfArgs {
    type V = ReplConf;

    open spec fn view(&self) -> ReplConf {
        match self {
            ReplConfArgs::Port(port) => ReplConf::Port(*port),
            ReplConfArgs::Capabilities(tokens) => ReplConf::Capabilities(token_texts(tokens@)),
        }
    }
}

impl View for RedisCommand {
    type V = Command;

    open spec fn view(&self) -> Command {
        match self {
            RedisCommand::PING => Command::PING,
            RedisCommand::ECHO(text) => Command::ECHO(text@),
            RedisCommand::SET { key, val, ttl } => Command::SET {
                key: key@,
                val: val@,
                ttl: *ttl,
            },
            RedisCommand::GET { key } => Command::GET { key: key@ },
            RedisCommand::INFO { arg } => Command::INFO { arg: arg@ },
            RedisCommand::REPLCONF { arg } => Command::REPLCONF { arg: arg@ },
            RedisCommand::PSYNC { master_id, master_offset } => Command::PSYNC {
                master_id: master_id@,
                master_offset: *master_offset,
            },
        }
    }
}

/// The unsigned number that a text spells, where it spells one below `limit`.
pub open spec fn text_unsigned(text: Seq<char>, limit: int) -> Option<nat> {
    match unsigned_value(encode_utf8(text)) {
        Some(v) => if v <= limit {
            Some(v)
        } else {
            None
        },
        None => None,
    }
}

/// `ECHO`: the first argument is the text to send back.
pub open spec fn spec_parse_echo(args: Seq<Frame>) -> Option<Command> {
    if args.len() >= 1 && frame_text(args[0]) is Some {
        Some(Command::ECHO(frame_text(args[0])->0))
    } else {
        None
    }
}

/// `GET`: the first argument is the key.
pub open spec fn spec_parse_get(args: Seq<Frame>) -> Option<Command> {
    if args.len() >= 1 && frame_text(args[0]) is Some {
        Some(Command::GET { key: frame_text(args[0])->0 })
    } else {
        None
    }
}

/// `INFO`: the first argument is the section.
pub open spec fn spec_parse_info(args: Seq<Frame>) -> Option<Command> {
    if args.len() >= 1 && frame_text(args[0]) is Some {
        Some(Command::INFO { arg: frame_text(args[0])->0 })
    } else {
        None
    }
}

/// The time to live that the flags of a `SET` give, read from `args[i]` on,
/// where `ttl` is what the flags before gave.
///
/// `PX` takes the element behind it as a number of milliseconds; where that
/// element is missing or spells no such number, no time to live is left. Any
/// other flag is passed over. `None` where a flag, or the element behind
/// `PX`, is not a string.
pub open spec fn spec_set_flags(args: Seq<Frame>, i: int, ttl: Option<u64>) -> Option<Option<u64>>
    decreases args.len() - i,
{
    if i < 0 || i >= args.len() {
        Some(ttl)
    } else {
        match frame_text(args[i]) {
            None => None,
            Some(flag) => if same_ignoring_case(flag, "PX"@) {
                if i + 1 < args.len() {
                    match frame_text(args[i + 1]) {
                        None => None,
                        Some(amount) => spec_set_flags(
                            args,
                            i + 2,
                            match text_unsigned(amount, u64::MAX as int) {
                                Some(v) => Some(v as u64),
                                None => None,
                            },
                        ),
                    }
                } else {
                    Some(None)
                }
            } else {
                spec_set_flags(args, i + 1, ttl)
            },
        }
    }
}

/// `SET`: a key, a value, then flags.
pub open spec fn spec_parse_set(args: Seq<Frame>) -> Option<Command> {
    if args.len() >= 2 && frame_text(args[0]) is Some {
        match spec_set_flags(args, 2, None) {
            Some(ttl) => Some(Command::SET { key: frame_text(args[0])->0, val: args[1], ttl }),
            None => None,
        }
    } else {
        None
    }
}

/// `REPLCONF`: `listening-port` and a port, or `capa` and a capability.
pub open spec fn spec_parse_replconf(args: Seq<Frame>) -> Option<Command> {
    if args.len() >= 2 && frame_text(args[0]) is Some && frame_text(args[1]) is Some {
        let what = frame_text(args[0])->0;
        let value = frame_text(args[1])->0;
        if what == "listening-port"@ {
            match text_unsigned(value, u16::MAX as int) {
                Some(port) => Some(Command::REPLCONF { arg: ReplConf::Port(port as u16) }),
                None => None,
            }
        } else if what == "capa"@ {
            Some(Command::REPLCONF { arg: ReplConf::Capabilities(seq![value]) })
        } else {
            None
        }
    } else {
        None
    }
}

/// `PSYNC`: exactly two arguments, the primary's id and an offset.
pub open spec fn spec_parse_psync(args: Seq<Frame>) -> Option<Command> {
    if args.len() == 2 && frame_text(args[0]) is Some && frame_text(args[1]) is Some {
        match signed_value(encode_utf8(frame_text(args[1])->0)) {
            Some(offset) => if i64::MIN <= offset <= i64::MAX {
                Some(
                    Command::PSYNC {
                        master_id: frame_text(args[0])->0,
                        master_offset: offset as i64,
                    },
                )
            } else {
                None
            },
            None => None,
        }
    } else {
        None
    }
}

/// The command with the given name and arguments, where case is ignored in
/// the name.
pub open spec fn spec_command_named(name: Seq<char>, args: Seq<Frame>) -> Option<Command> {
    if same_ignoring_case(name, "echo"@) {
        spec_parse_echo(args)
    } else if same_ignoring_case(name, "get"@) {
        spec_parse_get(args)
    } else if same_ignoring_case(name, "set"@) {
        spec_parse_set(args)
    } else if same_ignoring_case(name, "info"@) {
        spec_parse_info(args)
    } else if same_ignoring_case(name, "replconf"@) {
        spec_parse_replconf(args)
    } else if same_ignoring_case(name, "psync"@) {
        spec_parse_psync(args)
    } else {
        None
    }
}

/// The command that a frame stands for, if any.
///
/// A bare string is a command only where it spells `ping`. A list of one
/// element is read as that element. A longer list gives the name and then the
/// arguments. Anything else is no command.
pub open spec fn spec_parse_command(f: Frame) -> Option<Command>
    decreases f,
{
    match f {
        Frame::List(items) => if items.len() == 0 {
            None
        } else if items.len() == 1 {
            spec_parse_command(items[0])
        } else {
            match frame_text(items[0]) {
                Some(name) => spec_command_named(name, items.subrange(1, items.len() as int)),
                None => None,
            }
        },
        Frame::BulkString(text) => if same_ignoring_case(text, "ping"@) {
            Some(Command::PING)
        } else {
            None
        },
        Frame::SimpleString(text) => if same_ignoring_case(text, "ping"@) {
            Some(Command::PING)
        } else {
            None
        },
        _ => None,
    }
}

/// Whether `got` is the command that `want` describes, or neither is one.
pub open spec fn same_command(got: Option<RedisCommand>, want: Option<Command>) -> bool {
    match got {
        Some(command) => want == Some(command@),
        None => want is None,
    }
}

/// The frames that announce `tokens`: before each token, the word `capa`.
pub open spec fn capability_frames(tokens: Seq<Seq<char>>) -> Seq<Frame> {
    Seq::new(
        2 * tokens.len(),
        |k: int|
            if k % 2 == 0 {
                Frame::BulkString("capa"@)
            } else {
                Frame::BulkString(tokens[k / 2])
            },
    )
}

/// The bulk strings that make up a command on the wire: its name in capitals,
/// then its arguments.
pub open spec fn command_parts(c: Command) -> Seq<Frame> {
    match c {
        Command::PING => seq![Frame::BulkString("PING"@)],
        Command::ECHO(text) => seq![Frame::BulkString("ECHO"@), Frame::BulkString(text)],
        Command::SET { key, val, ttl } => match ttl {
            Some(millis) => seq![
                Frame::BulkString("SET"@),
                Frame::BulkString(key),
                val,
                Frame::BulkString("PX"@),
                Frame::BulkString(nat_text(millis as nat)),
            ],
            None => seq![Frame::BulkString("SET"@), Frame::BulkString(key), val],
        },
        Command::GET { key } => seq![Frame::BulkString("GET"@), Frame::BulkString(key)],
        Command::INFO { arg } => seq![Frame::BulkString("INFO"@), Frame::BulkString(arg)],
        Command::REPLCONF { arg } => match arg {
            ReplConf::Port(port) => seq![
                Frame::BulkString("REPLCONF"@),
                Frame::BulkString("listening-port"@),
                Frame::BulkString(nat_text(port as nat)),
            ],
            ReplConf::Capabilities(tokens) => seq![Frame::BulkString("REPLCONF"@)]
                + capability_frames(tokens),
        },
        Command::PSYNC { master_id, master_offset } => seq![
            Frame::BulkString("PSYNC"@),
            Frame::BulkString(master_id),
            Frame::BulkString(int_text(master_offset as int)),
        ],
    }
}

/// The frame that carries a command: the list of its parts.
pub open spec fn command_frame(c: Command) -> Frame {
    Frame::List(command_parts(c))
}

/// Whether a command changes the keyspace: only `SET` does.
pub open spec fn spec_is_write(c: Command) -> bool {
    c is SET
}

/// Whether a command is read back from the frame that carries it: capabilities
/// are announced one at a time.
pub open spec fn single_capability(c: Command) -> bool {
    match c {
        Command::REPLCONF { arg } => match arg {
            ReplConf::Capabilities(tokens) => tokens.len() == 1,
            ReplConf::Port(_) => true,
        },
        _ => true,
    }
}

/// The names `PING`, `ECHO` and `GET` are themselves when case is ignored,
/// and `GET` is not `ECHO`.
proof fn lemma_names_ping_echo_get()
    ensures
        same_ignoring_case("PING"@, "ping"@),
        same_ignoring_case("ECHO"@, "echo"@),
        !same_ignoring_case("GET"@, "echo"@),
        same_ignoring_case("GET"@, "get"@),
{
    reveal_strlit("PING");
    reveal_strlit("ping");
    reveal_strlit("ECHO");
    reveal_strlit("echo");
    reveal_strlit("GET");
    reveal_strlit("get");
    lemma_same_ignoring_case_ascii("PING"@, "ping"@);
    lemma_same_ignoring_case_ascii("ECHO"@, "echo"@);
    lemma_same_ignoring_case_ascii("GET"@, "echo"@);
    lemma_same_ignoring_case_ascii("GET"@, "get"@);
}

/// The name `SET` is itself when case is ignored, and no name before it.
proof fn lemma_name_set()
    ensures
        !same_ignoring_case("SET"@, "echo"@),
        !same_ignoring_case("SET"@, "get"@),
        same_ignoring_case("SET"@, "set"@),
{
    reveal_strlit("SET");
    reveal_strlit("echo");
    reveal_strlit("get");
    reveal_strlit("set");
    lemma_same_ignoring_case_ascii("SET"@, "echo"@);
    lemma_same_ignoring_case_ascii("SET"@, "get"@);
    lemma_same_ignoring_case_ascii("SET"@, "set"@);
    assert(ascii_lower("SET"@[0] as u8) != ascii_lower("get"@[0] as u8));
}

/// The name `INFO` is itself when case is ignored, and no name before it.
proof fn lemma_name_info()
    ensures
        !same_ignoring_case("INFO"@, "echo"@),
        !same_ignoring_case("INFO"@, "get"@),
        !same_ignoring_case("INFO"@, "set"@),
        same_ignoring_case("INFO"@, "info"@),
{
    reveal_strlit("INFO");
    reveal_strlit("echo");
    reveal_strlit("get");
    reveal_strlit("set");
    reveal_strlit("info");
    lemma_same_ignoring_case_ascii("INFO"@, "echo"@);
    lemma_same_ignoring_case_ascii("INFO"@, "get"@);
    lemma_same_ignoring_case_ascii("INFO"@, "set"@);
    lemma_same_ignoring_case_ascii("INFO"@, "info"@);
    assert(ascii_lower("INFO"@[0] as u8) != ascii_lower("echo"@[0] as u8));
}

/// The name `REPLCONF` is itself when case is ignored, and no name before it.
proof fn lemma_name_replconf()
    ensures
        !same_ignoring_case("REPLCONF"@, "echo"@),
        !same_ignoring_case("REPLCONF"@, "get"@),
        !same_ignoring_case("REPLCONF"@, "set"@),
        !same_ignoring_case("REPLCONF"@, "info"@),
        same_ignoring_case("REPLCONF"@, "replconf"@),
{
    reveal_strlit("REPLCONF");
    reveal_strlit("echo");
    reveal_strlit("get");
    reveal_strlit("set");
    reveal_strlit("info");
    reveal_strlit("replconf");
    lemma_same_ignoring_case_ascii("REPLCONF"@, "echo"@);
    lemma_same_ignoring_case_ascii("REPLCONF"@, "get"@);
    lemma_same_ignoring_case_ascii("REPLCONF"@, "set"@);
    lemma_same_ignoring_case_ascii("REPLCONF"@, "info"@);
    lemma_same_ignoring_case_ascii("REPLCONF"@, "replconf"@);
}

/// The name `PSYNC` is itself when case is ignored, and no name before it.
proof fn lemma_name_psync()
    ensures
        !same_ignoring_case("PSYNC"@, "echo"@),
        !same_ignoring_case("PSYNC"@, "get"@),
        !same_ignoring_case("PSYNC"@, "set"@),
        !same_ignoring_case("PSYNC"@, "info"@),
        !same_ignoring_case("PSYNC"@, "replconf"@),
        same_ignoring_case("PSYNC"@, "psync"@),
{
    reveal_strlit("PSYNC");
    reveal_strlit("echo");
    reveal_strlit("get");
    reveal_strlit("set");
    reveal_strlit("info");
    reveal_strlit("replconf");
    reveal_strlit("psync");
    lemma_same_ignoring_case_ascii("PSYNC"@, "echo"@);
    lemma_same_ignoring_case_ascii("PSYNC"@, "get"@);
    lemma_same_ignoring_case_ascii("PSYNC"@, "set"@);
    lemma_same_ignoring_case_ascii("PSYNC"@, "info"@);
    lemma_same_ignoring_case_ascii("PSYNC"@, "replconf"@);
    lemma_same_ignoring_case_ascii("PSYNC"@, "psync"@);
}

/// A command is read back from the frame that carries it.
pub proof fn lemma_command_round_trip(c: Command)
    requires
        single_capability(c),
    ensures
        spec_parse_command(command_frame(c)) == Some(c),
{
    let parts = command_parts(c);
    let args = parts.subrange(1, parts.len() as int);
    match c {
        Command::PING => {
            lemma_names_ping_echo_get();
            assert(parts[0] == Frame::BulkString("PING"@));
            assert(spec_parse_command(parts[0]) == Some(c));
            assert(spec_parse_command(command_frame(c)) == Some(c));
        },
        Command::ECHO(text) => {
            lemma_names_ping_echo_get();
            assert(args[0] == Frame::BulkString(text));
            assert(spec_parse_echo(args) == Some(c));
            assert(spec_parse_command(command_frame(c)) == Some(c));
        },
        Command::GET { key } => {
            lemma_names_ping_echo_get();
            assert(args[0] == Frame::BulkString(key));
            assert(spec_parse_get(args) == Some(c));
            assert(spec_parse_command(command_frame(c)) == Some(c));
        },
        Command::SET { key, val, ttl } => {
            lemma_name_set();
            assert(args[0] == Frame::BulkString(key));
            assert(args[1] == val);
            match ttl {
                Some(millis) => {
                    assert(args[2] == Frame::BulkString("PX"@));
                    assert(args[3] == Frame::BulkString(nat_text(millis as nat)));
                    lemma_decimal_text(millis as int);
                    assert(spec_set_flags(args, 4, Some(millis)) == Some(Some(millis)));
                    assert(spec_set_flags(args, 2, None) == Some(Some(millis)));
                },
                None => {
                    assert(spec_set_flags(args, 2, None) == Some(None::<u64>));
                },
            }
            assert(spec_parse_set(args) == Some(c));
            assert(spec_parse_command(command_frame(c)) == Some(c));
        },
        Command::INFO { arg } => {
            lemma_name_info();
            assert(args[0] == Frame::BulkString(arg));
            assert(spec_parse_info(args) == Some(c));
            assert(spec_parse_command(command_frame(c)) == Some(c));
        },
        Command::REPLCONF { arg } => {
            lemma_name_replconf();
            match arg {
                ReplConf::Port(port) => {
                    assert(args[0] == Frame::BulkString("listening-port"@));
                    assert(args[1] == Frame::BulkString(nat_text(port as nat)));
                    lemma_decimal_text(port as int);
                },
                ReplConf::Capabilities(tokens) => {
                    reveal_strlit("listening-port");
                    reveal_strlit("capa");
                    assert("capa"@ != "listening-port"@);
                    assert(args[0] == Frame::BulkString("capa"@));
                    assert(args[1] == Frame::BulkString(tokens[0]));
                    assert(seq![tokens[0]] =~= tokens);
                },
            }
            assert(spec_parse_replconf(args) == Some(c));
            assert(spec_parse_command(command_frame(c)) == Some(c));
        },
        Command::PSYNC { master_id, master_offset } => {
            lemma_name_psync();
            assert(args[0] == Frame::BulkString(master_id));
            assert(args[1] == Frame::BulkString(int_text(master_offset as int)));
            lemma_decimal_text(master_offset as int);
            assert(spec_parse_psync(args) == Some(c));
            assert(spec_parse_command(command_frame(c)) == Some(c));
        },
    }
}

/// `args`, as the frames that it models, holds what the boxes hold.
proof fn lemma_boxed_item(args: Seq<Box<RedisType>>, i: int)
    requires
        0 <= i < args.len(),
    ensures
        boxed_frames(args)[i] == args[i]@,
{
}

impl Clone for ReplConfArgs {
    /// A copy with the same model.
    fn clone(&self) -> (r: Self)
        ensures
            r@ == self@,
    {
        match self {
            ReplConfArgs::Port(port) => ReplConfArgs::Port(*port),
            ReplConfArgs::Capabilities(tokens) => {
                let mut copy: Vec<String> = Vec::new();
                let mut i: usize = 0;
                while i < tokens.len()
                    invariant
                        i <= tokens.len(),
                        copy.len() == i,
                        forall|j: int| 0 <= j < i ==> (#[trigger] copy[j])@ == tokens[j]@,
                    decreases tokens.len() - i,
                {
                    copy.push(tokens[i].clone());
                    i = i + 1;
                }
                proof {
                    assert(token_texts(copy@) =~= token_texts(tokens@));
                }
                ReplConfArgs::Capabilities(copy)
            },
        }
    }
}

impl Clone for RedisCommand {
    /// A copy with the same model.
    fn clone(&self) -> (r: Self)
        ensures
            r@ == self@,
    {
        match self {
            RedisCommand::PING => RedisCommand::PING,
            RedisCommand::ECHO(text) => RedisCommand::ECHO(text.clone()),
            RedisCommand::SET { key, val, ttl } => RedisCommand::SET {
                key: key.clone(),
                val: val.clone(),
                ttl: *ttl,
            },
            RedisCommand::GET { key } => RedisCommand::GET { key: key.clone() },
            RedisCommand::INFO { arg } => RedisCommand::INFO { arg: arg.clone() },
            RedisCommand::REPLCONF { arg } => RedisCommand::REPLCONF { arg: arg.clone() },
            RedisCommand::PSYNC { master_id, master_offset } => RedisCommand::PSYNC {
                master_id: master_id.clone(),
                master_offset: *master_offset,
            },
        }
    }
}

impl RedisCommand {
    /// Whether this command changes the keyspace: only `SET` does.
    pub fn is_write_command(&self) -> (r: bool)
        ensures
            r == spec_is_write(self@),
    {
        match self {
            RedisCommand::SET { .. } => true,
            _ => false,
        }
    }

    /// `REPLCONF capa psync2`, the capabilities that a replica announces.
    pub fn default_capabilities() -> (r: RedisCommand)
        ensures
            r@ == (Command::REPLCONF { arg: ReplConf::Capabilities(seq!["psync2"@]) }),
    {
        let mut tokens: Vec<String> = Vec::new();
        tokens.push("psync2".to_owned());
        proof {
            assert(token_texts(tokens@) =~= seq!["psync2"@]);
        }
        RedisCommand::REPLCONF { arg: ReplConfArgs::Capabilities(tokens) }
    }

    /// `PSYNC ? -1`, the request for a full copy of the data.
    pub fn psync_from_scrath() -> (r: RedisCommand)
        ensures
            r@ == (Command::PSYNC { master_id: "?"@, master_offset: -1i64 }),
    {
        RedisCommand::PSYNC { master_id: "?".to_owned(), master_offset: -1 }
    }

    /// The frame that carries this command: a list that holds its name in
    /// capitals and then its arguments, each as a bulk string (the value of a
    /// `SET` as the frame it is).
    pub fn to_frame(&self) -> (r: RedisType)
        ensures
            r@ == command_frame(self@),
    {
        let mut parts: Vec<RedisType> = Vec::new();
        match self {
            RedisCommand::PING => {
                parts.push(RedisType::bulk_string("PING"));
            },
            RedisCommand::ECHO(text) => {
                parts.push(RedisType::bulk_string("ECHO"));
                parts.push(RedisType::bulk_string(text.as_str()));
            },
            RedisCommand::SET { key, val, ttl } => {
                parts.push(RedisType::bulk_string("SET"));
                parts.push(RedisType::bulk_string(key.as_str()));
                parts.push(val.clone());
                match ttl {
                    Some(millis) => {
                        parts.push(RedisType::bulk_string("PX"));
                        parts.push(RedisType::bulk_string(decimal_string(*millis).as_str()));
                    },
                    None => {},
                }
            },
            RedisCommand::GET { key } => {
                parts.push(RedisType::bulk_string("GET"));
                parts.push(RedisType::bulk_string(key.as_str()));
            },
            RedisCommand::INFO { arg } => {
                parts.push(RedisType::bulk_string("INFO"));
                parts.push(RedisType::bulk_string(arg.as_str()));
            },
            RedisCommand::REPLCONF { arg } => {
                parts.push(RedisType::bulk_string("REPLCONF"));
                match arg {
                    ReplConfArgs::Port(port) => {
                        parts.push(RedisType::bulk_string("listening-port"));
                        parts.push(RedisType::bulk_string(decimal_string(*port as u64).as_str()));
                    },
                    ReplConfArgs::Capabilities(tokens) => {
                        let ghost texts = token_texts(tokens@);
                        let mut i: usize = 0;
                        while i < tokens.len()
                            invariant
                                i <= tokens.len(),
                                texts == token_texts(tokens@),
                                parts.len() == 1 + 2 * i,
                                parts[0]@ == Frame::BulkString("REPLCONF"@),
                                forall|k: int|
                                    0 <= k < 2 * i ==> (#[trigger] parts[1 + k])@
                                        == capability_frames(texts)[k],
                            decreases tokens.len() - i,
                        {
                            parts.push(RedisType::bulk_string("capa"));
                            parts.push(RedisType::bulk_string(tokens[i].as_str()));
                            i = i + 1;
                        }
                        proof {
                            let want = seq![Frame::BulkString("REPLCONF"@)] + capability_frames(
                                texts,
                            );
                            assert forall|k: int| 0 <= k < want.len() implies plain_frames(
                                parts@,
                            )[k] == want[k] by {
                                if k > 0 {
                                    assert(parts[1 + (k - 1)]@ == capability_frames(texts)[k - 1]);
                                }
                            }
                            assert(plain_frames(parts@) =~= want);
                        }
                    },
                }
            },
            RedisCommand::PSYNC { master_id, master_offset } => {
                parts.push(RedisType::bulk_string("PSYNC"));
                parts.push(RedisType::bulk_string(master_id.as_str()));
                parts.push(RedisType::bulk_string(signed_decimal_string(*master_offset).as_str()));
            },
        }
        proof {
            assert(plain_frames(parts@) =~= command_parts(self@));
        }
        RedisType::list(parts)
    }

    /// Reads a frame as a command.
    ///
    /// A bare string is a command only where it spells `ping`, whatever its
    /// case. A list of one element is read as that element. A longer list
    /// gives the command's name, whatever its case, and then the arguments.
    /// Returns `None` for any other frame and for arguments that do not fit
    /// the command.
    pub fn parse(data: &RedisType) -> (r: Option<RedisCommand>)
        ensures
            same_command(r, spec_parse_command(data@)),
        decreases data,
    {
        match data {
            RedisType::List { data: items } => {
                let n: usize = items.len();
                if n == 0 {
                    None
                } else if n == 1 {
                    proof {
                        assert(decreases_to!(*data => data->List_data));
                        assert(decreases_to!(*items => items@));
                        lemma_boxed_item(items@, 0);
                    }
                    RedisCommand::parse(&items[0])
                } else {
                    let rest = slice_subrange(items.as_slice(), 1, n);
                    proof {
                        lemma_boxed_item(items@, 0);
                        assert(boxed_frames(rest@) =~= boxed_frames(items@).subrange(1, n as int));
                    }
                    match items[0].extract_string() {
                        Some(name) => RedisCommand::command_named(name, rest),
                        None => None,
                    }
                }
            },
            RedisType::BulkString { data: text } => {
                if eq_ignore_case(text.as_str(), "ping") {
                    Some(RedisCommand::PING)
                } else {
                    None
                }
            },
            RedisType::SimpleString { data: text } => {
                if eq_ignore_case(text.as_str(), "ping") {
                    Some(RedisCommand::PING)
                } else {
                    None
                }
            },
            _ => None,
        }
    }

    /// Reads the command with the given name from its arguments, ignoring
    /// case in the name.
    pub fn command_named(name: &str, args: &[Box<RedisType>]) -> (r: Option<RedisCommand>)
        ensures
            same_command(r, spec_command_named(name@, boxed_frames(args@))),
    {
        if eq_ignore_case(name, "echo") {
            RedisCommand::parse_echo(args)
        } else if eq_ignore_case(name, "get") {
            RedisCommand::parse_get(args)
        } else if eq_ignore_case(name, "set") {
            RedisCommand::parse_set(args)
        } else if eq_ignore_case(name, "info") {
            RedisCommand::parse_info(args)
        } else if eq_ignore_case(name, "replconf") {
            RedisCommand::parse_replconf(args)
        } else if eq_ignore_case(name, "psync") {
            RedisCommand::parse_psync(args)
        } else {
            None
        }
    }

    /// Reads the arguments of `ECHO`: the first is the text to send back.
    pub fn parse_echo(data: &[Box<RedisType>]) -> (r: Option<RedisCommand>)
        ensures
            same_command(r, spec_parse_echo(boxed_frames(data@))),
    {
        if data.len() == 0 {
            return None;
        }
        proof {
            lemma_boxed_item(data@, 0);
        }
        match data[0].extract_string() {
            Some(text) => Some(RedisCommand::ECHO(text.to_owned())),
            None => None,
        }
    }

    /// Reads the arguments of `GET`: the first is the key.
    pub fn parse_get(data: &[Box<RedisType>]) -> (r: Option<RedisCommand>)
        ensures
            same_command(r, spec_parse_get(boxed_frames(data@))),
    {
        if data.len() == 0 {
            return None;
        }
        proof {
            lemma_boxed_item(data@, 0);
        }
        match data[0].extract_string() {
            Some(key) => Some(RedisCommand::GET { key: key.to_owned() }),
            None => None,
        }
    }

    /// Reads the arguments of `SET`: a key, a value, then flags.
    ///
    /// `PX` and a number set the time to live in milliseconds; where the
    /// number is missing or malformed no time to live is left. Other flags are
    /// passed over. Returns `None` where the key, a flag or the element behind
    /// `PX` is not a string, and where fewer than two arguments are given.
    pub fn parse_set(data: &[Box<RedisType>]) -> (r: Option<RedisCommand>)
        ensures
            same_command(r, spec_parse_set(boxed_frames(data@))),
    {
        let n: usize = data.len();
        if n < 2 {
            return None;
        }
        proof {
            lemma_boxed_item(data@, 0);
            lemma_boxed_item(data@, 1);
        }
        let key: String = match data[0].extract_string() {
            Some(key) => key.to_owned(),
            None => {
                return None;
            },
        };
        let val: RedisType = (*data[1]).clone();
        let ghost args = boxed_frames(data@);
        let mut ttl: Option<u64> = None;
        let mut i: usize = 2;
        while i < n
            invariant
                2 <= i <= n,
                n == data@.len(),
                args == boxed_frames(data@),
                frame_text(args[0]) == Some(key@),
                val@ == args[1],
                spec_set_flags(args, 2, None) == spec_set_flags(args, i as int, ttl),
            decreases n - i,
        {
            proof {
                lemma_boxed_item(data@, i as int);
            }
            match data[i].extract_string() {
                Some(flag) => {
                    if eq_ignore_case(flag, "PX") {
                        if i + 1 < n {
                            proof {
                                lemma_boxed_item(data@, i + 1);
                            }
                            match data[i + 1].extract_string() {
                                Some(amount) => {
                                    ttl = parse_unsigned(amount.as_bytes());
                                    i = i + 2;
                                },
                                None => {
                                    return None;
                                },
                            }
                        } else {
                            return Some(RedisCommand::SET { key, val, ttl: None });
                        }
                    } else {
                        i = i + 1;
                    }
                },
                None => {
                    return None;
                },
            }
        }
        Some(RedisCommand::SET { key, val, ttl })
    }

    /// Reads the arguments of `INFO`: the first is the section.
    pub fn parse_info(data: &[Box<RedisType>]) -> (r: Option<RedisCommand>)
        ensures
            same_command(r, spec_parse_info(boxed_frames(data@))),
    {
        if data.len() == 0 {
            return None;
        }
        proof {
            lemma_boxed_item(data@, 0);
        }
        match data[0].extract_string() {
            Some(arg) => Some(RedisCommand::INFO { arg: arg.to_owned() }),
            None => None,
        }
    }

    /// Reads the arguments of `REPLCONF`: `listening-port` and a port, or
    /// `capa` and a capability.
    pub fn parse_replconf(data: &[Box<RedisType>]) -> (r: Option<RedisCommand>)
        ensures
            same_command(r, spec_parse_replconf(boxed_frames(data@))),
    {
        if data.len() < 2 {
            return None;
        }
        proof {
            lemma_boxed_item(data@, 0);
            lemma_boxed_item(data@, 1);
        }
        let what: &str = match data[0].extract_string() {
            Some(what) => what,
            None => {
                return None;
            },
        };
        let value: &str = match data[1].extract_string() {
            Some(value) => value,
            None => {
                return None;
            },
        };
        if str_eq(what, "listening-port") {
            match parse_unsigned(value.as_bytes()) {
                Some(port) => {
                    if port <= 0xffff {
                        Some(RedisCommand::REPLCONF { arg: ReplConfArgs::Port(port as u16) })
                    } else {
                        None
                    }
                },
                None => None,
            }
        } else if str_eq(what, "capa") {
            let mut tokens: Vec<String> = Vec::new();
            tokens.push(value.to_owned());
            proof {
                assert(token_texts(tokens@) =~= seq![value@]);
            }
            Some(RedisCommand::REPLCONF { arg: ReplConfArgs::Capabilities(tokens) })
        } else {
            None
        }
    }

    /// Reads the arguments of `PSYNC`: exactly two, the primary's id and an
    /// offset, which is a signed number.
    pub fn parse_psync(data: &[Box<RedisType>]) -> (r: Option<RedisCommand>)
        ensures
            same_command(r, spec_parse_psync(boxed_frames(data@))),
    {
        if data.len() != 2 {
            return None;
        }
        proof {
            lemma_boxed_item(data@, 0);
            lemma_boxed_item(data@, 1);
        }
        let master_id: String = match data[0].extract_string() {
            Some(id) => id.to_owned(),
            None => {
                return None;
            },
        };
        let offset: &str = match data[1].extract_string() {
            Some(offset) => offset,
            None => {
                return None;
            },
        };
        match parse_signed(offset.as_bytes()) {
            Some(master_offset) => Some(RedisCommand::PSYNC { master_id, master_offset }),
            None => None,
        }
    }
}

impl RedisWritable for RedisCommand {
    open spec fn spec_protocol(&self) -> Seq<u8> {
        serialize(command_frame(self@))
    }

    fn write_as_protocol(&self) -> (bytes: Vec<u8>) {
        self.to_frame().write_as_protocol()
    }
}

} // verus!
