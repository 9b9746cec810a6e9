//! The replica's side of replication: the handshake with the primary, step by
//! step, and the pauses between attempts.

use crate::decimal::{int_text, nat_digits, nat_text, parse_signed, signed_value};
use crate::rdb_file::{is_rdb, spec_is_rdb};
use crate::redis_command::{
    capability_frames, command_frame, Command, RedisCommand, ReplConf, ReplConfArgs,
};
use crate::redis_runtime::{RedisRuntime, Runtime};
use crate::redis_type::{spec_expect_string, ExpectError, ExpectFault, Frame, RedisType};
use crate::text::{
    eq_ignore_case, part_texts, same_ignoring_case, split_whitespace, whitespace_split,
};
use vstd::prelude::*;
use vstd::utf8::encode_utf8;

verus! {

/// Where a replica stands in its handshake with the primary.
#[derive(Debug, PartialEq, Eq, Clone, Copy)]
pub enum HandshakeState {
    /// `PING` is sent, `PONG` is awaited.
    Ping,
    /// The listening port is announced, `OK` is awaited.
    ListeningPort,
    /// The capabilities are announced, `OK` is awaited.
    Capabilities,
    /// A full resynchronisation is asked for, its first line is awaited.
    Psync,
    /// The snapshot is awaited.
    Snapshot,
    /// The handshake is over: commands follow.
    Ready,
}

/// What a replica does next in its handshake.
#[derive(Debug, PartialEq, Eq)]
pub enum HandshakeAction {
    /// Send the command and read one frame.
    Send(RedisCommand),
    /// Read the snapshot.
    ReadSnapshot,
    /// Hand the connection over: the handshake is over.
    Ready,
}

/// The mathematical model of `HandshakeAction`.
pub enum Action {
    Send(Command),
    ReadSnapshot,
    Ready,
}

impl View for HandshakeAction {
    type V = Action;

    open spec fn view(&self) -> Action {
        match self {
            HandshakeAction::Send(command) => Action::Send(command@),
            HandshakeAction::ReadSnapshot => Action::ReadSnapshot,
            HandshakeAction::Ready => Action::Ready,
        }
    }
}

/// Why a handshake failed.
#[derive(Debug, PartialEq, Eq)]
pub enum HandshakeError {
    /// The primary did not answer with the simple string that was expected.
    UnexpectedReply(ExpectError),
    /// The answer to `PSYNC` is no simple string.
    UnexpectedPsyncType { received: RedisType },
    /// The answer to `PSYNC` is not `FULLRESYNC`, an identifier and 0.
    UnexpectedFullResync { data: String },
    /// What came in place of the snapshot is no snapshot.
    UnexpectedRdbType { received: RedisType },
    /// The snapshot does not open as a database image does.
    NotAnRdbFile,
    /// A reply came after the handshake was over.
    AlreadyReady,
    /// The server is a primary: it has no handshake to make.
    NotAReplica,
}

/// What a replica that listens on `port` does in the given state.
pub open spec fn spec_handshake_action(state: HandshakeState, port: u16) -> Action {
    match state {
        HandshakeState::Ping => Action::Send(Command::PING),
        HandshakeState::ListeningPort => Action::Send(
            Command::REPLCONF { arg: ReplConf::Port(port) },
        ),
        HandshakeState::Capabilities => Action::Send(
            Command::REPLCONF { arg: ReplConf::Capabilities(seq!["psync2"@]) },
        ),
        HandshakeState::Psync => Action::Send(
            Command::PSYNC { master_id: "?"@, master_offset: -1i64 },
        ),
        HandshakeState::Snapshot => Action::ReadSnapshot,
        HandshakeState::Ready => Action::Ready,
    }
}

/// The state that follows `state` once its reply was accepted.
pub open spec fn next_state(state: HandshakeState) -> HandshakeState {
    match state {
        HandshakeState::Ping => HandshakeState::ListeningPort,
        HandshakeState::ListeningPort => HandshakeState::Capabilities,
        HandshakeState::Capabilities => HandshakeState::Psync,
        HandshakeState::Psync => HandshakeState::Snapshot,
        HandshakeState::Snapshot => HandshakeState::Ready,
        HandshakeState::Ready => HandshakeState::Ready,
    }
}

/// The replication identifier that the parts of the first line of a full
/// resynchronisation give: they are `FULLRESYNC`, whatever its case, the
/// identifier, and a number that is 0.
pub open spec fn spec_fullresync_id(parts: Seq<Seq<char>>) -> Option<Seq<char>> {
    if parts.len() == 3 && same_ignoring_case(parts[0], "FULLRESYNC"@) && signed_value(
        encode_utf8(parts[2]),
    ) == Some(0int) {
        Some(parts[1])
    } else {
        None
    }
}

/// The mathematical model of `HandshakeError`.
pub enum HandshakeFault {
    UnexpectedReply(ExpectFault),
    UnexpectedPsyncType { received: Frame },
    UnexpectedFullResync { data: Seq<char> },
    UnexpectedRdbType { received: Frame },
    NotAnRdbFile,
    AlreadyReady,
    NotAReplica,
}

impl View for HandshakeError {
    type V = HandshakeFault;

    open spec fn view(&self) -> HandshakeFault {
        match self {
            HandshakeError::UnexpectedReply(e) => HandshakeFault::UnexpectedReply(e@),
            HandshakeError::UnexpectedPsyncType { received } => {
                HandshakeFault::UnexpectedPsyncType { received: received@ }
            },
            HandshakeError::UnexpectedFullResync { data } => HandshakeFault::UnexpectedFullResync {
                data: data@,
            },
            HandshakeError::UnexpectedRdbType { received } => HandshakeFault::UnexpectedRdbType {
                received: received@,
            },
            HandshakeError::NotAnRdbFile => HandshakeFault::NotAnRdbFile,
            HandshakeError::AlreadyReady => HandshakeFault::AlreadyReady,
            HandshakeError::NotAReplica => HandshakeFault::NotAReplica,
        }
    }
}

/// What expecting the simple string `expected` of `reply` gives: success
/// where `reply` is a simple string equal to `expected` once both are made
/// lowercase; otherwise an error that holds what was passed in.
pub open spec fn spec_expect_simple(
    reply: Frame,
    expected: Seq<char>,
    message_start: Seq<char>,
) -> Result<(), HandshakeFault> {
    if reply is SimpleString && spec_expect_string(reply, expected, message_start) is Ok {
        Ok(())
    } else {
        Err(
            HandshakeFault::UnexpectedReply(
                ExpectFault { message_start, expected, received: reply },
            ),
        )
    }
}

/// What the line `data` gives as the first line of a full resynchronisation:
/// the replication identifier, where its parts are `FULLRESYNC`, the
/// identifier and 0.
pub open spec fn spec_parse_fullresync(data: Seq<char>) -> Result<Seq<char>, HandshakeFault> {
    match spec_fullresync_id(whitespace_split(data)) {
        Some(id) => Ok(id),
        None => Err(HandshakeFault::UnexpectedFullResync { data }),
    }
}

/// What the answer to `PSYNC` gives: the replication identifier, where the
/// answer is a simple string that reads `FULLRESYNC <id> 0`.
pub open spec fn spec_handle_psync(response: Frame) -> Result<Seq<char>, HandshakeFault> {
    match response {
        Frame::SimpleString(data) => spec_parse_fullresync(data),
        _ => Err(HandshakeFault::UnexpectedPsyncType { received: response }),
    }
}

/// What the frame that came as the snapshot gives: success where it is a
/// snapshot that opens with `REDIS`.
pub open spec fn spec_handle_rdb_file(response: Frame) -> Result<(), HandshakeFault> {
    match response {
        Frame::RDBFile(file) => if spec_is_rdb(file) {
            Ok(())
        } else {
            Err(HandshakeFault::NotAnRdbFile)
        },
        _ => Err(HandshakeFault::UnexpectedRdbType { received: response }),
    }
}

/// The outcome of a step in the given state: the state that follows where
/// the step succeeded, its error otherwise.
pub open spec fn step<T>(state: HandshakeState, outcome: Result<T, HandshakeFault>) -> Result<
    HandshakeState,
    HandshakeFault,
> {
    match outcome {
        Ok(_) => Ok(next_state(state)),
        Err(e) => Err(e),
    }
}

/// What the primary's reply leads to in the given state: the state that
/// follows, where the reply is what the primary owes; otherwise the error.
pub open spec fn spec_handle_reply(state: HandshakeState, reply: Frame) -> Result<
    HandshakeState,
    HandshakeFault,
> {
    match state {
        HandshakeState::Ping => step(
            state,
            spec_expect_simple(reply, "pong"@, "Unexpected return from ping"@),
        ),
        HandshakeState::ListeningPort => step(
            state,
            spec_expect_simple(reply, "ok"@, "Unexpected return from REPLCONF port"@),
        ),
        HandshakeState::Capabilities => step(
            state,
            spec_expect_simple(reply, "ok"@, "Unexpected return from REPLCONF capabilities"@),
        ),
        HandshakeState::Psync => step(state, spec_handle_psync(reply)),
        HandshakeState::Snapshot => step(state, spec_handle_rdb_file(reply)),
        HandshakeState::Ready => Err(HandshakeFault::AlreadyReady),
    }
}

/// Whether `got` is what `want` describes.
pub open spec fn same_step(got: Result<HandshakeState, HandshakeError>, want: Result<
    HandshakeState,
    HandshakeFault,
>) -> bool {
    match got {
        Ok(state) => want == Ok::<HandshakeState, HandshakeFault>(state),
        Err(e) => want == Err::<HandshakeState, HandshakeFault>(e@),
    }
}

/// Whether `got` is what `want` describes.
pub open spec fn same_text(got: Result<String, HandshakeError>, want: Result<
    Seq<char>,
    HandshakeFault,
>) -> bool {
    match got {
        Ok(text) => want == Ok::<Seq<char>, HandshakeFault>(text@),
        Err(e) => want == Err::<Seq<char>, HandshakeFault>(e@),
    }
}

/// Whether `got` is what `want` describes.
pub open spec fn same_unit(
    got: Result<(), HandshakeError>,
    want: Result<(), HandshakeFault>,
) -> bool {
    match got {
        Ok(_) => want is Ok,
        Err(e) => want == Err::<(), HandshakeFault>(e@),
    }
}

/// The replication identifier in the parts of the first line of a full
/// resynchronisation, where they have the form that is owed.
pub fn fullresync_id(parts: &[String]) -> (r: Option<String>)
    ensures
        r is Some <==> spec_fullresync_id(part_texts(parts@)) is Some,
        r is Some ==> Some(r->0@) == spec_fullresync_id(part_texts(parts@)),
{
    if parts.len() != 3 {
        return None;
    }
    if !eq_ignore_case(parts[0].as_str(), "FULLRESYNC") {
        return None;
    }
    match parse_signed(parts[2].as_str().as_bytes()) {
        Some(offset) => {
            if offset == 0 {
                Some(parts[1].clone())
            } else {
                None
            }
        },
        None => None,
    }
}

/// Checks that `reply` is a simple string equal to `expected` when case is
/// ignored.
fn expect_simple(reply: &RedisType, expected: &str, message_start: &str) -> (r: Result<
    (),
    HandshakeError,
>)
    ensures
        same_unit(r, spec_expect_simple(reply@, expected@, message_start@)),
{
    match reply {
        RedisType::SimpleString { .. } => match reply.expect_string(expected, message_start) {
            Ok(_) => Ok(()),
            Err(e) => Err(HandshakeError::UnexpectedReply(e)),
        },
        _ => Err(
            HandshakeError::UnexpectedReply(
                ExpectError {
                    message_start: message_start.to_owned(),
                    expected: expected.to_owned(),
                    received: reply.clone(),
                },
            ),
        ),
    }
}

/// What a replica that listens on `port` does in the given state.
pub fn handshake_action(state: HandshakeState, port: u16) -> (r: HandshakeAction)
    ensures
        r@ == spec_handshake_action(state, port),
{
    match state {
        HandshakeState::Ping => HandshakeAction::Send(RedisCommand::PING),
        HandshakeState::ListeningPort => HandshakeAction::Send(
            RedisCommand::REPLCONF { arg: ReplConfArgs::Port(port) },
        ),
        HandshakeState::Capabilities => HandshakeAction::Send(RedisCommand::default_capabilities()),
        HandshakeState::Psync => HandshakeAction::Send(RedisCommand::psync_from_scrath()),
        HandshakeState::Snapshot => HandshakeAction::ReadSnapshot,
        HandshakeState::Ready => HandshakeAction::Ready,
    }
}

/// The runtime after the primary's reply was taken: a replica moves to the
/// state that follows where the reply is what the primary owes, and back to
/// the start of the handshake otherwise. Nothing changes on a primary.
pub open spec fn spec_after_reply(rt: Runtime, reply: Frame) -> Runtime {
    match rt.handshake {
        Some(state) => Runtime {
            handshake: Some(
                match spec_handle_reply(state, reply) {
                    Ok(next) => next,
                    Err(_) => HandshakeState::Ping,
                },
            ),
            ..rt
        },
        None => rt,
    }
}

/// What taking the primary's reply gives: the state that follows, or the
/// error; on a primary, the error that it is no replica.
pub open spec fn spec_reply_outcome(rt: Runtime, reply: Frame) -> Result<
    HandshakeState,
    HandshakeFault,
> {
    match rt.handshake {
        Some(state) => spec_handle_reply(state, reply),
        None => Err(HandshakeFault::NotAReplica),
    }
}

impl RedisRuntime {
    /// What to do next in the handshake with the primary. `None` on a
    /// primary, which has no handshake to make.
    pub fn perform_handshake(&self) -> (r: Option<HandshakeAction>)
        ensures
            match self@.handshake {
                Some(state) => r is Some && r->0@ == spec_handshake_action(state, self@.port),
                None => r is None,
            },
    {
        match self.handshake_state() {
            Some(state) => Some(handshake_action(state, self.port())),
            None => None,
        }
    }

    /// Takes the primary's reply, and returns the state that follows.
    ///
    /// Succeeds exactly where the reply is what the primary owes in the state
    /// in which the replica stands: `PONG`, `OK` and `OK` as simple strings,
    /// whatever their case; then the line `FULLRESYNC <id> 0`; then a
    /// snapshot that opens with `REDIS`. Any other reply is an error that says
    /// what came, and puts the replica back at the start of its handshake.
    pub fn handle_reply(&mut self, reply: &RedisType) -> (r: Result<HandshakeState, HandshakeError>)
        requires
            old(self).wf(),
        ensures
            final(self).wf(),
            same_step(r, spec_reply_outcome(old(self)@, reply@)),
            final(self)@ == spec_after_reply(old(self)@, reply@),
    {
        let state = match self.handshake_state() {
            Some(state) => state,
            None => {
                return Err(HandshakeError::NotAReplica);
            },
        };
        let outcome = self.handshake_step(state, reply);
        match &outcome {
            Ok(next) => {
                self.set_handshake(*next);
            },
            Err(_) => {
                self.set_handshake(HandshakeState::Ping);
            },
        }
        outcome
    }

    /// Puts a replica back at the start of its handshake: what it does when
    /// the connection to its primary is lost. Nothing changes on a primary.
    pub fn restart_handshake(&mut self)
        requires
            old(self).wf(),
        ensures
            final(self).wf(),
            final(self)@ == (Runtime {
                handshake: if old(self)@.primary {
                    None
                } else {
                    Some(HandshakeState::Ping)
                },
                ..old(self)@
            }),
    {
        self.set_handshake(HandshakeState::Ping);
    }

    /// What the primary's reply leads to in the given state: the state that
    /// follows, where the reply is what the primary owes; otherwise the error.
    pub fn handshake_step(&self, state: HandshakeState, reply: &RedisType) -> (r: Result<
        HandshakeState,
        HandshakeError,
    >)
        ensures
            same_step(r, spec_handle_reply(state, reply@)),
    {
        match state {
            HandshakeState::Ping => match expect_simple(
                reply,
                "pong",
                "Unexpected return from ping",
            ) {
                Ok(_) => Ok(HandshakeState::ListeningPort),
                Err(e) => Err(e),
            },
            HandshakeState::ListeningPort => match expect_simple(
                reply,
                "ok",
                "Unexpected return from REPLCONF port",
            ) {
                Ok(_) => Ok(HandshakeState::Capabilities),
                Err(e) => Err(e),
            },
            HandshakeState::Capabilities => match expect_simple(
                reply,
                "ok",
                "Unexpected return from REPLCONF capabilities",
            ) {
                Ok(_) => Ok(HandshakeState::Psync),
                Err(e) => Err(e),
            },
            HandshakeState::Psync => match self.handle_psync(reply) {
                Ok(_) => Ok(HandshakeState::Snapshot),
                Err(e) => Err(e),
            },
            HandshakeState::Snapshot => match self.handle_rdb_file(reply) {
                Ok(_) => Ok(HandshakeState::Ready),
                Err(e) => Err(e),
            },
            HandshakeState::Ready => Err(HandshakeError::AlreadyReady),
        }
    }

    /// Takes the answer to `PSYNC`: a simple string that reads
    /// `FULLRESYNC <id> 0`. Returns the replication identifier.
    pub fn handle_psync(&self, response: &RedisType) -> (r: Result<String, HandshakeError>)
        ensures
            same_text(r, spec_handle_psync(response@)),
    {
        match response {
            RedisType::SimpleString { data } => self.parse_fullresync(data.as_str()),
            other => Err(HandshakeError::UnexpectedPsyncType { received: other.clone() }),
        }
    }

    /// Reads the line `FULLRESYNC <id> 0`, its parts set apart by white
    /// space. Returns the replication identifier.
    pub fn parse_fullresync(&self, data: &str) -> (r: Result<String, HandshakeError>)
        ensures
            same_text(r, spec_parse_fullresync(data@)),
    {
        let parts = split_whitespace(data);
        match fullresync_id(parts.as_slice()) {
            Some(id) => Ok(id),
            None => Err(HandshakeError::UnexpectedFullResync { data: data.to_owned() }),
        }
    }

    /// Takes what came as the snapshot: it must be a snapshot, and open with
    /// the bytes `REDIS`.
    pub fn handle_rdb_file(&self, response: &RedisType) -> (r: Result<(), HandshakeError>)
        ensures
            same_unit(r, spec_handle_rdb_file(response@)),
    {
        match response {
            RedisType::RDBFile { file } => {
                if is_rdb(file.as_slice()) {
                    Ok(())
                } else {
                    Err(HandshakeError::NotAnRdbFile)
                }
            },
            other => Err(HandshakeError::UnexpectedRdbType { received: other.clone() }),
        }
    }
}

/// The first four things that a replica sends are `PING`,
/// `REPLCONF listening-port <port>`, `REPLCONF capa psync2` and `PSYNC ? -1`,
/// in this order, each as a list of bulk strings; after them it sends nothing
/// and reads the snapshot.
pub proof fn lemma_handshake_literal(port: u16)
    ensures
        ({
            let first = HandshakeState::Ping;
            let second = next_state(first);
            let third = next_state(second);
            let fourth = next_state(third);
            let fifth = next_state(fourth);
            &&& spec_handshake_action(first, port) matches Action::Send(c) && command_frame(c)
                == Frame::List(seq![Frame::BulkString("PING"@)])
            &&& spec_handshake_action(second, port) matches Action::Send(c) && command_frame(c)
                == Frame::List(
                seq![
                    Frame::BulkString("REPLCONF"@),
                    Frame::BulkString("listening-port"@),
                    Frame::BulkString(nat_text(port as nat)),
                ],
            )
            &&& spec_handshake_action(third, port) matches Action::Send(c) && command_frame(c)
                == Frame::List(
                seq![
                    Frame::BulkString("REPLCONF"@),
                    Frame::BulkString("capa"@),
                    Frame::BulkString("psync2"@),
                ],
            )
            &&& spec_handshake_action(fourth, port) matches Action::Send(c) && command_frame(c)
                == Frame::List(
                seq![
                    Frame::BulkString("PSYNC"@),
                    Frame::BulkString("?"@),
                    Frame::BulkString("-1"@),
                ],
            )
            &&& spec_handshake_action(fifth, port) == Action::ReadSnapshot
            &&& spec_handshake_action(next_state(fifth), port) == Action::Ready
        }),
{
    reveal_strlit("-1");
    reveal_with_fuel(nat_digits, 2);
    assert(int_text(-1) =~= "-1"@);
    assert(capability_frames(seq!["psync2"@]) =~= seq![
        Frame::BulkString("capa"@),
        Frame::BulkString("psync2"@),
    ]);
    assert(seq![Frame::BulkString("REPLCONF"@)] + capability_frames(seq!["psync2"@]) =~= seq![
        Frame::BulkString("REPLCONF"@),
        Frame::BulkString("capa"@),
        Frame::BulkString("psync2"@),
    ]);
}

/// The pause before the first new attempt, in seconds.
pub const INITIAL_BACKOFF: u64 = 1;

/// The longest pause between attempts, in seconds.
pub const MAX_BACKOFF: u64 = 30;

/// The pause that follows `backoff`: twice as long, and 30 seconds at most.
pub open spec fn spec_next_backoff(backoff: u64) -> u64 {
    if 2 * backoff >= MAX_BACKOFF {
        MAX_BACKOFF
    } else {
        (2 * backoff) as u64
    }
}

/// The pause that follows `backoff`: twice as long, and 30 seconds at most.
pub fn next_backoff(backoff: u64) -> (r: u64)
    ensures
        r == spec_next_backoff(backoff),
{
    if backoff >= 15 {
        MAX_BACKOFF
    } else {
        2 * backoff
    }
}

/// The pause after `failures` failed attempts in a row, in seconds.
pub open spec fn backoff_after(failures: nat) -> u64
    decreases failures,
{
    if failures == 0 {
        INITIAL_BACKOFF
    } else {
        spec_next_backoff(backoff_after((failures - 1) as nat))
    }
}

/// The pauses are 1, 2, 4, 8 and 16 seconds, and 30 seconds from the fifth
/// failure in a row on: they never shrink and never pass 30 seconds.
pub proof fn lemma_backoff_series(failures: nat)
    ensures
        backoff_after(failures) == (if failures == 0 {
            1u64
        } else if failures == 1 {
            2u64
        } else if failures == 2 {
            4u64
        } else if failures == 3 {
            8u64
        } else if failures == 4 {
            16u64
        } else {
            30u64
        }),
        backoff_after(failures) <= backoff_after(failures + 1) <= MAX_BACKOFF,
    decreases failures,
{
    reveal_with_fuel(backoff_after, 2);
    if failures > 0 {
        lemma_backoff_series((failures - 1) as nat);
    }
}

/// How long a replica waits before it tries the primary again, and the pause
/// to use after the attempt that follows, both in seconds.
///
/// After a handshake that succeeded the pause starts over at one second;
/// after one that failed it is `backoff`. Each pause is followed by one twice
/// as long, 30 seconds at most.
pub fn retry_delay(backoff: u64, handshake_succeeded: bool) -> (r: (u64, u64))
    ensures
        r.0 == (if handshake_succeeded {
            INITIAL_BACKOFF
        } else {
            backoff
        }),
        r.1 == spec_next_backoff(r.0),
{
    let wait: u64 = if handshake_succeeded {
        INITIAL_BACKOFF
    } else {
        backoff
    };
    (wait, next_backoff(wait))
}

} // verus!
