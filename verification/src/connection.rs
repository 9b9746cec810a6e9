//! One connection: what the bytes that come in are turned into, what is done
//! with each command, and what goes back.

use crate::codec::{find_line_end, line_end, serialize, spec_parse, ParseError};
use crate::redis_command::{
    command_frame, lemma_command_round_trip, single_capability, spec_is_write,
    spec_parse_command, Command, RedisCommand,
};
use crate::redis_runtime::{
    lemma_read_changes_nothing, link_handles, peer_model, spec_after, spec_reply, spec_writes,
    RedisRuntime, Runtime,
};
use crate::redis_type::{debug_text, frame_debug, Frame, RedisType};
use crate::round_trip::{
    lemma_parse_ordinary, lemma_round_trip, lemma_serialize_nonempty, wire_ready,
};
use crate::store::spec_put;
use vstd::prelude::*;
use vstd::string::StringExecFns;

verus! {

/// What the reader of a connection hands to its executor: a command, or the
/// message of what went wrong in reading one.
#[derive(Debug, PartialEq, Eq)]
pub enum CommandOrError {
    Command(RedisCommand),
    Error(String),
}

/// The mathematical model of `CommandOrError`.
pub enum Item {
    Command(Command),
    Error(Seq<char>),
}

impl View for CommandOrError {
    type V = Item;

    open spec fn view(&self) -> Item {
        match self {
            CommandOrError::Command(command) => Item::Command(command@),
            CommandOrError::Error(message) => Item::Error(message@),
        }
    }
}

/// What the bytes of `s` at `pos` give the executor, and where reading goes
/// on. `None` where more bytes are needed: none is left, or they end inside a
/// frame.
///
/// A frame that is a command gives the command. A frame that is none gives a
/// message that shows the frame. Bytes that are malformed give a message that
/// says how, and reading goes on behind the first line end.
pub open spec fn spec_read_input(s: Seq<u8>, pos: int) -> Option<(Item, int)> {
    match spec_parse(s, pos) {
        Ok(Some((frame, next))) => match spec_parse_command(frame) {
            Some(command) => Some((Item::Command(command), next)),
            None => Some((Item::Error("Not a valid command: "@ + frame_debug(frame)), next)),
        },
        Ok(None) => None,
        Err(e) => if e == ParseError::Truncated {
            None
        } else {
            match line_end(s, pos + 1) {
                Some(end) => Some(
                    (Item::Error("Error parsing input type: "@ + e.spec_message()), end + 2),
                ),
                None => None,
            }
        },
    }
}

/// Reads what the bytes of `input` at `pos` give the executor, and where
/// reading goes on. `None` where more bytes are needed.
pub fn read_input(input: &[u8], pos: usize) -> (r: Option<(CommandOrError, usize)>)
    ensures
        match r {
            Some((item, next)) => spec_read_input(input@, pos as int) == Some((item@, next as int))
                && pos < next <= input@.len(),
            None => spec_read_input(input@, pos as int) is None,
        },
{
    match RedisType::parse(input, pos) {
        Ok(Some((frame, next))) => match RedisCommand::parse(&frame) {
            Some(command) => Some((CommandOrError::Command(command), next)),
            None => {
                let message = "Not a valid command: ".to_owned().concat(
                    debug_text(&frame).as_str(),
                );
                Some((CommandOrError::Error(message), next))
            },
        },
        Ok(None) => None,
        Err(e) => {
            match e {
                ParseError::Truncated => None,
                _ => {
                    if pos >= input.len() {
                        return None;
                    }
                    match find_line_end(input, pos + 1) {
                        Some(end) => {
                            let message = "Error parsing input type: ".to_owned().concat(
                                e.message().as_str(),
                            );
                            Some((CommandOrError::Error(message), end + 2))
                        },
                        None => None,
                    }
                },
            }
        },
    }
}

/// Bytes that are malformed, and not merely cut short, hold a line end behind
/// their first byte: reading can go on behind it.
pub proof fn lemma_hard_error_has_line_end(s: Seq<u8>, pos: int)
    ensures
        spec_parse(s, pos) matches Err(e) ==> e == ParseError::Truncated || line_end(s, pos + 1)
            is Some,
{
}

/// Reading gives nothing exactly where no byte is left, or where the bytes
/// end inside a frame.
pub proof fn lemma_read_input_none(s: Seq<u8>, pos: int)
    ensures
        spec_read_input(s, pos) is None <==> (pos < 0 || pos >= s.len() || spec_parse(s, pos)
            == Err::<Option<(Frame, int)>, ParseError>(ParseError::Truncated)),
{
    lemma_hard_error_has_line_end(s, pos);
}

/// What the bytes of `s` at `pos` give the executor once the stream has
/// ended, and where reading goes on. `None` where no byte is left.
///
/// What is whole is read as ever. Bytes that end inside a frame, for which no
/// more can come, give the message that the frame is truncated, and all of
/// them are taken.
pub open spec fn spec_read_input_at_end(s: Seq<u8>, pos: int) -> Option<(Item, int)> {
    match spec_read_input(s, pos) {
        Some(read) => Some(read),
        None => if 0 <= pos < s.len() {
            Some(
                (
                    Item::Error(
                        "Error parsing input type: "@ + ParseError::Truncated.spec_message(),
                    ),
                    s.len() as int,
                ),
            )
        } else {
            None
        },
    }
}

/// Reads what the bytes of `input` at `pos` give the executor once the stream
/// has ended: the items that are whole, then, for bytes that end inside a
/// frame, the message that the frame is truncated. `None` where no byte is
/// left.
pub fn read_input_at_end(input: &[u8], pos: usize) -> (r: Option<(CommandOrError, usize)>)
    ensures
        match r {
            Some((item, next)) => spec_read_input_at_end(input@, pos as int) == Some(
                (item@, next as int),
            ) && pos < next <= input@.len(),
            None => spec_read_input_at_end(input@, pos as int) is None,
        },
        r is None <==> pos >= input@.len(),
{
    match read_input(input, pos) {
        Some(read) => Some(read),
        None => {
            if pos < input.len() {
                let message = "Error parsing input type: ".to_owned().concat(
                    ParseError::Truncated.message().as_str(),
                );
                Some((CommandOrError::Error(message), input.len()))
            } else {
                None
            }
        },
    }
}

/// The text of the reply to a write that a replica refuses.
pub open spec fn read_only_message() -> Seq<char> {
    "You can't write against a read only replica."@
}

/// Whether a command is refused: the server is a replica, the command
/// writes, and it does not come from the primary.
pub open spec fn refused(rt: Runtime, c: Command, from_master: bool) -> bool {
    !rt.primary && spec_is_write(c) && !from_master
}

/// The reply that goes back on the connection for `item`, if any.
///
/// A message goes back as an error. A command that is refused is answered
/// with the read-only error. Any other command is executed, and its reply
/// goes back unless it is a write on a replica, which is applied in silence.
pub open spec fn spec_process_reply(rt: Runtime, item: Item, from_master: bool, now: u64) -> Option<
    Frame,
> {
    match item {
        Item::Error(message) => Some(Frame::SimpleError(message)),
        Item::Command(c) => if refused(rt, c, from_master) {
            Some(Frame::SimpleError(read_only_message()))
        } else if rt.primary || !spec_is_write(c) {
            Some(spec_reply(rt, c, now))
        } else {
            None
        },
    }
}

/// The runtime after `item` was processed: a command that is not refused is
/// executed, and nothing else changes anything.
pub open spec fn spec_process_after(
    rt: Runtime,
    item: Item,
    from_master: bool,
    now: u64,
    peer: Option<(Seq<char>, u64)>,
) -> Runtime {
    match item {
        Item::Error(_) => rt,
        Item::Command(c) => if refused(rt, c, from_master) {
            rt
        } else {
            spec_after(rt, c, now, peer)
        },
    }
}

/// Whether processing `item` has something to change: it is a command that
/// is not refused and that writes.
pub open spec fn needs_write(
    rt: Runtime,
    item: Item,
    from_master: bool,
    now: u64,
    peer: Option<(Seq<char>, u64)>,
) -> bool {
    match item {
        Item::Error(_) => false,
        Item::Command(c) => !refused(rt, c, from_master) && spec_writes(rt, c, now, peer),
    }
}

/// An item that has nothing to change leaves the runtime as it was and sends
/// nothing to the replicas: readers may process such items side by side.
pub proof fn lemma_reader_changes_nothing(
    rt: Runtime,
    item: Item,
    from_master: bool,
    now: u64,
    peer: Option<(Seq<char>, u64)>,
)
    requires
        !needs_write(rt, item, from_master, now, peer),
    ensures
        spec_process_after(rt, item, from_master, now, peer) == rt,
        spec_process_fanout(rt, item) is None,
        spec_process_reply(rt, item, from_master, now) is Some,
{
    match item {
        Item::Command(c) => {
            if !refused(rt, c, from_master) {
                lemma_read_changes_nothing(rt, c, now, peer);
            }
        },
        Item::Error(_) => {},
    }
}

/// What goes to the replicas for `item`: the bytes of a write that a primary
/// executed, and the handles of its links.
pub open spec fn spec_process_fanout(rt: Runtime, item: Item) -> Option<(Seq<u8>, Seq<u64>)> {
    match item {
        Item::Error(_) => None,
        Item::Command(c) => if rt.primary && spec_is_write(c) {
            Some((serialize(command_frame(c)), link_handles(rt.replicas)))
        } else {
            None
        },
    }
}

/// What came of one item: the reply to write back on the connection, if any,
/// and what to send to the replicas, if anything.
pub struct Outcome {
    /// The reply to write back.
    pub reply: Option<RedisType>,
    /// The bytes to write to each replica, and the handles of the links.
    pub fanout: Option<(Vec<u8>, Vec<u64>)>,
}

impl Outcome {
    /// The reply, as the frame it models.
    pub open spec fn reply_model(&self) -> Option<Frame> {
        match self.reply {
            Some(frame) => Some(frame@),
            None => None,
        }
    }

    /// What goes to the replicas, as plain values.
    pub open spec fn fanout_model(&self) -> Option<(Seq<u8>, Seq<u64>)> {
        match self.fanout {
            Some((payload, handles)) => Some((payload@, handles@)),
            None => None,
        }
    }
}

impl RedisRuntime {
    /// Processes one item of a connection that has nothing to change, and
    /// returns the reply; `None` where the item has something to change,
    /// which takes `process`.
    ///
    /// This takes the runtime as it is: many readers may run it at once,
    /// while a writer runs `process` alone.
    pub fn process_read(
        &self,
        item: &CommandOrError,
        from_master: bool,
        now: u64,
        connection: &Option<(String, u64)>,
    ) -> (r: Option<RedisType>)
        requires
            self.wf(),
        ensures
            r is Some <==> !needs_write(self@, item@, from_master, now, peer_model(*connection)),
            r is Some ==> Some(r->0@) == spec_process_reply(self@, item@, from_master, now),
    {
        match item {
            CommandOrError::Error(message) => Some(RedisType::simple_error(message.as_str())),
            CommandOrError::Command(command) => {
                let primary = self.is_master();
                let write = command.is_write_command();
                if !primary && write && !from_master {
                    return Some(
                        RedisType::simple_error("You can't write against a read only replica."),
                    );
                }
                self.execute_read(command, now, connection)
            },
        }
    }

    /// Processes one item of a connection at the instant `now`.
    ///
    /// `from_master` says whether the connection is the one to the primary,
    /// and `connection` gives the peer's address and the handle of the
    /// connection.
    pub fn process(
        &mut self,
        item: &CommandOrError,
        from_master: bool,
        now: u64,
        connection: Option<(String, u64)>,
    ) -> (r: Outcome)
        requires
            old(self).wf(),
        ensures
            final(self).wf(),
            r.reply_model() == spec_process_reply(old(self)@, item@, from_master, now),
            r.fanout_model() == spec_process_fanout(old(self)@, item@),
            final(self)@ == spec_process_after(
                old(self)@,
                item@,
                from_master,
                now,
                peer_model(connection),
            ),
    {
        match item {
            CommandOrError::Error(message) => Outcome {
                reply: Some(RedisType::simple_error(message.as_str())),
                fanout: None,
            },
            CommandOrError::Command(command) => {
                let primary = self.is_master();
                let write = command.is_write_command();
                if !primary && write && !from_master {
                    return Outcome {
                        reply: Some(
                            RedisType::simple_error("You can't write against a read only replica."),
                        ),
                        fanout: None,
                    };
                }
                let result = self.execute(command, now, connection);
                let reply = if primary || !write {
                    Some(result)
                } else {
                    None
                };
                let fanout = self.replicate_command(command);
                Outcome { reply, fanout }
            },
        }
    }
}

/// The mathematical model of what serving a run of bytes comes to.
pub struct Run {
    /// The runtime afterwards.
    pub runtime: Runtime,
    /// The bytes of the replies, in the order of the commands.
    pub replies: Seq<u8>,
    /// What goes to the replicas, in the order of the commands.
    pub fanouts: Seq<(Seq<u8>, Seq<u64>)>,
    /// Where reading stopped: the bytes from here on wait for more.
    pub next: int,
}

/// The bytes of a reply, and none where there is no reply.
pub open spec fn reply_bytes(reply: Option<Frame>) -> Seq<u8> {
    match reply {
        Some(frame) => serialize(frame),
        None => Seq::empty(),
    }
}

/// What goes to the replicas for one item, as a sequence of at most one.
pub open spec fn fanout_seq(fanout: Option<(Seq<u8>, Seq<u64>)>) -> Seq<(Seq<u8>, Seq<u64>)> {
    match fanout {
        Some(f) => seq![f],
        None => Seq::empty(),
    }
}

/// What serving the bytes of `s` from `pos` on comes to: every item that is
/// whole is processed in the order in which it stands in `s`, each on the
/// runtime that the items before it left, and the replies follow one another
/// in that same order.
pub open spec fn spec_serve(
    rt: Runtime,
    s: Seq<u8>,
    pos: int,
    from_master: bool,
    now: u64,
    peer: Option<(Seq<char>, u64)>,
) -> Run
    decreases s.len() - pos,
{
    match spec_read_input(s, pos) {
        Some((item, next)) => if next <= pos || next > s.len() {
            Run { runtime: rt, replies: Seq::empty(), fanouts: Seq::empty(), next: pos }
        } else {
            let rest = spec_serve(
                spec_process_after(rt, item, from_master, now, peer),
                s,
                next,
                from_master,
                now,
                peer,
            );
            Run {
                runtime: rest.runtime,
                replies: reply_bytes(spec_process_reply(rt, item, from_master, now)) + rest.replies,
                fanouts: fanout_seq(spec_process_fanout(rt, item)) + rest.fanouts,
                next: rest.next,
            }
        },
        None => Run { runtime: rt, replies: Seq::empty(), fanouts: Seq::empty(), next: pos },
    }
}

/// A run, behind replies and fanouts that were made already.
pub open spec fn run_behind(
    replies: Seq<u8>,
    fanouts: Seq<(Seq<u8>, Seq<u64>)>,
    rest: Run,
) -> Run {
    Run {
        runtime: rest.runtime,
        replies: replies + rest.replies,
        fanouts: fanouts + rest.fanouts,
        next: rest.next,
    }
}

/// What came of serving a run of bytes.
pub struct Served {
    /// The bytes of the replies, in the order of the commands.
    pub replies: Vec<u8>,
    /// What goes to the replicas, in the order of the commands: the bytes to
    /// write and the handles of the links.
    pub fanouts: Vec<(Vec<u8>, Vec<u64>)>,
    /// Where reading stopped: the bytes from here on wait for more.
    pub next: usize,
}

/// What goes to the replicas, as plain values.
pub open spec fn fanout_models(fanouts: Seq<(Vec<u8>, Vec<u64>)>) -> Seq<(Seq<u8>, Seq<u64>)> {
    Seq::new(fanouts.len(), |i: int| (fanouts[i].0@, fanouts[i].1@))
}

/// A copy of the peer's address and handle.
fn copy_peer(peer: &Option<(String, u64)>) -> (r: Option<(String, u64)>)
    ensures
        peer_model(r) == peer_model(*peer),
{
    match peer {
        Some((ip, link)) => Some((ip.clone(), *link)),
        None => None,
    }
}

impl RedisRuntime {
    /// Serves the bytes that came in on a connection: reads every item that is
    /// whole, processes each in the order in which it came, and returns the
    /// replies in that same order, what goes to the replicas, and where the
    /// bytes that wait for more begin.
    pub fn serve(
        &mut self,
        input: &[u8],
        from_master: bool,
        now: u64,
        connection: &Option<(String, u64)>,
    ) -> (r: Served)
        requires
            old(self).wf(),
        ensures
            final(self).wf(),
            ({
                let run = spec_serve(
                    old(self)@,
                    input@,
                    0,
                    from_master,
                    now,
                    peer_model(*connection),
                );
                &&& final(self)@ == run.runtime
                &&& r.replies@ == run.replies
                &&& fanout_models(r.fanouts@) == run.fanouts
                &&& r.next == run.next
            }),
            r.next <= input@.len(),
    {
        let ghost start = self@;
        let ghost peer = peer_model(*connection);
        let mut replies: Vec<u8> = Vec::new();
        let mut fanouts: Vec<(Vec<u8>, Vec<u64>)> = Vec::new();
        let mut pos: usize = 0;
        loop
            invariant
                self.wf(),
                pos <= input@.len(),
                peer == peer_model(*connection),
                spec_serve(start, input@, 0, from_master, now, peer) == run_behind(
                    replies@,
                    fanout_models(fanouts@),
                    spec_serve(self@, input@, pos as int, from_master, now, peer),
                ),
            ensures
                self.wf(),
                pos <= input@.len(),
                spec_serve(start, input@, 0, from_master, now, peer) == (Run {
                    runtime: self@,
                    replies: replies@,
                    fanouts: fanout_models(fanouts@),
                    next: pos as int,
                }),
            decreases input@.len() - pos,
        {
            let ghost here = self@;
            let ghost done_replies = replies@;
            let ghost done_fanouts = fanout_models(fanouts@);
            match read_input(input, pos) {
                Some((item, next)) => {
                    let outcome = self.process(&item, from_master, now, copy_peer(connection));
                    match outcome.reply {
                        Some(frame) => {
                            frame.write_into(&mut replies);
                        },
                        None => {},
                    }
                    match outcome.fanout {
                        Some(fanout) => {
                            fanouts.push(fanout);
                        },
                        None => {},
                    }
                    proof {
                        let rest = spec_serve(self@, input@, next as int, from_master, now, peer);
                        let step_replies = reply_bytes(
                            spec_process_reply(here, item@, from_master, now),
                        );
                        let step_fanouts = fanout_seq(spec_process_fanout(here, item@));
                        assert(replies@ =~= done_replies + step_replies);
                        assert(fanout_models(fanouts@) =~= done_fanouts + step_fanouts);
                        assert(done_replies + (step_replies + rest.replies) =~= replies@
                            + rest.replies);
                        assert(done_fanouts + (step_fanouts + rest.fanouts) =~= fanout_models(
                            fanouts@,
                        ) + rest.fanouts);
                    }
                    pos = next;
                },
                None => {
                    proof {
                        assert(replies@ + Seq::<u8>::empty() =~= replies@);
                        assert(fanout_models(fanouts@) + Seq::<(Seq<u8>, Seq<u64>)>::empty()
                            =~= fanout_models(fanouts@));
                    }
                    break ;
                },
            }
        }
        Served { replies, fanouts, next: pos }
    }
}

/// Replies keep the order of the commands: the reply to the item that stands
/// first in the input comes first, and the replies to what stands behind it
/// follow; what stands behind it is processed on the runtime that the first
/// item left.
pub proof fn lemma_replies_in_order(
    rt: Runtime,
    s: Seq<u8>,
    pos: int,
    from_master: bool,
    now: u64,
    peer: Option<(Seq<char>, u64)>,
)
    ensures
        spec_read_input(s, pos) matches Some((item, next)) ==> ({
            let rest = spec_serve(
                spec_process_after(rt, item, from_master, now, peer),
                s,
                next,
                from_master,
                now,
                peer,
            );
            let run = spec_serve(rt, s, pos, from_master, now, peer);
            &&& pos < next <= s.len()
            &&& run.replies == reply_bytes(spec_process_reply(rt, item, from_master, now))
                + rest.replies
            &&& run.fanouts == fanout_seq(spec_process_fanout(rt, item)) + rest.fanouts
            &&& run.runtime == rest.runtime
            &&& run.next == rest.next
        }),
{
    lemma_read_input_bounds(s, pos);
}

/// An item that is read lies inside the input and takes at least one byte.
pub proof fn lemma_read_input_bounds(s: Seq<u8>, pos: int)
    ensures
        spec_read_input(s, pos) matches Some((_, next)) ==> 0 <= pos < next <= s.len(),
{
    lemma_parse_ordinary(s, pos);
}

/// What is written for a command is read as that command: the bytes that a
/// primary sends to its replicas, and those that a replica sends in its
/// handshake, give the executor on the other side the same command.
pub proof fn lemma_written_command_is_read(c: Command)
    requires
        single_capability(c),
        wire_ready(command_frame(c)),
    ensures
        spec_read_input(serialize(command_frame(c)), 0) == Some(
            (Item::Command(c), serialize(command_frame(c)).len() as int),
        ),
{
    lemma_round_trip(command_frame(c));
    lemma_command_round_trip(c);
}

/// A replica follows its primary: where the bytes that a primary sends out for
/// a write come in on the connection from the primary, the replica stores
/// what the primary stored, writes nothing back and sends nothing on.
pub proof fn lemma_replica_applies_fanout(
    rt: Runtime,
    key: Seq<char>,
    val: Frame,
    ttl: Option<u64>,
    now: u64,
    peer: Option<(Seq<char>, u64)>,
)
    requires
        !rt.primary,
        wire_ready(command_frame(Command::SET { key, val, ttl })),
    ensures
        ({
            let payload = serialize(command_frame(Command::SET { key, val, ttl }));
            let run = spec_serve(rt, payload, 0, true, now, peer);
            &&& run.runtime.store == spec_put(rt.store, key, val, ttl, now)
            &&& run.replies == Seq::<u8>::empty()
            &&& run.fanouts == Seq::<(Seq<u8>, Seq<u64>)>::empty()
            &&& run.next == payload.len()
        }),
{
    let c = Command::SET { key, val, ttl };
    let payload = serialize(command_frame(c));
    lemma_written_command_is_read(c);
    lemma_serialize_nonempty(command_frame(c));
    let after = spec_process_after(rt, Item::Command(c), true, now, peer);
    let rest = spec_serve(after, payload, payload.len() as int, true, now, peer);
    assert(spec_read_input(payload, payload.len() as int) is None);
    assert(rest.replies == Seq::<u8>::empty());
    let run = spec_serve(rt, payload, 0, true, now, peer);
    assert(run.replies =~= Seq::<u8>::empty());
    assert(run.fanouts =~= Seq::<(Seq<u8>, Seq<u64>)>::empty());
}

/// On a replica, a write that does not come from the primary is answered
/// with the read-only error, changes nothing and goes to no replica.
pub proof fn lemma_replica_gate(rt: Runtime, c: Command, now: u64, peer: Option<(Seq<char>, u64)>)
    requires
        !rt.primary,
        spec_is_write(c),
    ensures
        spec_process_reply(rt, Item::Command(c), false, now) == Some(
            Frame::SimpleError(read_only_message()),
        ),
        spec_process_after(rt, Item::Command(c), false, now, peer) == rt,
        spec_process_fanout(rt, Item::Command(c)) is None,
{
}

/// On a replica, a write that comes from the primary is
/// stored, and nothing is written back or sent on.
pub proof fn lemma_fanout_silence(
    rt: Runtime,
    key: Seq<char>,
    val: Frame,
    ttl: Option<u64>,
    now: u64,
    peer: Option<(Seq<char>, u64)>,
)
    requires
        !rt.primary,
    ensures
        ({
            let item = Item::Command(Command::SET { key, val, ttl });
            &&& spec_process_reply(rt, item, true, now) is None
            &&& spec_process_fanout(rt, item) is None
            &&& spec_process_after(rt, item, true, now, peer).store == spec_put(
                rt.store,
                key,
                val,
                ttl,
                now,
            )
        }),
{
}

} // verus!
