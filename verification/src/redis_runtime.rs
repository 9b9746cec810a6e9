//! The runtime: the keyspace and the replication state of one server, and
//! what each command does to them and replies.

use crate::codec::serialize;
use crate::decimal::{decimal_string, nat_text};
use crate::rdb_file::{get_empty_rdb_decoded, spec_empty_rdb};
use crate::redis_command::{
    command_frame, spec_is_write, Command, RedisCommand, ReplConf, ReplConfArgs,
};
use crate::redis_type::{plain_frames, Frame, RedisType};
use crate::replication::HandshakeState;
use crate::server_config::ServerConfig;
use crate::store::{
    spec_get_store, spec_get_value, spec_peek, spec_put, Entry, Lookup, Store,
};
use crate::text::{eq_ignore_case, same_ignoring_case, str_eq};
use crate::RedisWritable;
use rand::Rng;
use vstd::prelude::*;
use vstd::string::StringExecFns;

verus! {

/// Whether `c` is an ASCII letter or digit.
pub open spec fn is_alphanumeric(c: char) -> bool {
    ('0' <= c <= '9') || ('a' <= c <= 'z') || ('A' <= c <= 'Z')
}

/// Draws `length` characters with `Rng::sample_iter` of `rand` over its
/// `Alphanumeric` distribution, on the thread's generator. Trusted: the text
/// has that many characters, each an ASCII letter or digit; which ones is left
/// open.
#[verifier::external_body]
pub(crate) fn generate_alphanumeric_string(length: usize) -> (r: String)
    ensures
        r@.len() == length,
        forall|i: int| 0 <= i < r@.len() ==> is_alphanumeric(#[trigger] r@[i]),
{
    rand::thread_rng().sample_iter(&rand::distributions::Alphanumeric).take(length).map(
        char::from,
    ).collect()
}

/// The mathematical model of a link to a replica.
pub struct Link {
    /// The address from which the replica connected.
    pub peer_ip: Seq<char>,
    /// The port on which the replica listens.
    pub port: u16,
    /// The handle of the connection on which the replica is written to.
    pub link: u64,
}

/// A link to a replica. The sending half of its connection is kept by the
/// caller, under the handle `link`.
#[derive(Debug, PartialEq, Eq)]
pub struct Replica {
    peer_ip: String,
    port: u16,
    link: u64,
}

impl View for Replica {
    type V = Link;

    closed spec fn view(&self) -> Link {
        Link { peer_ip: self.peer_ip@, port: self.port, link: self.link }
    }
}

impl Replica {
    /// A link to the replica at `peer_ip` that listens on `port`, written to
    /// under the handle `link`.
    pub fn new(peer_ip: String, port: u16, link: u64) -> (r: Self)
        ensures
            r@ == (Link { peer_ip: peer_ip@, port, link }),
    {
        Replica { peer_ip, port, link }
    }
}

/// The part that a server plays in replication.
#[derive(Debug, PartialEq, Eq)]
pub enum ReplicationRole {
    /// A primary, with the replicas that follow it. No two of them have the
    /// same address and port.
    Master { replicas: Vec<Replica> },
    /// A replica of the primary at `replicaof`, and where it stands in its
    /// handshake with that primary.
    Slave { replicaof: String, handshake: HandshakeState },
}

impl ReplicationRole {
    /// The name of the role, as `INFO` reports it.
    pub open spec fn spec_type_str(&self) -> Seq<char> {
        match self {
            ReplicationRole::Master { .. } => "master"@,
            ReplicationRole::Slave { .. } => "slave"@,
        }
    }

    /// The name of the role, as `INFO` reports it.
    pub fn type_str(&self) -> (r: &'static str)
        ensures
            r@ == self.spec_type_str(),
    {
        match self {
            ReplicationRole::Master { .. } => "master",
            ReplicationRole::Slave { .. } => "slave",
        }
    }
}

/// The models of `replicas`, in order.
pub open spec fn links(replicas: Seq<Replica>) -> Seq<Link> {
    Seq::new(replicas.len(), |i: int| replicas[i]@)
}

/// Whether no two links have the same address and port.
pub open spec fn distinct_peers(replicas: Seq<Link>) -> bool {
    forall|i: int, j: int|
        0 <= i < replicas.len() && 0 <= j < replicas.len() && i != j ==> !(replicas[i].peer_ip
            == replicas[j].peer_ip && replicas[i].port == replicas[j].port)
}

/// The mathematical model of a runtime.
pub struct Runtime {
    /// The keyspace.
    pub store: Map<Seq<char>, Entry>,
    /// Whether the server is a primary.
    pub primary: bool,
    /// The primary that a replica follows.
    pub replicaof: Option<Seq<char>>,
    /// Where a replica stands in its handshake with the primary.
    pub handshake: Option<HandshakeState>,
    /// The links to the replicas of a primary, in the order in which they
    /// were made.
    pub replicas: Seq<Link>,
    /// The replication identifier.
    pub replication_id: Seq<char>,
    /// The replication offset.
    pub replication_offset: u16,
    /// The snapshot that a primary sends for a full resynchronisation.
    pub snapshot: Seq<u8>,
    /// The port on which the server listens.
    pub port: u16,
}

/// The text that `INFO replication` reports: the role, the replication
/// identifier and the offset, one per line.
pub open spec fn info_text(rt: Runtime) -> Seq<char> {
    "role:"@ + (if rt.primary {
        "master"@
    } else {
        "slave"@
    }) + "\nmaster_replid:"@ + rt.replication_id + "\nmaster_repl_offset:"@ + nat_text(
        rt.replication_offset as nat,
    )
}

/// The place of the first link, at or after `from`, with the given address
/// and port.
pub open spec fn find_peer(replicas: Seq<Link>, peer_ip: Seq<char>, port: u16, from: int) -> Option<
    int,
>
    decreases replicas.len() - from,
{
    if from < 0 || from >= replicas.len() {
        None
    } else if replicas[from].peer_ip == peer_ip && replicas[from].port == port {
        Some(from)
    } else {
        find_peer(replicas, peer_ip, port, from + 1)
    }
}

/// The links after a replica registered: a peer that is linked already keeps
/// its place and gets the new handle, a new peer is added at the end.
pub open spec fn spec_register(
    replicas: Seq<Link>,
    peer_ip: Seq<char>,
    port: u16,
    link: u64,
) -> Seq<Link> {
    match find_peer(replicas, peer_ip, port, 0) {
        Some(i) => replicas.update(i, Link { peer_ip, port, link }),
        None => replicas.push(Link { peer_ip, port, link }),
    }
}

/// The reply to a request for a full resynchronisation: the line that names
/// the replication identifier, then the snapshot.
pub open spec fn full_resync(rt: Runtime) -> Frame {
    Frame::Multiple(
        seq![
            Frame::SimpleString("FULLRESYNC "@ + rt.replication_id + " 0"@),
            Frame::RDBFile(rt.snapshot),
        ],
    )
}

/// The reply to a command, given at the instant `now`.
pub open spec fn spec_reply(rt: Runtime, c: Command, now: u64) -> Frame {
    match c {
        Command::PING => Frame::SimpleString("PONG"@),
        Command::ECHO(text) => Frame::BulkString(text),
        Command::SET { .. } => Frame::SimpleString("OK"@),
        Command::GET { key } => match spec_get_value(rt.store, key, now) {
            Some(value) => value,
            None => Frame::NullBulkString,
        },
        Command::INFO { arg } => if same_ignoring_case(arg, "replication"@) {
            Frame::BulkString(info_text(rt))
        } else {
            Frame::SimpleError("Unknown arg for INFO: "@ + arg)
        },
        Command::REPLCONF { arg } => match arg {
            ReplConf::Port(_) => if rt.primary {
                Frame::SimpleString("OK"@)
            } else {
                Frame::SimpleError("You can't sync with a replica"@)
            },
            ReplConf::Capabilities(_) => Frame::SimpleString("OK"@),
        },
        Command::PSYNC { master_id, master_offset } => if rt.primary && master_id == "?"@
            && master_offset == -1 {
            full_resync(rt)
        } else {
            Frame::SimpleError("Not capable of syncing with those options"@)
        },
    }
}

/// The runtime after a command was executed at the instant `now`, on a
/// connection from `peer` (an address and the handle of the connection).
///
/// `SET` stores, `GET` removes the entry it finds expired, and
/// `REPLCONF listening-port` on a primary links the peer. Nothing else
/// changes anything.
pub open spec fn spec_after(
    rt: Runtime,
    c: Command,
    now: u64,
    peer: Option<(Seq<char>, u64)>,
) -> Runtime {
    match c {
        Command::SET { key, val, ttl } => Runtime {
            store: spec_put(rt.store, key, val, ttl, now),
            ..rt
        },
        Command::GET { key } => Runtime { store: spec_get_store(rt.store, key, now), ..rt },
        Command::REPLCONF { arg } => match arg {
            ReplConf::Port(port) => match peer {
                Some((peer_ip, link)) => if rt.primary {
                    Runtime { replicas: spec_register(rt.replicas, peer_ip, port, link), ..rt }
                } else {
                    rt
                },
                None => rt,
            },
            ReplConf::Capabilities(_) => rt,
        },
        _ => rt,
    }
}

/// Whether a command has something to change: `SET` always has, `GET` has
/// where it finds an entry that expired, and `REPLCONF listening-port` has on
/// a primary that knows the peer.
pub open spec fn spec_writes(
    rt: Runtime,
    c: Command,
    now: u64,
    peer: Option<(Seq<char>, u64)>,
) -> bool {
    match c {
        Command::SET { .. } => true,
        Command::GET { key } => spec_peek(rt.store, key, now) is Expired,
        Command::REPLCONF { arg } => match arg {
            ReplConf::Port(_) => rt.primary && peer is Some,
            ReplConf::Capabilities(_) => false,
        },
        _ => false,
    }
}

/// A command that has nothing to change leaves the runtime as it was.
pub proof fn lemma_read_changes_nothing(
    rt: Runtime,
    c: Command,
    now: u64,
    peer: Option<(Seq<char>, u64)>,
)
    requires
        !spec_writes(rt, c, now, peer),
    ensures
        spec_after(rt, c, now, peer) == rt,
{
}

/// The address and handle of a peer, as the model has them.
pub open spec fn peer_model(peer: Option<(String, u64)>) -> Option<(Seq<char>, u64)> {
    match peer {
        Some((ip, link)) => Some((ip@, link)),
        None => None,
    }
}

/// What `find_peer` finds is the first link with that address and port; where
/// it finds nothing there is none.
pub proof fn lemma_find_peer(replicas: Seq<Link>, peer_ip: Seq<char>, port: u16, from: int)
    requires
        0 <= from,
    ensures
        match find_peer(replicas, peer_ip, port, from) {
            Some(i) => {
                &&& from <= i < replicas.len()
                &&& replicas[i].peer_ip == peer_ip
                &&& replicas[i].port == port
                &&& forall|k: int|
                    from <= k < i ==> !((#[trigger] replicas[k]).peer_ip == peer_ip
                        && replicas[k].port == port)
            },
            None => forall|k: int|
                from <= k < replicas.len() ==> !((#[trigger] replicas[k]).peer_ip == peer_ip
                    && replicas[k].port == port),
        },
    decreases replicas.len() - from,
{
    if from < replicas.len() && !(replicas[from].peer_ip == peer_ip && replicas[from].port
        == port) {
        lemma_find_peer(replicas, peer_ip, port, from + 1);
    }
}

/// The place of the first replica with the given address and port.
fn peer_position(replicas: &Vec<Replica>, peer_ip: &str, port: u16) -> (r: Option<usize>)
    ensures
        match r {
            Some(i) => find_peer(links(replicas@), peer_ip@, port, 0) == Some(i as int) && i
                < replicas@.len(),
            None => find_peer(links(replicas@), peer_ip@, port, 0) is None,
        },
{
    let n: usize = replicas.len();
    let mut i: usize = 0;
    while i < n
        invariant
            i <= n,
            n == replicas@.len(),
            find_peer(links(replicas@), peer_ip@, port, 0) == find_peer(
                links(replicas@),
                peer_ip@,
                port,
                i as int,
            ),
        decreases n - i,
    {
        if str_eq(replicas[i].peer_ip.as_str(), peer_ip) && replicas[i].port == port {
            return Some(i);
        }
        i = i + 1;
    }
    None
}

/// The handles of `replicas`, in order.
pub open spec fn link_handles(replicas: Seq<Link>) -> Seq<u64> {
    Seq::new(replicas.len(), |i: int| replicas[i].link)
}

/// `replicas` without the links that are written to under the handle `link`,
/// the others in their order.
pub open spec fn without_link(replicas: Seq<Link>, link: u64) -> Seq<Link>
    decreases replicas.len(),
{
    if replicas.len() == 0 {
        Seq::empty()
    } else if replicas.last().link == link {
        without_link(replicas.drop_last(), link)
    } else {
        without_link(replicas.drop_last(), link).push(replicas.last())
    }
}

/// What is left after links were dropped was there before, and where no two
/// links had the same address and port, no two have now.
pub proof fn lemma_without_link(replicas: Seq<Link>, link: u64)
    ensures
        forall|k: int|
            0 <= k < without_link(replicas, link).len() ==> exists|m: int|
                0 <= m < replicas.len() && replicas[m] == #[trigger] without_link(
                    replicas,
                    link,
                )[k],
        distinct_peers(replicas) ==> distinct_peers(without_link(replicas, link)),
    decreases replicas.len(),
{
    if replicas.len() > 0 {
        let front = replicas.drop_last();
        let kept = without_link(front, link);
        lemma_without_link(front, link);
        assert forall|k: int| 0 <= k < without_link(replicas, link).len() implies exists|m: int|
            0 <= m < replicas.len() && replicas[m] == #[trigger] without_link(
                replicas,
                link,
            )[k] by {
            if k < kept.len() {
                let m = choose|m: int| 0 <= m < front.len() && front[m] == kept[k];
                assert(replicas[m] == without_link(replicas, link)[k]);
            } else {
                assert(replicas[replicas.len() - 1] == without_link(replicas, link)[k]);
            }
        }
        if distinct_peers(replicas) {
            assert(distinct_peers(front)) by {
                assert forall|i: int, j: int|
                    0 <= i < front.len() && 0 <= j < front.len() && i != j implies !(
                    front[i].peer_ip == front[j].peer_ip && front[i].port == front[j].port) by {
                    assert(front[i] == replicas[i] && front[j] == replicas[j]);
                }
            }
            let out = without_link(replicas, link);
            assert forall|i: int, j: int|
                0 <= i < out.len() && 0 <= j < out.len() && i != j implies !(out[i].peer_ip
                    == out[j].peer_ip && out[i].port == out[j].port) by {
                if i < kept.len() && j < kept.len() {
                    assert(out[i] == kept[i] && out[j] == kept[j]);
                } else if i < kept.len() {
                    let m = choose|m: int| 0 <= m < front.len() && front[m] == kept[i];
                    assert(out[i] == replicas[m]);
                    assert(out[j] == replicas[replicas.len() - 1]);
                } else if j < kept.len() {
                    let m = choose|m: int| 0 <= m < front.len() && front[m] == kept[j];
                    assert(out[j] == replicas[m]);
                    assert(out[i] == replicas[replicas.len() - 1]);
                }
            }
        }
    }
}

/// The keyspace and the replication state of one server.
pub struct RedisRuntime {
    values: Store,
    config: ServerConfig,
    replication_role: ReplicationRole,
    replication_id: String,
    replication_offset: u16,
    snapshot: Vec<u8>,
}

impl View for RedisRuntime {
    type V = Runtime;

    closed spec fn view(&self) -> Runtime {
        Runtime {
            store: self.values@,
            primary: self.replication_role is Master,
            replicaof: match self.replication_role {
                ReplicationRole::Master { .. } => None,
                ReplicationRole::Slave { replicaof, .. } => Some(replicaof@),
            },
            handshake: match self.replication_role {
                ReplicationRole::Master { .. } => None,
                ReplicationRole::Slave { handshake, .. } => Some(handshake),
            },
            replicas: match self.replication_role {
                ReplicationRole::Master { replicas } => links(replicas@),
                ReplicationRole::Slave { .. } => Seq::empty(),
            },
            replication_id: self.replication_id@,
            replication_offset: self.replication_offset,
            snapshot: self.snapshot@,
            port: self.config.port,
        }
    }
}

impl RedisRuntime {
    /// Whether the runtime is sound: no key occurs twice in its keyspace, and
    /// no two of its replicas have the same address and port.
    pub closed spec fn wf(&self) -> bool {
        &&& self.values.distinct_keys()
        &&& distinct_peers(self@.replicas)
        &&& self.config@.replica_addr == self@.replicaof
    }

    /// A runtime for the given configuration: a replica where the
    /// configuration names a primary to follow, a primary otherwise. A replica
    /// stands at the start of its handshake.
    ///
    /// The keyspace is empty, no replica is linked, the offset is 0 and the
    /// replication identifier is made of 40 letters and digits drawn at
    /// random. The snapshot is the image of an empty database; it is empty
    /// where the built-in image does not decode.
    pub fn new(server_config: ServerConfig) -> (r: Self)
        ensures
            r.wf(),
            r@.store == Map::<Seq<char>, Entry>::empty(),
            r@.primary == (server_config@.replica_addr is None),
            r@.replicaof == server_config@.replica_addr,
            r@.handshake == (if server_config@.replica_addr is None {
                None
            } else {
                Some(HandshakeState::Ping)
            }),
            r@.replicas == Seq::<Link>::empty(),
            r@.replication_id.len() == 40,
            forall|i: int| 0 <= i < 40 ==> is_alphanumeric(#[trigger] r@.replication_id[i]),
            r@.replication_offset == 0,
            r@.snapshot == match spec_empty_rdb() {
                Some(image) => image,
                None => Seq::<u8>::empty(),
            },
            r@.port == server_config@.port,
    {
        let replication_role = match &server_config.replica_addr {
            Some(addr) => ReplicationRole::Slave {
                replicaof: addr.clone(),
                handshake: HandshakeState::Ping,
            },
            None => ReplicationRole::Master { replicas: Vec::new() },
        };
        let snapshot: Vec<u8> = match get_empty_rdb_decoded() {
            Some(image) => image,
            None => Vec::new(),
        };
        let r = RedisRuntime {
            values: Store::new(),
            replication_role,
            replication_id: generate_alphanumeric_string(40),
            replication_offset: 0,
            config: server_config,
            snapshot,
        };
        proof {
            assert(r@.replicas =~= Seq::<Link>::empty());
        }
        r
    }

    /// Executes a command on a connection that is no replica's.
    pub fn execute_no_conn(&mut self, command: &RedisCommand, now: u64) -> (r: RedisType)
        requires
            old(self).wf(),
        ensures
            final(self).wf(),
            r@ == spec_reply(old(self)@, command@, now),
            final(self)@ == spec_after(old(self)@, command@, now, None),
    {
        self.execute(command, now, None)
    }

    /// Executes a command at the instant `now`, counted in milliseconds, and
    /// returns the reply.
    ///
    /// `connection` gives the address of the peer and the handle of its
    /// connection; it serves only to link a replica that announces its port.
    pub fn execute(
        &mut self,
        command: &RedisCommand,
        now: u64,
        connection: Option<(String, u64)>,
    ) -> (r: RedisType)
        requires
            old(self).wf(),
        ensures
            final(self).wf(),
            r@ == spec_reply(old(self)@, command@, now),
            final(self)@ == spec_after(old(self)@, command@, now, peer_model(connection)),
    {
        match self.execute_read(command, now, &connection) {
            Some(reply) => {
                return reply;
            },
            None => {},
        }
        match command {
            RedisCommand::SET { key, val, ttl } => {
                self.values.put(key.clone(), val.clone(), *ttl, now);
                RedisType::simple_string("OK")
            },
            RedisCommand::GET { key } => {
                match self.values.get(key.as_str(), now) {
                    Some(value) => value,
                    None => RedisType::NullBulkString,
                }
            },
            RedisCommand::REPLCONF { arg } => {
                match arg {
                    ReplConfArgs::Port(port) => {
                        match connection {
                            Some((peer_ip, link)) => {
                                self.register(peer_ip, *port, link);
                            },
                            None => {},
                        }
                    },
                    ReplConfArgs::Capabilities(_) => {},
                }
                RedisType::simple_string("OK")
            },
            _ => RedisType::NullBulkString,
        }
    }

    /// Executes a command that changes nothing, and returns the reply; `None`
    /// where the command has something to change, which takes `execute`.
    ///
    /// `SET` always has, `GET` has where it finds an entry that expired, and
    /// `REPLCONF listening-port` has on a primary that knows the peer. Many
    /// readers may run this at once, while a writer runs `execute` alone.
    pub fn execute_read(
        &self,
        command: &RedisCommand,
        now: u64,
        connection: &Option<(String, u64)>,
    ) -> (r: Option<RedisType>)
        requires
            self.wf(),
        ensures
            r is Some <==> !spec_writes(self@, command@, now, peer_model(*connection)),
            r is Some ==> r->0@ == spec_reply(self@, command@, now),
    {
        match command {
            RedisCommand::PING => Some(RedisType::simple_string("PONG")),
            RedisCommand::ECHO(payload) => Some(RedisType::BulkString { data: payload.clone() }),
            RedisCommand::SET { .. } => None,
            RedisCommand::GET { key } => {
                match self.values.peek(key.as_str(), now) {
                    Lookup::Found(value) => Some(value),
                    Lookup::Missing => Some(RedisType::NullBulkString),
                    Lookup::Expired => None,
                }
            },
            RedisCommand::INFO { arg } => {
                if eq_ignore_case(arg.as_str(), "replication") {
                    let text = "role:".to_owned().concat(self.replication_role.type_str()).concat(
                        "\nmaster_replid:",
                    ).concat(self.replication_id.as_str()).concat("\nmaster_repl_offset:").concat(
                        decimal_string(self.replication_offset as u64).as_str(),
                    );
                    Some(RedisType::BulkString { data: text })
                } else {
                    Some(
                        RedisType::SimpleError {
                            message: "Unknown arg for INFO: ".to_owned().concat(arg.as_str()),
                        },
                    )
                }
            },
            RedisCommand::REPLCONF { arg } => {
                match arg {
                    ReplConfArgs::Port(_) => {
                        if !self.is_master() {
                            Some(RedisType::simple_error("You can't sync with a replica"))
                        } else if connection.is_some() {
                            None
                        } else {
                            Some(RedisType::simple_string("OK"))
                        }
                    },
                    ReplConfArgs::Capabilities(_) => Some(RedisType::simple_string("OK")),
                }
            },
            RedisCommand::PSYNC { master_id, master_offset } => {
                if self.is_master() && str_eq(master_id.as_str(), "?") && *master_offset == -1 {
                    let mut parts: Vec<RedisType> = Vec::new();
                    parts.push(
                        RedisType::SimpleString {
                            data: "FULLRESYNC ".to_owned().concat(
                                self.replication_id.as_str(),
                            ).concat(" 0"),
                        },
                    );
                    parts.push(RedisType::RDBFile { file: self.snapshot.clone() });
                    proof {
                        assert(plain_frames(parts@) =~= full_resync(self@)->Multiple_0);
                    }
                    Some(RedisType::multiple(parts))
                } else {
                    Some(RedisType::simple_error("Not capable of syncing with those options"))
                }
            },
        }
    }

    /// Links the replica at `peer_ip` that listens on `port`, written to under
    /// the handle `link`.
    fn register(&mut self, peer_ip: String, port: u16, link: u64)
        requires
            old(self).wf(),
            old(self)@.primary,
        ensures
            final(self).wf(),
            final(self)@ == (Runtime {
                replicas: spec_register(old(self)@.replicas, peer_ip@, port, link),
                ..old(self)@
            }),
    {
        match &mut self.replication_role {
            ReplicationRole::Master { replicas } => {
                let ghost before = links(replicas@);
                let place = peer_position(replicas, peer_ip.as_str(), port);
                let item = Replica { peer_ip, port, link };
                proof {
                    lemma_find_peer(before, item@.peer_ip, port, 0);
                }
                match place {
                    Some(i) => {
                        replicas.set(i, item);
                    },
                    None => {
                        replicas.push(item);
                    },
                }
                proof {
                    assert(links(replicas@) =~= spec_register(before, item@.peer_ip, port, link));
                }
            },
            ReplicationRole::Slave { .. } => {},
        }
    }

    /// Where a replica stands in its handshake with the primary; `None` on a
    /// primary.
    pub fn handshake_state(&self) -> (r: Option<HandshakeState>)
        ensures
            r == self@.handshake,
            r is None <==> self@.primary,
    {
        match &self.replication_role {
            ReplicationRole::Master { .. } => None,
            ReplicationRole::Slave { handshake, .. } => Some(*handshake),
        }
    }

    /// Puts a replica at `state` in its handshake. Nothing changes on a
    /// primary.
    pub(crate) fn set_handshake(&mut self, state: HandshakeState)
        requires
            old(self).wf(),
        ensures
            final(self).wf(),
            final(self)@ == (Runtime {
                handshake: if old(self)@.primary {
                    None
                } else {
                    Some(state)
                },
                ..old(self)@
            }),
    {
        match &mut self.replication_role {
            ReplicationRole::Master { .. } => {},
            ReplicationRole::Slave { handshake, .. } => {
                *handshake = state;
            },
        }
    }

    /// The port on which the server listens.
    pub fn port(&self) -> (r: u16)
        ensures
            r == self@.port,
    {
        self.config.port
    }

    /// What a primary sends to its replicas after it executed `command`: the
    /// bytes of the command and the handles of the links, in the order in
    /// which they were made. `None` on a replica, and for a command that
    /// writes nothing.
    pub fn replicate_command(&self, command: &RedisCommand) -> (r: Option<(Vec<u8>, Vec<u64>)>)
        ensures
            r is Some <==> (self@.primary && spec_is_write(command@)),
            r matches Some((payload, handles)) ==> payload@ == serialize(command_frame(command@))
                && handles@ == link_handles(self@.replicas),
    {
        if !command.is_write_command() {
            return None;
        }
        match &self.replication_role {
            ReplicationRole::Master { replicas } => {
                let mut handles: Vec<u64> = Vec::new();
                let mut i: usize = 0;
                while i < replicas.len()
                    invariant
                        i <= replicas.len(),
                        handles@ == link_handles(links(replicas@)).subrange(0, i as int),
                    decreases replicas.len() - i,
                {
                    handles.push(replicas[i].link);
                    proof {
                        assert(handles@ =~= link_handles(links(replicas@)).subrange(0, i + 1));
                    }
                    i = i + 1;
                }
                proof {
                    assert(handles@ =~= link_handles(links(replicas@)));
                }
                Some((command.write_as_protocol(), handles))
            },
            ReplicationRole::Slave { .. } => None,
        }
    }

    /// Drops every link that is written to under the handle `link`: what a
    /// primary does when a write to a replica failed.
    pub fn remove_replica(&mut self, link: u64)
        requires
            old(self).wf(),
        ensures
            final(self).wf(),
            final(self)@ == (Runtime {
                replicas: without_link(old(self)@.replicas, link),
                ..old(self)@
            }),
    {
        match &mut self.replication_role {
            ReplicationRole::Master { replicas } => {
                let ghost before = links(replicas@);
                let ghost mut j: int = 0;
                let mut i: usize = 0;
                while i < replicas.len()
                    invariant
                        i <= replicas@.len(),
                        j == i + (before.len() - replicas@.len()),
                        0 <= j <= before.len(),
                        links(replicas@).subrange(0, i as int) == without_link(
                            before.subrange(0, j),
                            link,
                        ),
                        links(replicas@).subrange(i as int, replicas@.len() as int)
                            == before.subrange(j, before.len() as int),
                    decreases replicas@.len() - i,
                {
                    let ghost now = links(replicas@);
                    proof {
                        assert(before.subrange(0, j + 1).drop_last() =~= before.subrange(0, j));
                        assert(now[i as int] == now.subrange(i as int, now.len() as int)[0]);
                        assert(before.subrange(0, j + 1).last() == now[i as int]);
                    }
                    if replicas[i].link == link {
                        replicas.remove(i);
                        proof {
                            let next = links(replicas@);
                            assert(next.subrange(0, i as int) =~= now.subrange(0, i as int));
                            assert(next.subrange(i as int, next.len() as int) =~= before.subrange(
                                j + 1,
                                before.len() as int,
                            )) by {
                                assert forall|k: int| i <= k < next.len() implies #[trigger] next[k]
                                    == before[j + 1 + k - i] by {
                                    assert(next[k] == now[k + 1]);
                                    assert(now.subrange(i as int, now.len() as int)[k + 1 - i]
                                        == now[k + 1]);
                                }
                            }
                        }
                    } else {
                        proof {
                            assert(now.subrange(0, i + 1) =~= now.subrange(0, i as int).push(
                                now[i as int],
                            ));
                            assert(now.subrange(i + 1, now.len() as int) =~= before.subrange(
                                j + 1,
                                before.len() as int,
                            )) by {
                                assert forall|k: int|
                                    i + 1 <= k < now.len() implies #[trigger] now[k] == before[j
                                    + k - i] by {
                                    let rest = now.subrange(i as int, now.len() as int);
                                    assert(rest[k - i] == now[k]);
                                }
                            }
                        }
                        i = i + 1;
                    }
                    proof {
                        j = j + 1;
                    }
                }
                proof {
                    assert(before.subrange(0, j) =~= before);
                    assert(links(replicas@).subrange(0, i as int) =~= links(replicas@));
                    lemma_without_link(before, link);
                }
            },
            ReplicationRole::Slave { .. } => {
                proof {
                    assert(without_link(Seq::<Link>::empty(), link) =~= Seq::<Link>::empty());
                }
            },
        }
    }

    /// Whether the server is a primary.
    pub fn is_master(&self) -> (r: bool)
        ensures
            r == self@.primary,
    {
        match self.replication_role {
            ReplicationRole::Master { .. } => true,
            ReplicationRole::Slave { .. } => false,
        }
    }
}

impl Default for RedisRuntime {
    /// A primary on the default port.
    fn default() -> (r: Self)
        ensures
            r.wf(),
            r@.primary,
            r@.replicaof is None,
            r@.handshake is None,
            r@.port == 6379,
            r@.store == Map::<Seq<char>, Entry>::empty(),
            r@.replicas == Seq::<Link>::empty(),
            r@.replication_id.len() == 40,
            forall|i: int| 0 <= i < 40 ==> is_alphanumeric(#[trigger] r@.replication_id[i]),
            r@.replication_offset == 0,
            r@.snapshot == match spec_empty_rdb() {
                Some(image) => image,
                None => Seq::<u8>::empty(),
            },
    {
        RedisRuntime::new(ServerConfig::default())
    }
}

} // verus!
