//! An in-memory key/value store that speaks the RESP wire protocol, with
//! primary/replica replication.
//!
//! The library holds the frame codec, the command model, the keyspace with
//! expiry, the reply rules and the replication decisions. Sockets, tasks and
//! clocks live outside: they hand bytes, commands and instants in, and carry
//! replies and actions out.

use vstd::prelude::*;

pub mod codec;
pub mod connection;
pub mod decimal;
pub mod rdb_file;
pub mod redis_command;
pub mod redis_runtime;
pub mod redis_type;
pub mod replication;
pub mod round_trip;
pub mod server_config;
pub mod store;
pub mod text;

verus! {

/// A value that has a form on the wire.
pub trait RedisWritable {
    /// The bytes of this value on the wire.
    spec fn spec_protocol(&self) -> Seq<u8>;

    /// Writes this value as the bytes that go on the wire.
    fn write_as_protocol(&self) -> (bytes: Vec<u8>)
        ensures
            bytes@ == self.spec_protocol(),
    ;
}

} // verus!
