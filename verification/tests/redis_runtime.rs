use redis_starter_rust::rdb_file;
use redis_starter_rust::redis_command::{RedisCommand, ReplConfArgs};
use redis_starter_rust::redis_runtime::{RedisRuntime, ReplicationRole};
use redis_starter_rust::redis_type::RedisType;
use redis_starter_rust::replication::HandshakeState;
use redis_starter_rust::server_config::ServerConfig;
use redis_starter_rust::RedisWritable;

fn replica() -> RedisRuntime {
    RedisRuntime::new(ServerConfig {
        port: 6380,
        replica_addr: Some("127.0.0.1:6379".to_string()),
    })
}

#[test]
fn test_ping_command() {
    let mut runtime = RedisRuntime::default();
    let result = runtime.execute_no_conn(&RedisCommand::PING, 0);
    assert_eq!(result, RedisType::simple_string("PONG"));
}

#[test]
fn test_echo_command() {
    let mut runtime = RedisRuntime::default();
    let result = runtime.execute_no_conn(&RedisCommand::ECHO("Hello, Redis!".to_string()), 0);
    assert_eq!(result, RedisType::bulk_string("Hello, Redis!"));
}

#[test]
fn redis_runtime_test_set_command() {
    let mut runtime = RedisRuntime::default();
    let result = runtime.execute_no_conn(
        &RedisCommand::SET {
            key: "key1".to_string(),
            val: RedisType::bulk_string("value1"),
            ttl: None,
        },
        0,
    );
    assert_eq!(result, RedisType::simple_string("OK"));

    // Ensure the value is actually set
    let value = runtime.execute_no_conn(
        &RedisCommand::GET {
            key: "key1".to_string(),
        },
        0,
    );
    assert_eq!(value, RedisType::bulk_string("value1"));
}

#[test]
fn test_set_command_with_ttl() {
    let mut runtime = RedisRuntime::default();

    let key = "key_with_ttl";
    let start = 1000;
    let result = runtime.execute_no_conn(
        &RedisCommand::SET {
            key: key.to_string(),
            val: RedisType::bulk_string("temporary"),
            ttl: Some(100),
        },
        start,
    );
    assert_eq!(result, RedisType::simple_string("OK"));

    // Ensure the value is actually set
    let value = runtime.execute_no_conn(
        &RedisCommand::GET {
            key: key.to_string(),
        },
        start,
    );
    assert_eq!(value, RedisType::bulk_string("temporary"));

    // Ensure the value has expired
    let value = runtime.execute_no_conn(
        &RedisCommand::GET {
            key: key.to_string(),
        },
        start + 101,
    );
    assert_eq!(value, RedisType::NullBulkString);
}

#[test]
fn test_get_command_existing_key() {
    let mut runtime = RedisRuntime::default();
    runtime.execute_no_conn(
        &RedisCommand::SET {
            key: "key1".to_string(),
            val: RedisType::bulk_string("value1"),
            ttl: None,
        },
        0,
    );

    let result = runtime.execute_no_conn(
        &RedisCommand::GET {
            key: "key1".to_string(),
        },
        u64::MAX,
    );
    assert_eq!(result, RedisType::bulk_string("value1"));
}

#[test]
fn test_replication_info() {
    let mut runtime = RedisRuntime::default();
    assert!(runtime.is_master());

    let result = runtime.execute_no_conn(
        &RedisCommand::INFO {
            arg: "replication".to_string(),
        },
        0,
    );

    match result {
        RedisType::BulkString { data } => {
            assert!(data.contains("role:master"));
            assert!(data.contains("master_replid:"));
            assert!(data.contains("master_repl_offset:0"));
        }
        _ => panic!("Result was not a bulk string"),
    }
}

#[test]
fn test_unknown_info() {
    let mut runtime = RedisRuntime::default();

    let result = runtime.execute_no_conn(
        &RedisCommand::INFO {
            arg: "anything".to_string(),
        },
        0,
    );
    assert_eq!(
        result,
        RedisType::simple_error("Unknown arg for INFO: anything")
    );
}

#[test]
fn test_get_command_non_existing_key() {
    let mut runtime = RedisRuntime::default();

    let result = runtime.execute_no_conn(
        &RedisCommand::GET {
            key: "key1".to_string(),
        },
        0,
    );
    assert_eq!(result, RedisType::NullBulkString);
}

#[test]
fn test_replconf() {
    let mut runtime = RedisRuntime::default();

    let result = runtime.execute_no_conn(
        &RedisCommand::REPLCONF {
            arg: ReplConfArgs::Port(1234),
        },
        0,
    );
    assert_eq!(result, RedisType::simple_string("OK"));

    let result = runtime.execute_no_conn(
        &RedisCommand::REPLCONF {
            arg: ReplConfArgs::Capabilities(vec!["psync2".to_string()]),
        },
        0,
    );
    assert_eq!(result, RedisType::simple_string("OK"));
}

#[test]
fn info_text_is_three_lines_with_a_random_id() {
    let mut runtime = RedisRuntime::default();
    let result = runtime.execute_no_conn(
        &RedisCommand::INFO {
            arg: "REPLICATION".to_string(),
        },
        0,
    );
    let text = result.extract_string().unwrap().to_string();
    let lines: Vec<&str> = text.split('\n').collect();
    assert_eq!(lines.len(), 3);
    assert_eq!(lines[0], "role:master");
    let id = lines[1].strip_prefix("master_replid:").unwrap();
    assert_eq!(id.len(), 40);
    assert!(id.chars().all(|c| c.is_ascii_alphanumeric()));
    assert_eq!(lines[2], "master_repl_offset:0");

    let mut other = replica();
    let result = other.execute_no_conn(
        &RedisCommand::INFO {
            arg: "replication".to_string(),
        },
        0,
    );
    assert!(result.extract_string().unwrap().starts_with("role:slave\n"));
}

#[test]
fn value_is_read_at_the_instant_of_expiry_and_gone_after() {
    let mut runtime = RedisRuntime::default();
    let set = RedisCommand::SET {
        key: "k".to_string(),
        val: RedisType::bulk_string("v"),
        ttl: Some(100),
    };
    let get = RedisCommand::GET {
        key: "k".to_string(),
    };
    runtime.execute_no_conn(&set, 500);
    assert_eq!(
        runtime.execute_no_conn(&get, 599),
        RedisType::bulk_string("v")
    );
    assert_eq!(
        runtime.execute_no_conn(&get, 600),
        RedisType::bulk_string("v")
    );
    assert_eq!(runtime.execute_no_conn(&get, 601), RedisType::NullBulkString);
    assert_eq!(runtime.execute_no_conn(&get, 0), RedisType::NullBulkString);
}

#[test]
fn time_to_live_beyond_the_last_instant_never_expires() {
    let mut runtime = RedisRuntime::default();
    runtime.execute_no_conn(
        &RedisCommand::SET {
            key: "k".to_string(),
            val: RedisType::bulk_string("v"),
            ttl: Some(u64::MAX),
        },
        10,
    );
    assert_eq!(
        runtime.execute_no_conn(
            &RedisCommand::GET {
                key: "k".to_string()
            },
            u64::MAX
        ),
        RedisType::bulk_string("v")
    );
}

#[test]
fn set_overwrites_and_drops_the_old_expiry() {
    let mut runtime = RedisRuntime::default();
    runtime.execute_no_conn(
        &RedisCommand::SET {
            key: "k".to_string(),
            val: RedisType::bulk_string("old"),
            ttl: Some(1),
        },
        0,
    );
    runtime.execute_no_conn(
        &RedisCommand::SET {
            key: "k".to_string(),
            val: RedisType::bulk_string("new"),
            ttl: None,
        },
        0,
    );
    assert_eq!(
        runtime.execute_no_conn(
            &RedisCommand::GET {
                key: "k".to_string()
            },
            1000
        ),
        RedisType::bulk_string("new")
    );
}

#[test]
fn psync_on_a_primary_gives_the_line_and_the_snapshot() {
    let mut runtime = RedisRuntime::default();
    let result = runtime.execute_no_conn(&RedisCommand::psync_from_scrath(), 0);
    match &result {
        RedisType::Multiple { parts } => {
            assert_eq!(parts.len(), 2);
            let line = parts[0].extract_string().unwrap();
            let words: Vec<&str> = line.split(' ').collect();
            assert_eq!(words.len(), 3);
            assert_eq!(words[0], "FULLRESYNC");
            assert_eq!(words[1].len(), 40);
            assert_eq!(words[2], "0");
            assert_eq!(
                parts[1],
                RedisType::RDBFile {
                    file: rdb_file::get_empty_rdb_decoded().unwrap()
                }
            );
        }
        _ => panic!("Result was not a compound reply"),
    }
    let bytes = result.write_as_protocol();
    assert!(bytes.starts_with(b"+FULLRESYNC "));
    assert!(bytes.ends_with(&rdb_file::get_empty_rdb_decoded().unwrap()));
}

#[test]
fn psync_with_other_options_or_on_a_replica_is_refused() {
    let refusal = RedisType::simple_error("Not capable of syncing with those options");
    let mut runtime = RedisRuntime::default();
    assert_eq!(
        runtime.execute_no_conn(
            &RedisCommand::PSYNC {
                master_id: "abc".to_string(),
                master_offset: -1
            },
            0
        ),
        refusal
    );
    assert_eq!(
        runtime.execute_no_conn(
            &RedisCommand::PSYNC {
                master_id: "?".to_string(),
                master_offset: 0
            },
            0
        ),
        refusal
    );
    assert_eq!(
        replica().execute_no_conn(&RedisCommand::psync_from_scrath(), 0),
        refusal
    );
}

#[test]
fn replconf_port_on_a_replica_is_refused() {
    let mut runtime = replica();
    assert!(!runtime.is_master());
    assert_eq!(
        runtime.execute(
            &RedisCommand::REPLCONF {
                arg: ReplConfArgs::Port(1)
            },
            0,
            Some(("10.0.0.1".to_string(), 7))
        ),
        RedisType::simple_error("You can't sync with a replica")
    );
}

#[test]
fn a_primary_links_replicas_and_fans_writes_out() {
    let mut runtime = RedisRuntime::default();
    let set = RedisCommand::SET {
        key: "x".to_string(),
        val: RedisType::bulk_string("y"),
        ttl: None,
    };
    assert_eq!(
        runtime.replicate_command(&set),
        Some((set.write_as_protocol(), vec![]))
    );
    let port = |p: u16| RedisCommand::REPLCONF {
        arg: ReplConfArgs::Port(p),
    };
    let ok = RedisType::simple_string("OK");
    assert_eq!(
        runtime.execute(&port(7001), 0, Some(("10.0.0.1".to_string(), 1))),
        ok
    );
    assert_eq!(
        runtime.execute(&port(7002), 0, Some(("10.0.0.1".to_string(), 2))),
        ok
    );
    assert_eq!(
        runtime.execute(&port(7001), 0, Some(("10.0.0.2".to_string(), 3))),
        ok
    );
    assert_eq!(
        runtime.replicate_command(&set),
        Some((
            b"*3\r\n$3\r\nSET\r\n$1\r\nx\r\n$1\r\ny\r\n".to_vec(),
            vec![1, 2, 3]
        ))
    );
    // the same peer again: its place is kept, its handle is the new one
    assert_eq!(
        runtime.execute(&port(7001), 0, Some(("10.0.0.1".to_string(), 9))),
        ok
    );
    assert_eq!(
        runtime.replicate_command(&set).unwrap().1,
        vec![9, 2, 3]
    );
    runtime.remove_replica(2);
    assert_eq!(runtime.replicate_command(&set).unwrap().1, vec![9, 3]);
    runtime.remove_replica(5);
    assert_eq!(runtime.replicate_command(&set).unwrap().1, vec![9, 3]);
    assert_eq!(runtime.replicate_command(&RedisCommand::PING), None);
    assert_eq!(
        runtime.replicate_command(&RedisCommand::GET {
            key: "x".to_string()
        }),
        None
    );
}

#[test]
fn a_replica_fans_nothing_out() {
    let runtime = replica();
    let set = RedisCommand::SET {
        key: "x".to_string(),
        val: RedisType::bulk_string("y"),
        ttl: None,
    };
    assert_eq!(runtime.replicate_command(&set), None);
    assert_eq!(runtime.port(), 6380);
}

#[test]
fn role_names() {
    assert_eq!(
        ReplicationRole::Master { replicas: vec![] }.type_str(),
        "master"
    );
    assert_eq!(
        ReplicationRole::Slave {
            replicaof: "h:1".to_string(),
            handshake: HandshakeState::Ping
        }
        .type_str(),
        "slave"
    );
}

#[test]
fn two_runtimes_draw_their_own_identifiers() {
    let id = |runtime: &mut RedisRuntime| {
        runtime
            .execute_no_conn(
                &RedisCommand::INFO {
                    arg: "replication".to_string(),
                },
                0,
            )
            .extract_string()
            .unwrap()
            .to_string()
    };
    let mut a = RedisRuntime::default();
    let mut b = RedisRuntime::default();
    assert_eq!(id(&mut a), id(&mut a));
    assert_ne!(id(&mut a), id(&mut b));
}

#[test]
fn execute_read_answers_what_changes_nothing() {
    let mut runtime = RedisRuntime::default();
    let peer = Some(("10.0.0.1".to_string(), 1));
    let set = RedisCommand::SET {
        key: "k".to_string(),
        val: RedisType::bulk_string("v"),
        ttl: Some(10),
    };
    let get = RedisCommand::GET {
        key: "k".to_string(),
    };
    let port = RedisCommand::REPLCONF {
        arg: ReplConfArgs::Port(7000),
    };
    assert_eq!(
        runtime.execute_read(&RedisCommand::PING, 0, &None),
        Some(RedisType::simple_string("PONG"))
    );
    assert_eq!(
        runtime.execute_read(&RedisCommand::ECHO("a".to_string()), 0, &None),
        Some(RedisType::bulk_string("a"))
    );
    assert_eq!(
        runtime.execute_read(&get, 0, &None),
        Some(RedisType::NullBulkString)
    );
    // a write is left to `execute`
    assert_eq!(runtime.execute_read(&set, 0, &None), None);
    assert_eq!(
        runtime.execute_read(&get, 0, &None),
        Some(RedisType::NullBulkString)
    );
    runtime.execute(&set, 100, None);
    assert_eq!(
        runtime.execute_read(&get, 110, &None),
        Some(RedisType::bulk_string("v"))
    );
    // an entry that expired is left to `execute`, which removes it
    assert_eq!(runtime.execute_read(&get, 111, &None), None);
    assert_eq!(runtime.execute(&get, 111, None), RedisType::NullBulkString);
    assert_eq!(
        runtime.execute_read(&get, 111, &None),
        Some(RedisType::NullBulkString)
    );
    // a replica that announces its port is linked by `execute`
    assert_eq!(runtime.execute_read(&port, 0, &peer), None);
    assert_eq!(
        runtime.execute_read(&port, 0, &None),
        Some(RedisType::simple_string("OK"))
    );
    assert_eq!(
        replica().execute_read(&port, 0, &peer),
        Some(RedisType::simple_error("You can't sync with a replica"))
    );
    assert_eq!(
        runtime.execute_read(&RedisCommand::default_capabilities(), 0, &peer),
        Some(RedisType::simple_string("OK"))
    );
    assert_eq!(
        runtime.execute_read(&RedisCommand::psync_from_scrath(), 0, &peer),
        Some(runtime.execute(&RedisCommand::psync_from_scrath(), 0, None))
    );
    assert_eq!(
        runtime.execute_read(
            &RedisCommand::INFO {
                arg: "x".to_string()
            },
            0,
            &None
        ),
        Some(RedisType::simple_error("Unknown arg for INFO: x"))
    );
}
