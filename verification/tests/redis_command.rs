use redis_starter_rust::redis_command::{RedisCommand, ReplConfArgs};
use redis_starter_rust::redis_type::RedisType;
use redis_starter_rust::RedisWritable;

#[test]
fn test_parse_ping() {
    let data = RedisType::SimpleString {
        data: "PING".to_string(),
    };

    let result = RedisCommand::parse(&data);
    assert_eq!(result, Some(RedisCommand::PING));

    let data = RedisType::list(vec![RedisType::bulk_string("Ping")]);

    let result = RedisCommand::parse(&data);
    assert_eq!(result, Some(RedisCommand::PING));
}

#[test]
fn test_parse_echo() {
    let data = RedisType::list(vec![
        RedisType::bulk_string("echo"),
        RedisType::bulk_string("hello"),
    ]);

    let result = RedisCommand::parse(&data);
    assert_eq!(result, Some(RedisCommand::ECHO("hello".to_string())));
}

#[test]
fn test_parse_invalid() {
    let data = RedisType::list(vec![
        RedisType::bulk_string("invalid"),
        RedisType::bulk_string("world"),
    ]);

    let result = RedisCommand::parse(&data);
    assert_eq!(result, None);
}

#[test]
fn test_parse_empty() {
    let data = RedisType::SimpleString {
        data: "".to_string(),
    };

    let result = RedisCommand::parse(&data);
    assert_eq!(result, None);
}

#[test]
fn redis_command_test_set_command() {
    let set = RedisType::list(vec![
        RedisType::bulk_string("SET"),
        RedisType::bulk_string("mykey"),
        RedisType::bulk_string("myvalue"),
    ]);
    assert_eq!(
        RedisCommand::parse(&set),
        Some(RedisCommand::SET {
            key: "mykey".to_string(),
            val: RedisType::bulk_string("myvalue"),
            ttl: None
        })
    );

    let set_with_expiry = RedisType::list(vec![
        RedisType::bulk_string("SET"),
        RedisType::bulk_string("MyKeyTwo"),
        RedisType::bulk_string("OtherValue"),
        RedisType::bulk_string("px"),
        RedisType::bulk_string("200"),
    ]);
    assert_eq!(
        RedisCommand::parse(&set_with_expiry),
        Some(RedisCommand::SET {
            key: "MyKeyTwo".to_string(),
            val: RedisType::bulk_string("OtherValue"),

            ttl: Some(200)
        })
    );
}

#[test]
fn test_get_command() {
    let get = RedisType::list(vec![
        RedisType::bulk_string("GET"),
        RedisType::bulk_string("mykey"),
    ]);
    assert_eq!(
        RedisCommand::parse(&get),
        Some(RedisCommand::GET {
            key: "mykey".to_string()
        })
    );
}

#[test]
fn test_info_command() {
    let get = RedisType::list(vec![
        RedisType::bulk_string("info"),
        RedisType::bulk_string("replication"),
    ]);
    assert_eq!(
        RedisCommand::parse(&get),
        Some(RedisCommand::INFO {
            arg: "replication".to_string()
        })
    );
}

#[test]
fn test_invalid_command() {
    let invalid = RedisType::SimpleString {
        data: "INVALID".to_string(),
    };
    assert_eq!(RedisCommand::parse(&invalid), None);
}

#[test]
fn test_empty_list() {
    let empty = RedisType::list(vec![]);
    assert_eq!(RedisCommand::parse(&empty), None);
}

#[test]
fn test_parse_replconf() {
    let data = RedisType::list(vec![
        RedisType::bulk_string("replconf"),
        RedisType::bulk_string("listening-port"),
        RedisType::bulk_string("6379"),
    ]);

    let result = RedisCommand::parse(&data);
    assert_eq!(
        result,
        Some(RedisCommand::REPLCONF {
            arg: ReplConfArgs::Port(6379)
        })
    );

    let data = RedisType::list(vec![
        RedisType::bulk_string("replconf"),
        RedisType::bulk_string("capa"),
        RedisType::bulk_string("psync2"),
    ]);

    let result = RedisCommand::parse(&data);
    assert_eq!(
        result,
        Some(RedisCommand::REPLCONF {
            arg: ReplConfArgs::Capabilities(vec!["psync2".to_string()])
        })
    );
}

#[test]
fn test_parse_invalid_replconf() {
    let data = RedisType::list(vec![
        RedisType::bulk_string("replconf"),
        RedisType::bulk_string("unknown"),
    ]);

    let result = RedisCommand::parse(&data);
    assert_eq!(result, None);

    let data = RedisType::list(vec![
        RedisType::bulk_string("replconf"),
        RedisType::bulk_string("listening-port"),
        RedisType::bulk_string("invalid-port"),
    ]);

    let result = RedisCommand::parse(&data);
    assert_eq!(result, None);
}

#[test]
fn test_parse_psync() {
    let data = RedisType::list(vec![
        RedisType::bulk_string("PSYNC"),
        RedisType::bulk_string("?"),
        RedisType::bulk_string("-1"),
    ]);

    let result = RedisCommand::parse(&data);
    assert_eq!(
        result,
        Some(RedisCommand::PSYNC {
            master_id: "?".to_string(),
            master_offset: -1
        })
    );

    let data = RedisType::list(vec![
        RedisType::bulk_string("PSYNC"),
        RedisType::bulk_string("4324fdsgbfdh235"),
    ]);

    let result = RedisCommand::parse(&data);
    assert_eq!(result, None);
}

#[test]
fn ping_is_written_as_a_list_of_one_bulk_string() {
    assert_eq!(
        RedisCommand::PING.write_as_protocol(),
        b"*1\r\n$4\r\nPING\r\n".to_vec()
    );
}

#[test]
fn set_with_ttl_appends_px_and_milliseconds() {
    let set = RedisCommand::SET {
        key: "k".to_string(),
        val: RedisType::bulk_string("v"),
        ttl: Some(100),
    };
    assert_eq!(
        set.write_as_protocol(),
        b"*5\r\n$3\r\nSET\r\n$1\r\nk\r\n$1\r\nv\r\n$2\r\nPX\r\n$3\r\n100\r\n".to_vec()
    );
}

#[test]
fn commands_are_written_name_first_in_capitals() {
    assert_eq!(
        RedisCommand::ECHO("hi".to_string()).write_as_protocol(),
        b"*2\r\n$4\r\nECHO\r\n$2\r\nhi\r\n".to_vec()
    );
    assert_eq!(
        RedisCommand::GET {
            key: "k".to_string()
        }
        .write_as_protocol(),
        b"*2\r\n$3\r\nGET\r\n$1\r\nk\r\n".to_vec()
    );
    assert_eq!(
        RedisCommand::INFO {
            arg: "replication".to_string()
        }
        .write_as_protocol(),
        b"*2\r\n$4\r\nINFO\r\n$11\r\nreplication\r\n".to_vec()
    );
    assert_eq!(
        RedisCommand::REPLCONF {
            arg: ReplConfArgs::Port(6380)
        }
        .write_as_protocol(),
        b"*3\r\n$8\r\nREPLCONF\r\n$14\r\nlistening-port\r\n$4\r\n6380\r\n".to_vec()
    );
    assert_eq!(
        RedisCommand::REPLCONF {
            arg: ReplConfArgs::Capabilities(vec!["eof".to_string(), "psync2".to_string()])
        }
        .write_as_protocol(),
        b"*5\r\n$8\r\nREPLCONF\r\n$4\r\ncapa\r\n$3\r\neof\r\n$4\r\ncapa\r\n$6\r\npsync2\r\n"
            .to_vec()
    );
    assert_eq!(
        RedisCommand::PSYNC {
            master_id: "?".to_string(),
            master_offset: -1
        }
        .write_as_protocol(),
        b"*3\r\n$5\r\nPSYNC\r\n$1\r\n?\r\n$2\r\n-1\r\n".to_vec()
    );
    assert_eq!(
        RedisCommand::SET {
            key: "k".to_string(),
            val: RedisType::simple_string("v"),
            ttl: None
        }
        .write_as_protocol(),
        b"*3\r\n$3\r\nSET\r\n$1\r\nk\r\n+v\r\n".to_vec()
    );
}

#[test]
fn written_commands_read_back() {
    let commands = vec![
        RedisCommand::PING,
        RedisCommand::ECHO("hello".to_string()),
        RedisCommand::SET {
            key: "k".to_string(),
            val: RedisType::bulk_string("v"),
            ttl: Some(1500),
        },
        RedisCommand::SET {
            key: "k".to_string(),
            val: RedisType::bulk_string("v"),
            ttl: None,
        },
        RedisCommand::GET {
            key: "k".to_string(),
        },
        RedisCommand::INFO {
            arg: "replication".to_string(),
        },
        RedisCommand::REPLCONF {
            arg: ReplConfArgs::Port(65535),
        },
        RedisCommand::default_capabilities(),
        RedisCommand::psync_from_scrath(),
    ];
    for command in commands {
        let bytes = command.write_as_protocol();
        let (frame, next) = RedisType::parse(&bytes, 0).unwrap().unwrap();
        assert_eq!(next, bytes.len());
        assert_eq!(frame, command.to_frame());
        assert_eq!(RedisCommand::parse(&frame), Some(command.clone()));
    }
}

#[test]
fn only_set_is_a_write_command() {
    assert!(RedisCommand::SET {
        key: "k".to_string(),
        val: RedisType::NullBulkString,
        ttl: None
    }
    .is_write_command());
    assert!(!RedisCommand::PING.is_write_command());
    assert!(!RedisCommand::ECHO("a".to_string()).is_write_command());
    assert!(!RedisCommand::GET {
        key: "k".to_string()
    }
    .is_write_command());
    assert!(!RedisCommand::INFO {
        arg: "a".to_string()
    }
    .is_write_command());
    assert!(!RedisCommand::default_capabilities().is_write_command());
    assert!(!RedisCommand::psync_from_scrath().is_write_command());
}

#[test]
fn set_flags() {
    let parse = |words: &[&str]| {
        RedisCommand::parse(&RedisType::list(
            words.iter().map(|w| RedisType::bulk_string(w)).collect(),
        ))
    };
    let with_ttl = |ttl: Option<u64>| {
        Some(RedisCommand::SET {
            key: "k".to_string(),
            val: RedisType::bulk_string("v"),
            ttl,
        })
    };
    assert_eq!(parse(&["set", "k", "v", "PX", "10"]), with_ttl(Some(10)));
    assert_eq!(parse(&["set", "k", "v", "pX", "10"]), with_ttl(Some(10)));
    // an unknown flag is passed over by one element
    assert_eq!(parse(&["set", "k", "v", "NX", "px", "7"]), with_ttl(Some(7)));
    assert_eq!(parse(&["set", "k", "v", "EX", "PX"]), with_ttl(None));
    assert_eq!(parse(&["set", "k", "v", "px", "10", "px", "x"]), with_ttl(None));
    assert_eq!(parse(&["set", "k", "v", "px", "-1"]), with_ttl(None));
    assert_eq!(parse(&["set", "k", "v", "px"]), with_ttl(None));
    assert_eq!(parse(&["set", "k"]), None);
    // a flag that is no string
    assert_eq!(
        RedisCommand::parse(&RedisType::list(vec![
            RedisType::bulk_string("SET"),
            RedisType::bulk_string("k"),
            RedisType::bulk_string("v"),
            RedisType::NullBulkString,
        ])),
        None
    );
    assert_eq!(
        RedisCommand::parse(&RedisType::list(vec![
            RedisType::bulk_string("SET"),
            RedisType::bulk_string("k"),
            RedisType::bulk_string("v"),
            RedisType::bulk_string("PX"),
            RedisType::list(vec![]),
        ])),
        None
    );
    // the key must be a string, the value may be any frame
    assert_eq!(
        RedisCommand::parse(&RedisType::list(vec![
            RedisType::bulk_string("SET"),
            RedisType::NullBulkString,
            RedisType::bulk_string("v"),
        ])),
        None
    );
    assert_eq!(
        RedisCommand::parse(&RedisType::list(vec![
            RedisType::bulk_string("SET"),
            RedisType::bulk_string("k"),
            RedisType::NullBulkString,
        ])),
        Some(RedisCommand::SET {
            key: "k".to_string(),
            val: RedisType::NullBulkString,
            ttl: None
        })
    );
}

#[test]
fn argument_rules() {
    let parse = |words: &[&str]| {
        RedisCommand::parse(&RedisType::list(
            words.iter().map(|w| RedisType::bulk_string(w)).collect(),
        ))
    };
    assert_eq!(parse(&["ping", "extra"]), None);
    assert_eq!(parse(&["echo"]), None);
    assert_eq!(parse(&["ping"]), Some(RedisCommand::PING));
    assert_eq!(
        parse(&["replconf", "capa", "eof"]),
        Some(RedisCommand::REPLCONF {
            arg: ReplConfArgs::Capabilities(vec!["eof".to_string()])
        })
    );
    assert_eq!(parse(&["replconf", "CAPA", "psync2"]), None);
    assert_eq!(parse(&["replconf", "listening-port", "65536"]), None);
    assert_eq!(
        parse(&["replconf", "listening-port", "0"]),
        Some(RedisCommand::REPLCONF {
            arg: ReplConfArgs::Port(0)
        })
    );
    assert_eq!(parse(&["psync", "?", "-1", "x"]), None);
    assert_eq!(parse(&["psync", "?", "one"]), None);
    assert_eq!(
        parse(&["PsYnC", "id", "12"]),
        Some(RedisCommand::PSYNC {
            master_id: "id".to_string(),
            master_offset: 12
        })
    );
    // a list of one element is read as that element
    assert_eq!(
        RedisCommand::parse(&RedisType::list(vec![RedisType::list(vec![
            RedisType::simple_string("pInG")
        ])])),
        Some(RedisCommand::PING)
    );
    assert_eq!(RedisCommand::parse(&RedisType::NullBulkString), None);
    assert_eq!(
        RedisCommand::parse(&RedisType::simple_error("ping")),
        None
    );
    assert_eq!(
        RedisCommand::parse(&RedisType::list(vec![
            RedisType::NullBulkString,
            RedisType::bulk_string("a")
        ])),
        None
    );
}
