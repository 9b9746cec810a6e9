use redis_starter_rust::rdb_file;
use redis_starter_rust::redis_command::RedisCommand;
use redis_starter_rust::redis_runtime::RedisRuntime;
use redis_starter_rust::redis_type::RedisType;
use redis_starter_rust::RedisWritable;

/// A stream that hands what is written to it to a server, and gives back
/// what the server replied.
struct MockStream {
    read_data: Vec<u8>,
    write_data: Vec<u8>,
    runtime: RedisRuntime,
}

impl MockStream {
    fn new() -> Self {
        Self {
            read_data: Vec::new(),
            write_data: Vec::new(),
            runtime: RedisRuntime::default(),
        }
    }

    fn write_all(&mut self, buf: &[u8]) {
        self.write_data.extend_from_slice(buf);
        let (argument, _) = RedisType::parse(buf, 0).unwrap().unwrap();
        let command = RedisCommand::parse(&argument).unwrap();
        let response = self.runtime.execute_no_conn(&command, 0);
        self.read_data.extend_from_slice(&response.write_as_protocol());
    }

    fn send_command(&mut self, command: &RedisCommand) -> Result<RedisType, String> {
        self.write_all(&command.write_as_protocol());
        match RedisType::parse(&self.read_data, 0) {
            Ok(Some((response, next))) => {
                self.read_data.drain(..next);
                Ok(response)
            }
            Ok(None) => Err("Server did not respond".to_string()),
            Err(e) => Err(e.message()),
        }
    }

    fn accept_rdb_file(&mut self) -> Result<RedisType, String> {
        match RedisType::read_snapshot_blob(&self.read_data, 0) {
            Ok(Some((response, next))) => {
                self.read_data.drain(..next);
                Ok(response)
            }
            Ok(None) => Err("Server did not provide aditional information".to_string()),
            Err(e) => Err(e.message()),
        }
    }
}

#[test]
fn test_send_command_with_mock_stream() {
    let mut expected_write = Vec::new();
    let mut client = MockStream::new();

    let command = RedisCommand::PING;
    expected_write.extend_from_slice(&command.write_as_protocol());
    let result = client.send_command(&command);

    // PONG simple string was recieved by the client from the stream in RESP
    assert!(result.is_ok());
    assert_eq!(result.unwrap(), RedisType::simple_string("PONG"));

    let command = RedisCommand::ECHO("Hello mock".to_string());
    expected_write.extend_from_slice(&command.write_as_protocol());
    let result = client.send_command(&command);

    // Ping and ECHO commands were written to the stream in RESP protocol
    assert_eq!(client.write_data, expected_write);

    // Hello mock bulk string was recieved by the client from the stream in RESP
    assert!(result.is_ok());
    assert_eq!(result.unwrap(), RedisType::bulk_string("Hello mock"));
}

#[test]
fn test_multiple_response() {
    let mut client = MockStream::new();

    let command = RedisCommand::psync_from_scrath();
    let result = client.send_command(&command);

    assert!(matches!(result, Ok(RedisType::SimpleString { .. })));
    let next_result = client.accept_rdb_file();
    assert!(matches!(next_result, Ok(_)));
    assert_eq!(
        next_result.unwrap(),
        RedisType::RDBFile {
            file: rdb_file::get_empty_rdb_decoded().unwrap()
        }
    );

    assert_eq!(client.write_data, command.write_as_protocol());
}
