use redis_starter_rust::server_config::{ConfigError, ServerConfig};

#[test]
fn test_parse_with_default_port() {
    let args = vec![];
    let config = ServerConfig::parse_command_line_args(&args).unwrap();
    assert_eq!(
        config,
        ServerConfig {
            port: 6379,
            replica_addr: None
        }
    );
}

#[test]
fn test_parse_custom_port() {
    let args = vec!["--port".to_string(), "8080".to_string()];
    let config = ServerConfig::parse_command_line_args(&args).unwrap();
    assert_eq!(
        config,
        ServerConfig {
            port: 8080,
            replica_addr: None
        }
    );
}

#[test]
#[should_panic(expected = "Invalid port number provided: invalid_port")]
fn test_parse_invalid_port() {
    let args = vec!["--port".to_string(), "invalid_port".to_string()];
    let _config = match ServerConfig::parse_command_line_args(&args) {
        Ok(config) => config,
        Err(e) => panic!("{}", e.message()),
    };
}

#[test]
fn test_parse_replica_of() {
    let args = vec!["--replicaof".to_string(), "192.168.1.2 6000".to_string()];
    let config = ServerConfig::parse_command_line_args(&args).unwrap();
    let expected_addr = "192.168.1.2:6000".to_string();
    assert_eq!(
        config,
        ServerConfig {
            port: 6379,
            replica_addr: Some(expected_addr)
        }
    );
}

#[test]
fn test_parse_replica_and_port() {
    let args = vec![
        "--replicaof".to_string(),
        "localhost 6379".to_string(),
        "--port".to_string(),
        "8333".to_string(),
    ];
    let config = ServerConfig::parse_command_line_args(&args).unwrap();
    let expected_addr = "localhost:6379".to_string();
    assert_eq!(
        config,
        ServerConfig {
            port: 8333,
            replica_addr: Some(expected_addr)
        }
    );
}

#[test]
fn default_is_a_primary_on_6379() {
    assert_eq!(
        ServerConfig::default(),
        ServerConfig {
            port: 6379,
            replica_addr: None
        }
    );
}

#[test]
fn config_errors() {
    assert_eq!(
        ServerConfig::parse_command_line_args(&["--port".to_string()]),
        Err(ConfigError::MissingPort)
    );
    assert_eq!(
        ServerConfig::parse_command_line_args(&["--replicaof".to_string()]),
        Err(ConfigError::MissingAddress)
    );
    assert_eq!(
        ServerConfig::parse_command_line_args(&["--port".to_string(), "65536".to_string()]),
        Err(ConfigError::InvalidPort {
            value: "65536".to_string()
        })
    );
    assert_eq!(
        ConfigError::MissingPort.message(),
        "Please provide a port value"
    );
    assert_eq!(
        ConfigError::MissingAddress.message(),
        "Please provide a master address"
    );
}

#[test]
fn later_flags_override_and_other_arguments_are_passed_over() {
    let args = vec![
        "server".to_string(),
        "--port".to_string(),
        "1".to_string(),
        "--verbose".to_string(),
        "--port".to_string(),
        "65535".to_string(),
    ];
    assert_eq!(
        ServerConfig::parse_command_line_args(&args),
        Ok(ServerConfig {
            port: 65535,
            replica_addr: None
        })
    );
}
