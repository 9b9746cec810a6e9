//! The server's configuration, and how it is read from the command line.

use crate::decimal::parse_unsigned;
use crate::redis_command::text_unsigned;
use crate::text::{push_char, str_eq};
use vstd::prelude::*;
use vstd::string::{StrSliceExecFns, StringExecFns};

verus! {

/// The mathematical model of a configuration.
pub struct Config {
    /// The port to listen on.
    pub port: u16,
    /// The primary to follow, as `host:port`; `None` for a primary.
    pub replica_addr: Option<Seq<char>>,
}

/// The server's configuration.
#[derive(Debug, PartialEq, Eq)]
pub struct ServerConfig {
    /// The port to listen on.
    pub port: u16,
    /// The primary to follow, as `host:port`; `None` for a primary.
    pub replica_addr: Option<String>,
}

/// Why the command line gave no configuration.
#[derive(Debug, PartialEq, Eq)]
pub enum ConfigError {
    /// `--port` stands last, with no value behind it.
    MissingPort,
    /// The value of `--port` is no port number.
    InvalidPort { value: String },
    /// `--replicaof` stands last, with no value behind it.
    MissingAddress,
}

/// The mathematical model of `ConfigError`.
pub enum ConfigFault {
    MissingPort,
    InvalidPort { value: Seq<char> },
    MissingAddress,
}

impl View for ServerConfig {
    type V = Config;

    open spec fn view(&self) -> Config {
        Config {
            port: self.port,
            replica_addr: match self.replica_addr {
                Some(addr) => Some(addr@),
                None => None,
            },
        }
    }
}

impl View for ConfigError {
    type V = ConfigFault;

    open spec fn view(&self) -> ConfigFault {
        match self {
            ConfigError::MissingPort => ConfigFault::MissingPort,
            ConfigError::InvalidPort { value } => ConfigFault::InvalidPort { value: value@ },
            ConfigError::MissingAddress => ConfigFault::MissingAddress,
        }
    }
}

/// The configuration of a primary on the default port.
pub open spec fn default_config() -> Config {
    Config { port: 6379, replica_addr: None }
}

/// `text` with a colon in place of every space.
pub open spec fn spaces_to_colons(text: Seq<char>) -> Seq<char> {
    Seq::new(
        text.len(),
        |i: int|
            if text[i] == ' ' {
                ':'
            } else {
                text[i]
            },
    )
}

/// What the arguments from `args[i]` on make of `config`.
///
/// `--port` takes the argument behind it as the port, `--replicaof` takes the
/// argument behind it as the primary's host and port; a later flag overrides
/// an earlier one, and any other argument is passed over.
pub open spec fn spec_parse_args(args: Seq<Seq<char>>, i: int, config: Config) -> Result<
    Config,
    ConfigFault,
>
    decreases args.len() - i,
{
    if i < 0 || i >= args.len() {
        Ok(config)
    } else if args[i] == "--port"@ {
        if i + 1 < args.len() {
            match text_unsigned(args[i + 1], u16::MAX as int) {
                Some(port) => spec_parse_args(
                    args,
                    i + 2,
                    Config { port: port as u16, replica_addr: config.replica_addr },
                ),
                None => Err(ConfigFault::InvalidPort { value: args[i + 1] }),
            }
        } else {
            Err(ConfigFault::MissingPort)
        }
    } else if args[i] == "--replicaof"@ {
        if i + 1 < args.len() {
            spec_parse_args(
                args,
                i + 2,
                Config { port: config.port, replica_addr: Some(spaces_to_colons(args[i + 1])) },
            )
        } else {
            Err(ConfigFault::MissingAddress)
        }
    } else {
        spec_parse_args(args, i + 1, config)
    }
}

/// The texts of `args`, in order.
pub open spec fn arg_texts(args: Seq<String>) -> Seq<Seq<char>> {
    Seq::new(args.len(), |i: int| args[i]@)
}

/// Whether `got` is what `want` describes.
pub open spec fn same_config(got: Result<ServerConfig, ConfigError>, want: Result<
    Config,
    ConfigFault,
>) -> bool {
    match got {
        Ok(config) => want == Ok::<Config, ConfigFault>(config@),
        Err(e) => want == Err::<Config, ConfigFault>(e@),
    }
}

/// `text` with a colon in place of every space.
fn with_colons(text: &str) -> (r: String)
    ensures
        r@ == spaces_to_colons(text@),
{
    let n: usize = text.unicode_len();
    let mut out = String::new();
    let mut i: usize = 0;
    while i < n
        invariant
            i <= n,
            n == text@.len(),
            out@ == spaces_to_colons(text@).subrange(0, i as int),
        decreases n - i,
    {
        let c: char = text.get_char(i);
        let d: char = if c == ' ' {
            ':'
        } else {
            c
        };
        push_char(&mut out, d);
        proof {
            assert(out@ =~= spaces_to_colons(text@).subrange(0, i + 1));
        }
        i = i + 1;
    }
    proof {
        assert(out@ =~= spaces_to_colons(text@));
    }
    out
}

impl Default for ServerConfig {
    /// A primary on port 6379.
    fn default() -> (r: Self)
        ensures
            r@ == default_config(),
    {
        ServerConfig { port: 6379, replica_addr: None }
    }
}

impl ServerConfig {
    /// Reads the configuration from the command line.
    ///
    /// `--port` and a number set the port; `--replicaof` and `"<host> <port>"`
    /// name the primary to follow, kept as `host:port`. Other arguments are
    /// passed over. Fails where a flag stands last or the port is no number
    /// that fits 16 bits.
    pub fn parse_command_line_args(args: &[String]) -> (r: Result<ServerConfig, ConfigError>)
        ensures
            same_config(r, spec_parse_args(arg_texts(args@), 0, default_config())),
    {
        let n: usize = args.len();
        let ghost texts = arg_texts(args@);
        let mut config = ServerConfig { port: 6379, replica_addr: None };
        let mut i: usize = 0;
        while i < n
            invariant
                i <= n,
                n == args@.len(),
                texts == arg_texts(args@),
                spec_parse_args(texts, 0, default_config()) == spec_parse_args(
                    texts,
                    i as int,
                    config@,
                ),
            decreases n - i,
        {
            let arg: &str = args[i].as_str();
            if str_eq(arg, "--port") {
                if i + 1 < n {
                    let value: &str = args[i + 1].as_str();
                    let port: u16 = match parse_unsigned(value.as_bytes()) {
                        Some(port) => {
                            if port <= 0xffff {
                                port as u16
                            } else {
                                return Err(ConfigError::InvalidPort { value: value.to_owned() });
                            }
                        },
                        None => {
                            return Err(ConfigError::InvalidPort { value: value.to_owned() });
                        },
                    };
                    config.port = port;
                    i = i + 2;
                } else {
                    return Err(ConfigError::MissingPort);
                }
            } else if str_eq(arg, "--replicaof") {
                if i + 1 < n {
                    config.replica_addr = Some(with_colons(args[i + 1].as_str()));
                    i = i + 2;
                } else {
                    return Err(ConfigError::MissingAddress);
                }
            } else {
                i = i + 1;
            }
        }
        Ok(config)
    }
}

impl ConfigError {
    /// The message that reports this error.
    pub open spec fn spec_message(&self) -> Seq<char> {
        match self {
            ConfigError::MissingPort => "Please provide a port value"@,
            ConfigError::InvalidPort { value } => "Invalid port number provided: "@ + value@,
            ConfigError::MissingAddress => "Please provide a master address"@,
        }
    }

    /// The message that reports this error.
    pub fn message(&self) -> (r: String)
        ensures
            r@ == self.spec_message(),
    {
        match self {
            ConfigError::MissingPort => "Please provide a port value".to_owned(),
            ConfigError::InvalidPort { value } => {
                "Invalid port number provided: ".to_owned().concat(value.as_str())
            },
            ConfigError::MissingAddress => "Please provide a master address".to_owned(),
        }
    }
}

} // verus!
