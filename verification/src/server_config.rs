use vstd::prelude::*;

verus! {

/// The server's command line.
#[derive(Clone, Debug)]
pub struct Args {
    pub config: String,
    pub no_config: bool,
    pub listening_on: Option<String>,
    pub proxy_into: Option<String>,
    pub max_connections: Option<usize>,
}

/// The server's settings; in a file each of them may be left out.
#[derive(Clone, Debug)]
pub struct CommonConfig {
    pub listening_on: Option<String>,
    pub proxy_into: Option<String>,
    pub max_connections: Option<usize>,
}

/// The server's whole configuration.
#[derive(Clone, Debug)]
pub struct AppConfig {
    pub common: CommonConfig,
}

/// A setting that neither the command line nor the file gives.
#[derive(Clone, Copy, Debug, PartialEq, Eq, Structural)]
pub enum ConfigError {
    MissingProxyInto,
    MissingMaxConnections,
}

impl Default for AppConfig {
    fn default() -> (res: Self)
        ensures
            res.common.listening_on is None,
            res.common.proxy_into is None,
            res.common.max_connections is None,
    {
        AppConfig { common: CommonConfig { listening_on: None, proxy_into: None, max_connections: None } }
    }
}

/// The address the server listens on when nothing else is given.
pub open spec fn default_listen_address() -> Seq<char> {
    seq!['0', '.', '0', '.', '0', '.', '0', ':', '5', '6', '0', '0', '0']
}

/// The command line's value where it gives one, else the loaded file's.
pub open spec fn first_given<T>(arg: Option<T>, loaded: Option<AppConfig>, from_file: spec_fn(CommonConfig) -> Option<T>) -> Option<T> {
    match arg {
        Some(a) => Some(a),
        None => match loaded {
            Some(f) => from_file(f.common),
            None => None,
        },
    }
}

/// The proxy target: the command line's, else the file's.
pub open spec fn chosen_proxy_into(loaded: Option<AppConfig>, args: Args) -> Option<String> {
    first_given(args.proxy_into, loaded, |c: CommonConfig| c.proxy_into)
}

/// The connection limit: the command line's, else the file's.
pub open spec fn chosen_max_connections(loaded: Option<AppConfig>, args: Args) -> Option<usize> {
    first_given(args.max_connections, loaded, |c: CommonConfig| c.max_connections)
}

/// The listening address: the command line's, else the file's.
pub open spec fn chosen_listening_on(loaded: Option<AppConfig>, args: Args) -> Option<String> {
    first_given(args.listening_on, loaded, |c: CommonConfig| c.listening_on)
}

/// Each setting the command line gives wins over the file; the file's is
/// used only where the command line gives none.
pub proof fn server_command_line_wins(loaded: Option<AppConfig>, args: Args)
    ensures
        args.proxy_into matches Some(p) ==> chosen_proxy_into(loaded, args) == Some(p),
        args.max_connections matches Some(m) ==> chosen_max_connections(loaded, args) == Some(m),
        args.listening_on matches Some(l) ==> chosen_listening_on(loaded, args) == Some(l),
        args.proxy_into is None ==> chosen_proxy_into(loaded, args) == match loaded {
            Some(f) => f.common.proxy_into,
            None => None,
        },
        args.max_connections is None ==> chosen_max_connections(loaded, args) == match loaded {
            Some(f) => f.common.max_connections,
            None => None,
        },
        args.listening_on is None ==> chosen_listening_on(loaded, args) == match loaded {
            Some(f) => f.common.listening_on,
            None => None,
        },
{
}

/// The fallback listening address is `0.0.0.0:56000`.
pub proof fn default_listen_address_text()
    ensures
        default_listen_address() == "0.0.0.0:56000"@,
{
    reveal_strlit("0.0.0.0:56000");
    assert(default_listen_address() =~= "0.0.0.0:56000"@);
}

/// Puts the server's configuration together. `loaded` is the configuration
/// file's content, `None` where the command line says there is no file. Each
/// setting comes from the command line where it gives one, else from the file;
/// the listening address falls back to `0.0.0.0:56000`; the proxy target and
/// the connection limit must come from one of the two.
pub fn init_config(loaded: Option<AppConfig>, args: Args) -> (res: Result<AppConfig, ConfigError>)
    ensures
        chosen_proxy_into(loaded, args) is None ==> res == Err::<AppConfig, ConfigError>(
            ConfigError::MissingProxyInto,
        ),
        chosen_proxy_into(loaded, args) is Some && chosen_max_connections(loaded, args) is None
            ==> res == Err::<AppConfig, ConfigError>(ConfigError::MissingMaxConnections),
        chosen_proxy_into(loaded, args) is Some && chosen_max_connections(loaded, args) is Some
            ==> (res matches Ok(c) && {
            &&& c.common.listening_on matches Some(l) && l@ == match chosen_listening_on(loaded, args) {
                Some(given) => given@,
                None => default_listen_address(),
            }
            &&& c.common.proxy_into == chosen_proxy_into(loaded, args)
            &&& c.common.max_connections == chosen_max_connections(loaded, args)
        }),
{
    let file = match loaded {
        Some(f) => f,
        None => AppConfig::default(),
    };
    let CommonConfig { listening_on: file_listen, proxy_into: file_proxy, max_connections: file_max } = file.common;
    let Args { config: _, no_config: _, listening_on, proxy_into, max_connections } = args;
    let final_listen = match listening_on {
        Some(l) => l,
        None => match file_listen {
            Some(l) => l,
            None => {
                let l = String::from_str("0.0.0.0:56000");
                proof {
                    reveal_strlit("0.0.0.0:56000");
                }
                l
            },
        },
    };
    let final_proxy = match proxy_into {
        Some(p) => p,
        None => match file_proxy {
            Some(p) => p,
            None => {
                return Err(ConfigError::MissingProxyInto);
            },
        },
    };
    let max_conn = match max_connections {
        Some(m) => m,
        None => match file_max {
            Some(m) => m,
            None => {
                return Err(ConfigError::MissingMaxConnections);
            },
        },
    };
    Ok(AppConfig {
        common: CommonConfig {
            listening_on: Some(final_listen),
            proxy_into: Some(final_proxy),
            max_connections: Some(max_conn),
        },
    })
}

/// The number of connections the server serves at once when the
/// configuration sets no limit.
pub open spec fn default_connection_limit() -> usize {
    2000
}

/// Without a configured limit the server serves 2000 connections at once.
pub proof fn default_limit_is_two_thousand()
    ensures
        default_connection_limit() == 2000,
{
}

/// How many connections the server serves at once.
pub fn connection_limit(config: &AppConfig) -> (limit: usize)
    ensures
        limit == match config.common.max_connections {
            Some(m) => m,
            None => default_connection_limit(),
        },
{
    match config.common.max_connections {
        Some(m) => m,
        None => 2000,
    }
}

} // verus!
