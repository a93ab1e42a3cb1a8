//! Configuration model.
//!
//! The process around the library reads files and command lines; the core
//! takes what they supply as plain values, lays them over the defaults,
//! and validates what it understands — the log-level names.  No ambient
//! global: the resolved configuration is an explicit value, constructed
//! once at startup and handed to the components that need it.

use vstd::prelude::*;
use vstd::string::StrSliceExecFns;
use vstd::string::StringExecFns;

use crate::error::RatError;

verus! {

/// Severity threshold for a log sink.
#[derive(Clone, Copy, Debug, PartialEq, Eq, Structural)]
pub enum LogLevel {
    Error,
    Warn,
    Info,
    Debug,
    Trace,
}

/// One character matched against a lowercase pattern character, ignoring
/// ASCII case.
pub open spec fn ci_eq_char(c: char, p: char) -> bool {
    c == p || (97 <= p as u32 && p as u32 <= 122 && c as u32 + 32 == p as u32)
}

/// Equality with a lowercase pattern, ignoring ASCII case.
pub open spec fn ci_matches(s: Seq<char>, pat: Seq<char>) -> bool {
    s.len() == pat.len() && forall|i: int| 0 <= i < s.len() ==> ci_eq_char(s[i], pat[i])
}

/// The log level a configuration value names, whatever its case.
pub open spec fn log_level_of(s: Seq<char>) -> Option<LogLevel> {
    if ci_matches(s, "error"@) {
        Some(LogLevel::Error)
    } else if ci_matches(s, "warn"@) {
        Some(LogLevel::Warn)
    } else if ci_matches(s, "info"@) {
        Some(LogLevel::Info)
    } else if ci_matches(s, "debug"@) {
        Some(LogLevel::Debug)
    } else if ci_matches(s, "trace"@) {
        Some(LogLevel::Trace)
    } else {
        None
    }
}

/// True when `s` equals the lowercase pattern up to ASCII case.
fn ci_str_matches(s: &str, pat: &str) -> (r: bool)
    ensures
        r == ci_matches(s@, pat@),
{
    let n = s.unicode_len();
    if n != pat.unicode_len() {
        return false;
    }
    let mut i: usize = 0;
    while i < n
        invariant
            0 <= i <= n,
            n == s@.len(),
            n == pat@.len(),
            forall|j: int| 0 <= j < i ==> ci_eq_char(s@[j], pat@[j]),
        decreases n - i,
    {
        let c = s.get_char(i);
        let p = pat.get_char(i);
        let cu = c as u32;
        let pu = p as u32;
        if !(c == p || (97 <= pu && pu <= 122 && cu == pu - 32)) {
            assert(!ci_eq_char(s@[i as int], pat@[i as int]));
            return false;
        }
        i += 1;
    }
    true
}

/// Reads a log-level name, ignoring ASCII case; any other value is unknown.
pub fn parse_log_level(s: &str) -> (r: Option<LogLevel>)
    ensures
        r == log_level_of(s@),
{
    if ci_str_matches(s, "error") {
        Some(LogLevel::Error)
    } else if ci_str_matches(s, "warn") {
        Some(LogLevel::Warn)
    } else if ci_str_matches(s, "info") {
        Some(LogLevel::Info)
    } else if ci_str_matches(s, "debug") {
        Some(LogLevel::Debug)
    } else if ci_str_matches(s, "trace") {
        Some(LogLevel::Trace)
    } else {
        None
    }
}

/// The client's resolved startup values.
pub struct ClientConfig {
    /// Severity shown on the terminal.
    pub log_level_stderr: LogLevel,
    /// Severity written to the log file.
    pub log_level_file: LogLevel,
    /// The server to connect to; startup fails while this is missing,
    /// since no default can name it.
    pub dst_ip: Option<String>,
    /// The server's port.
    pub dst_port: u16,
    /// The display name announced in the handshake.
    pub name: String,
}

/// Values a configuration file or the command line may supply for the
/// client; a `None` leaves the setting as it stands.
pub struct ClientOverrides {
    pub log_level_stderr: Option<String>,
    pub log_level_file: Option<String>,
    pub dst_ip: Option<String>,
    pub dst_port: Option<u16>,
    pub name: Option<String>,
}

/// The client defaults, laid down before any file or argument applies.
pub fn client_config_defaults() -> (c: ClientConfig)
    ensures
        c.log_level_stderr == LogLevel::Error,
        c.log_level_file == LogLevel::Debug,
        c.dst_ip is None,
        c.dst_port == 18888,
        c.name@ == "anonymous"@,
{
    ClientConfig {
        log_level_stderr: LogLevel::Error,
        log_level_file: LogLevel::Debug,
        dst_ip: None,
        dst_port: 18888,
        name: String::from_str("anonymous"),
    }
}

/// An optional string's characters, when it is there.
pub open spec fn opt_text(o: Option<String>) -> Option<Seq<char>> {
    match o {
        Some(s) => Some(s@),
        None => None,
    }
}

/// Lays one layer of client overrides over a configuration.  An unknown
/// log-level name is refused whole: the configuration is left untouched
/// and the first rejected value is reported.
pub fn apply_client_overrides(c: &mut ClientConfig, o: &ClientOverrides) -> (r: Result<
    (),
    RatError,
>)
    ensures
        r is Ok <==> ((o.log_level_stderr matches Some(s) ==> log_level_of(s@) is Some) && (
        o.log_level_file matches Some(s) ==> log_level_of(s@) is Some)),
        r is Ok ==> final(c).log_level_stderr == (match o.log_level_stderr {
            Some(s) => log_level_of(s@).unwrap(),
            None => old(c).log_level_stderr,
        }),
        r is Ok ==> final(c).log_level_file == (match o.log_level_file {
            Some(s) => log_level_of(s@).unwrap(),
            None => old(c).log_level_file,
        }),
        r is Ok ==> opt_text(final(c).dst_ip) == (match o.dst_ip {
            Some(s) => Some(s@),
            None => opt_text(old(c).dst_ip),
        }),
        r is Ok ==> final(c).dst_port == (match o.dst_port {
            Some(p) => p,
            None => old(c).dst_port,
        }),
        r is Ok ==> final(c).name@ == (match o.name {
            Some(s) => s@,
            None => old(c).name@,
        }),
        r matches Err(e) ==> *final(c) == *old(c) && (e matches RatError::UnknownOption(m) && m@
            == (if (o.log_level_stderr matches Some(s) && log_level_of(s@) is None) {
            o.log_level_stderr.unwrap()@
        } else {
            o.log_level_file.unwrap()@
        })),
{
    let stderr_level: Option<LogLevel> = match &o.log_level_stderr {
        Some(s) => match parse_log_level(s.as_str()) {
            Some(l) => Some(l),
            None => {
                return Err(RatError::UnknownOption(s.clone()));
            },
        },
        None => None,
    };
    let file_level: Option<LogLevel> = match &o.log_level_file {
        Some(s) => match parse_log_level(s.as_str()) {
            Some(l) => Some(l),
            None => {
                return Err(RatError::UnknownOption(s.clone()));
            },
        },
        None => None,
    };
    if let Some(l) = stderr_level {
        c.log_level_stderr = l;
    }
    if let Some(l) = file_level {
        c.log_level_file = l;
    }
    if let Some(ip) = &o.dst_ip {
        c.dst_ip = Some(ip.clone());
    }
    if let Some(p) = &o.dst_port {
        c.dst_port = *p;
    }
    if let Some(n) = &o.name {
        c.name = n.clone();
    }
    Ok(())
}

/// The server's resolved startup values.
pub struct ServerConfig {
    /// Severity shown on the terminal.
    pub log_level_stderr: LogLevel,
    /// Severity written to the log file.
    pub log_level_file: LogLevel,
    /// The address to bind.
    pub src_ip: String,
    /// The port to bind.
    pub src_port: u16,
}

/// Values a configuration file or the command line may supply for the
/// server; a `None` leaves the setting as it stands.
pub struct ServerOverrides {
    pub log_level_stderr: Option<String>,
    pub log_level_file: Option<String>,
    pub src_ip: Option<String>,
    pub src_port: Option<u16>,
}

/// The server defaults, laid down before any file or argument applies.
pub fn server_config_defaults() -> (c: ServerConfig)
    ensures
        c.log_level_stderr == LogLevel::Info,
        c.log_level_file == LogLevel::Debug,
        c.src_ip@ == "0.0.0.0"@,
        c.src_port == 18888,
{
    ServerConfig {
        log_level_stderr: LogLevel::Info,
        log_level_file: LogLevel::Debug,
        src_ip: String::from_str("0.0.0.0"),
        src_port: 18888,
    }
}

/// Lays one layer of server overrides over a configuration, as the client
/// variant does.
pub fn apply_server_overrides(c: &mut ServerConfig, o: &ServerOverrides) -> (r: Result<
    (),
    RatError,
>)
    ensures
        r is Ok <==> ((o.log_level_stderr matches Some(s) ==> log_level_of(s@) is Some) && (
        o.log_level_file matches Some(s) ==> log_level_of(s@) is Some)),
        r is Ok ==> final(c).log_level_stderr == (match o.log_level_stderr {
            Some(s) => log_level_of(s@).unwrap(),
            None => old(c).log_level_stderr,
        }),
        r is Ok ==> final(c).log_level_file == (match o.log_level_file {
            Some(s) => log_level_of(s@).unwrap(),
            None => old(c).log_level_file,
        }),
        r is Ok ==> final(c).src_ip@ == (match o.src_ip {
            Some(s) => s@,
            None => old(c).src_ip@,
        }),
        r is Ok ==> final(c).src_port == (match o.src_port {
            Some(p) => p,
            None => old(c).src_port,
        }),
        r matches Err(e) ==> *final(c) == *old(c) && (e matches RatError::UnknownOption(m) && m@
            == (if (o.log_level_stderr matches Some(s) && log_level_of(s@) is None) {
            o.log_level_stderr.unwrap()@
        } else {
            o.log_level_file.unwrap()@
        })),
{
    let stderr_level: Option<LogLevel> = match &o.log_level_stderr {
        Some(s) => match parse_log_level(s.as_str()) {
            Some(l) => Some(l),
            None => {
                return Err(RatError::UnknownOption(s.clone()));
            },
        },
        None => None,
    };
    let file_level: Option<LogLevel> = match &o.log_level_file {
        Some(s) => match parse_log_level(s.as_str()) {
            Some(l) => Some(l),
            None => {
                return Err(RatError::UnknownOption(s.clone()));
            },
        },
        None => None,
    };
    if let Some(l) = stderr_level {
        c.log_level_stderr = l;
    }
    if let Some(l) = file_level {
        c.log_level_file = l;
    }
    if let Some(ip) = &o.src_ip {
        c.src_ip = ip.clone();
    }
    if let Some(p) = &o.src_port {
        c.src_port = *p;
    }
    Ok(())
}

/// Relies on `directories::ProjectDirs`: the platform's configuration
/// directory for this application, when the platform names one for the
/// current user.  The answer depends on the environment, so nothing more
/// is stated of it.
#[verifier::external_body]
fn project_config_dir() -> (r: Option<String>) {
    directories::ProjectDirs::from("isikkema", "isikkema", "Rat").and_then(
        |d| d.config_dir().to_str().map(|s| s.to_string()),
    )
}

/// `filename` placed inside the directory `dir`.
fn path_in_dir(dir: String, filename: &str) -> (r: String)
    ensures
        r@ == dir@ + "/"@ + filename@,
{
    let mut s = dir;
    s.append("/");
    s.append(filename);
    s
}

/// Where the client writes its log: `Client.log` in the platform's
/// configuration directory.  Fails exactly when the platform names none.
pub fn get_client_log_filename() -> (r: Result<String, RatError>)
    ensures
        r matches Ok(s) ==> exists|d: Seq<char>| s@ == d + "/"@ + "Client.log"@,
        r matches Err(e) ==> e is ConfigDir,
{
    match project_config_dir() {
        None => Err(RatError::ConfigDir),
        Some(dir) => {
            let ghost d = dir@;
            let p = path_in_dir(dir, "Client.log");
            proof {
                assert(p@ == d + "/"@ + "Client.log"@);
            }
            Ok(p)
        },
    }
}

/// Where the client's configuration file lives: `ClientConfig.toml` in the
/// platform's configuration directory.
pub fn get_client_config_filename() -> (r: Result<String, RatError>)
    ensures
        r matches Ok(s) ==> exists|d: Seq<char>| s@ == d + "/"@ + "ClientConfig.toml"@,
        r matches Err(e) ==> e is ConfigDir,
{
    match project_config_dir() {
        None => Err(RatError::ConfigDir),
        Some(dir) => {
            let ghost d = dir@;
            let p = path_in_dir(dir, "ClientConfig.toml");
            proof {
                assert(p@ == d + "/"@ + "ClientConfig.toml"@);
            }
            Ok(p)
        },
    }
}

/// Where the server writes its log: `Server.log` in the platform's
/// configuration directory.
pub fn get_server_log_filename() -> (r: Result<String, RatError>)
    ensures
        r matches Ok(s) ==> exists|d: Seq<char>| s@ == d + "/"@ + "Server.log"@,
        r matches Err(e) ==> e is ConfigDir,
{
    match project_config_dir() {
        None => Err(RatError::ConfigDir),
        Some(dir) => {
            let ghost d = dir@;
            let p = path_in_dir(dir, "Server.log");
            proof {
                assert(p@ == d + "/"@ + "Server.log"@);
            }
            Ok(p)
        },
    }
}

/// Where the server's configuration file lives: `ServerConfig.toml` in the
/// platform's configuration directory.
pub fn get_server_config_filename() -> (r: Result<String, RatError>)
    ensures
        r matches Ok(s) ==> exists|d: Seq<char>| s@ == d + "/"@ + "ServerConfig.toml"@,
        r matches Err(e) ==> e is ConfigDir,
{
    match project_config_dir() {
        None => Err(RatError::ConfigDir),
        Some(dir) => {
            let ghost d = dir@;
            let p = path_in_dir(dir, "ServerConfig.toml");
            proof {
                assert(p@ == d + "/"@ + "ServerConfig.toml"@);
            }
            Ok(p)
        },
    }
}

} // verus!
