//! The command line: its options and the settings they resolve to.
use vstd::prelude::*;
use std::path::PathBuf;

verus! {

/// A path given on the command line.
#[verifier::external_type_specification]
#[verifier::external_body]
pub struct ExPathBuf(PathBuf);

/// How much the program logs.
#[derive(Debug, Clone, Copy, PartialEq, Eq, Structural)]
pub enum LogLevel {
    Error,
    Warn,
    Info,
    Debug,
    Trace,
}

/// The lowercase name of a log level.
pub open spec fn log_level_name(level: LogLevel) -> Seq<char> {
    match level {
        LogLevel::Error => "error"@,
        LogLevel::Warn => "warn"@,
        LogLevel::Info => "info"@,
        LogLevel::Debug => "debug"@,
        LogLevel::Trace => "trace"@,
    }
}

impl LogLevel {
    /// The lowercase name of the level, as the logger takes it.
    pub fn to_string(&self) -> (name: String)
        ensures
            name@ == log_level_name(*self),
    {
        match self {
            LogLevel::Error => "error".to_owned(),
            LogLevel::Warn => "warn".to_owned(),
            LogLevel::Info => "info".to_owned(),
            LogLevel::Debug => "debug".to_owned(),
            LogLevel::Trace => "trace".to_owned(),
        }
    }
}

/// The whole command line.
#[derive(Debug)]
pub struct Cli {
    pub command: Commands,
    pub log_level: LogLevel,
    pub config: Option<PathBuf>,
}

/// What to run.
#[derive(Debug)]
pub enum Commands {
    Server(ServerCommand),
    Worker(WorkerCommand),
}

/// The options of the server command.
#[derive(Debug)]
pub struct ServerCommand {
    pub address: Option<String>,
    pub port: Option<u16>,
    pub width: Option<u32>,
    pub height: Option<u32>,
    pub tiles: Option<u32>,
    pub dashboard: Option<bool>,
    pub security_mode: Option<bool>,
    pub graphics: Option<bool>,
    pub portal: Option<bool>,
}

/// The options of the worker command.
#[derive(Debug)]
pub struct WorkerCommand {
    pub name: Option<String>,
    pub address: Option<String>,
    pub port: Option<u16>,
    pub count: Option<u32>,
    pub maximal_work_load: Option<u32>,
}

/// The settings a server runs with.
#[derive(Debug)]
pub struct ServerSettings {
    pub address: String,
    pub port: u16,
    pub width: u32,
    pub height: u32,
    pub tiles: u32,
    pub graphics: bool,
    pub portal: bool,
}

/// The settings workers run with.
#[derive(Debug)]
pub struct WorkerSettings {
    pub name: Option<String>,
    pub address: String,
    pub port: u16,
    pub maximal_work_load: u32,
    pub count: u32,
}

/// The address a worker connects to when none is given.
pub open spec fn default_address() -> Seq<char> {
    "localhost"@
}

/// The address a server listens on when none is given: every available
/// interface.
pub open spec fn default_listen_address() -> Seq<char> {
    "0.0.0.0"@
}

/// The value of an option, or `default` when it is not given.
pub open spec fn or_default<T>(option: Option<T>, default: T) -> T {
    match option {
        Some(v) => v,
        None => default,
    }
}

/// The text of an optional address, or the default address.
pub open spec fn address_or_default(address: Option<String>) -> Seq<char> {
    match address {
        Some(a) => a@,
        None => default_address(),
    }
}

/// A worker connects to the address it is given, and to `localhost` when it
/// is given none.
pub proof fn lemma_worker_address_default(address: Option<String>)
    ensures
        address is None ==> address_or_default(address) == "localhost"@,
        address matches Some(a) ==> address_or_default(address) == a@,
{
}

/// The text of an optional listening address, or every interface.
pub open spec fn listen_address_or_default(address: Option<String>) -> Seq<char> {
    match address {
        Some(a) => a@,
        None => default_listen_address(),
    }
}

/// The given address, or every interface (`0.0.0.0`).
fn address_or_all_interfaces(address: Option<String>) -> (a: String)
    ensures
        a@ == listen_address_or_default(address),
{
    match address {
        Some(a) => a,
        None => "0.0.0.0".to_owned(),
    }
}

/// The given address, or `localhost`.
fn address_or_localhost(address: Option<String>) -> (a: String)
    ensures
        a@ == address_or_default(address),
{
    match address {
        Some(a) => a,
        None => "localhost".to_owned(),
    }
}

impl ServerCommand {
    /// The server settings: the options given, else all available
    /// interfaces, port 8080, a 300 by 300 image in 4 by 4 tiles, no graphics
    /// and no portal.
    pub fn settings(self) -> (s: ServerSettings)
        ensures
            s.address@ == listen_address_or_default(self.address),
            s.port == or_default(self.port, 8080),
            s.width == or_default(self.width, 300),
            s.height == or_default(self.height, 300),
            s.tiles == or_default(self.tiles, 4),
            s.graphics == or_default(self.graphics, false),
            s.portal == or_default(self.portal, false),
    {
        ServerSettings {
            address: address_or_all_interfaces(self.address),
            port: match self.port {
                Some(p) => p,
                None => 8080,
            },
            width: match self.width {
                Some(w) => w,
                None => 300,
            },
            height: match self.height {
                Some(h) => h,
                None => 300,
            },
            tiles: match self.tiles {
                Some(t) => t,
                None => 4,
            },
            graphics: match self.graphics {
                Some(g) => g,
                None => false,
            },
            portal: match self.portal {
                Some(p) => p,
                None => false,
            },
        }
    }
}

impl WorkerCommand {
    /// The worker settings: the options given, else one worker accepting a
    /// work load of 500 that connects to `localhost` on port 8787.
    pub fn settings(self) -> (s: WorkerSettings)
        ensures
            s.name == self.name,
            s.address@ == address_or_default(self.address),
            self.address is None ==> s.address@ == "localhost"@,
            s.port == or_default(self.port, 8787),
            s.maximal_work_load == or_default(self.maximal_work_load, 500),
            s.count == or_default(self.count, 1),
    {
        WorkerSettings {
            name: self.name,
            address: address_or_localhost(self.address),
            port: match self.port {
                Some(p) => p,
                None => 8787,
            },
            maximal_work_load: match self.maximal_work_load {
                Some(m) => m,
                None => 500,
            },
            count: match self.count {
                Some(c) => c,
                None => 1,
            },
        }
    }
}

} // verus!
