//! The configuration of the process, as it follows from five variables of
//! the environment.

use crate::text::{decimal, decimal_value, from_decimal, lowercase, to_decimal, to_lowercase};
use vstd::prelude::*;
use vstd::string::*;

verus! {

/// Where the process runs.
#[derive(Clone, Copy, Debug, PartialEq, Eq, Structural)]
pub enum AppEnv {
    Development,
    Production,
}

/// How much the process logs.
#[derive(Clone, Copy, Debug, PartialEq, Eq, Structural)]
pub enum LogLevel {
    Trace,
    Debug,
    Info,
    Warn,
    Error,
}

/// The configuration of the process.
#[derive(Debug, PartialEq, Eq)]
pub struct Config {
    pub app_env: AppEnv,
    pub log_level: LogLevel,
    pub redis_server: String,
    pub version: String,
}

/// What a `Config` holds.
pub ghost struct ConfigView {
    pub app_env: AppEnv,
    pub log_level: LogLevel,
    pub redis_server: Seq<char>,
    pub version: Seq<char>,
}

impl View for Config {
    type V = ConfigView;

    open spec fn view(&self) -> ConfigView {
        ConfigView {
            app_env: self.app_env,
            log_level: self.log_level,
            redis_server: self.redis_server@,
            version: self.version@,
        }
    }
}

impl Clone for Config {
    fn clone(&self) -> (r: Self)
        ensures
            r@ == self@,
    {
        Config {
            app_env: self.app_env,
            log_level: self.log_level,
            redis_server: self.redis_server.clone(),
            version: self.version.clone(),
        }
    }
}

/// Where the variables come from. The process environment is one such
/// place; a test may supply another.
pub trait Environment {
    /// The value of the variable `var`, if it is set.
    fn get_var(&self, var: &str) -> Option<String>;
}

/// The environment that a lower-cased name stands for: `prod` is
/// production, anything else development.
pub open spec fn app_env_of(lower: Seq<char>) -> AppEnv {
    if lower == "prod"@ {
        AppEnv::Production
    } else {
        AppEnv::Development
    }
}

/// The level that a lower-cased name stands for; a name that is none of
/// the five stands for `Info`.
pub open spec fn log_level_of(lower: Seq<char>) -> LogLevel {
    if lower == "trace"@ {
        LogLevel::Trace
    } else if lower == "debug"@ {
        LogLevel::Debug
    } else if lower == "info"@ {
        LogLevel::Info
    } else if lower == "warn"@ {
        LogLevel::Warn
    } else if lower == "error"@ {
        LogLevel::Error
    } else {
        LogLevel::Info
    }
}

/// The port that a text stands for: decimal digits, with or without a `+`
/// before them, that give a number of 16 bits.
pub open spec fn port_value(s: Seq<char>) -> Option<u16> {
    let digits = if s.len() > 0 && s[0] == '+' {
        s.subrange(1, s.len() as int)
    } else {
        s
    };
    match decimal_value(digits) {
        Some(v) => if v <= u16::MAX {
            Some(v as u16)
        } else {
            None
        },
        None => None,
    }
}

/// The port of the server: what the variable says, and 6379 where it is
/// not set or is no port.
pub open spec fn port_of(port: Option<Seq<char>>) -> u16 {
    match port {
        Some(s) => match port_value(s) {
            Some(p) => p,
            None => 6379,
        },
        None => 6379,
    }
}

/// The address of the server.
pub open spec fn server_url(host: Seq<char>, port: u16) -> Seq<char> {
    "redis://"@ + host + ":"@ + decimal(port as nat)
}

/// A value, or the default where there is none.
pub open spec fn or_default(value: Option<Seq<char>>, default: Seq<char>) -> Seq<char> {
    match value {
        Some(v) => v,
        None => default,
    }
}

/// The environment that the variable `ENV` gives: development where it is
/// not set, else what its value names, read without regard to case.
pub open spec fn app_env_from(value: Option<Seq<char>>) -> AppEnv {
    match value {
        Some(v) => app_env_of(lowercase(v)),
        None => AppEnv::Development,
    }
}

/// The level that the variable `LOG_LEVEL` gives: `Info` where it is not
/// set, else what its value names, read without regard to case.
pub open spec fn log_level_from(value: Option<Seq<char>>) -> LogLevel {
    match value {
        Some(v) => log_level_of(lowercase(v)),
        None => LogLevel::Info,
    }
}

/// The configuration that follows from the five variables. A variable
/// that is not set gives development, `Info`, `localhost`, 6379 and
/// `experimental`, in this order.
pub open spec fn config_of(
    app_env: Option<Seq<char>>,
    log_level: Option<Seq<char>>,
    redis_host: Option<Seq<char>>,
    redis_port: Option<Seq<char>>,
    version: Option<Seq<char>>,
) -> ConfigView {
    ConfigView {
        app_env: app_env_from(app_env),
        log_level: log_level_from(log_level),
        redis_server: server_url(or_default(redis_host, "localhost"@), port_of(redis_port)),
        version: or_default(version, "experimental"@),
    }
}

/// The names of the five variables, in the order in which they are asked.
pub open spec fn variables() -> Seq<Seq<char>> {
    seq!["ENV"@, "LOG_LEVEL"@, "REDIS_HOST"@, "REDIS_PORT"@, "VERSION"@]
}

/// One question to the environment and its answer: the name of a variable,
/// and its value where it is set.
pub ghost struct Request {
    pub var: Seq<char>,
    pub answer: Option<Seq<char>>,
}

/// The requests ask for exactly the variables `names`, in this order.
pub open spec fn asks_for(requests: Seq<Request>, names: Seq<Seq<char>>) -> bool {
    &&& requests.len() == names.len()
    &&& forall|i: int| 0 <= i < requests.len() ==> (#[trigger] requests[i]).var == names[i]
}

/// The configuration that follows from the answers to five requests.
pub open spec fn config_from(requests: Seq<Request>) -> ConfigView
    recommends
        requests.len() == 5,
{
    config_of(
        requests[0].answer,
        requests[1].answer,
        requests[2].answer,
        requests[3].answer,
        requests[4].answer,
    )
}

/// What an optional string holds.
pub open spec fn optional_value(s: Option<String>) -> Option<Seq<char>> {
    match s {
        Some(s) => Some(s@),
        None => None,
    }
}

/// Where nothing is set, the configuration is the default one:
/// development, `Info`, the server at `localhost` and port 6379, the version
/// `experimental`. A port that is no port gives 6379 as well.
pub proof fn lemma_defaults(port: Seq<char>)
    ensures
        config_of(None, None, None, None, None) == (ConfigView {
            app_env: AppEnv::Development,
            log_level: LogLevel::Info,
            redis_server: server_url("localhost"@, 6379),
            version: "experimental"@,
        }),
        port_value(port) is None ==> port_of(Some(port)) == 6379,
{
}

/// An environment together with the record of what it was asked.
///
/// Whatever the environment behind it is, the record holds every variable
/// that was asked for through `get_var`, with the answer, oldest first.
pub struct Asked<T: Environment> {
    env: T,
    asked: Ghost<Seq<Request>>,
}

impl<T: Environment> Asked<T> {
    /// The requests made and their answers, oldest first.
    pub closed spec fn asked(&self) -> Seq<Request> {
        self.asked@
    }

    /// The environment behind the record.
    pub closed spec fn env(&self) -> T {
        self.env
    }

    /// A record in front of `env`, empty.
    pub fn new(env: T) -> (r: Self)
        ensures
            r.asked() == Seq::<Request>::empty(),
            r.env() == env,
    {
        Asked { env, asked: Ghost(Seq::empty()) }
    }

    /// Asks the environment for the variable `var`, once, and returns what
    /// it answers. The request and its answer are the newest entry of the
    /// record.
    pub fn get_var(&mut self, var: &str) -> (r: Option<String>)
        ensures
            final(self).asked() == old(self).asked().push(
                Request { var: var@, answer: optional_value(r) },
            ),
    {
        let r = self.env.get_var(var);
        proof {
            self.asked@ = self.asked@.push(Request { var: var@, answer: optional_value(r) });
        }
        r
    }

    /// Gives the environment back and drops the record.
    pub fn into_inner(self) -> (r: T)
        ensures
            r == self.env(),
    {
        self.env
    }
}

/// The environment named by `lower`, a name in lower case.
pub fn app_env_named(lower: &str) -> (r: AppEnv)
    ensures
        r == app_env_of(lower@),
{
    if lower.to_owned() == "prod".to_owned() {
        AppEnv::Production
    } else {
        AppEnv::Development
    }
}

/// The level named by `lower`, a name in lower case.
pub fn log_level_named(lower: &str) -> (r: LogLevel)
    ensures
        r == log_level_of(lower@),
{
    let name = lower.to_owned();
    if name == "trace".to_owned() {
        LogLevel::Trace
    } else if name == "debug".to_owned() {
        LogLevel::Debug
    } else if name == "info".to_owned() {
        LogLevel::Info
    } else if name == "warn".to_owned() {
        LogLevel::Warn
    } else if name == "error".to_owned() {
        LogLevel::Error
    } else {
        LogLevel::Info
    }
}

/// Reads a port.
///
/// Returns `None` exactly where `s` is not a run of decimal digits, with
/// or without a `+` before it, or stands for more than 65535.
pub fn parse_port(s: &str) -> (r: Option<u16>)
    ensures
        r == port_value(s@),
{
    let n = s.unicode_len();
    let digits = if n > 0 && s.get_char(0) == '+' {
        s.substring_char(1, n)
    } else {
        s
    };
    match from_decimal(digits) {
        Some(v) => if v <= 65535 {
            Some(v as u16)
        } else {
            None
        },
        None => None,
    }
}

/// The value, or a copy of the default where there is none.
fn value_or(value: Option<String>, default: &str) -> (r: String)
    ensures
        r@ == or_default(optional_value(value), default@),
{
    match value {
        Some(v) => v,
        None => default.to_owned(),
    }
}

impl Config {
    /// The configuration that follows from the values of `ENV`,
    /// `LOG_LEVEL`, `REDIS_HOST`, `REDIS_PORT` and `VERSION`, `None` for a
    /// variable that is not set.
    ///
    /// `ENV` and `LOG_LEVEL` are read without regard to case. A level that
    /// is not known is `Info`; a port that is no port is 6379.
    pub fn from_vars(
        app_env: Option<String>,
        log_level: Option<String>,
        redis_host: Option<String>,
        redis_port: Option<String>,
        version: Option<String>,
    ) -> (r: Config)
        ensures
            r@ == config_of(
                optional_value(app_env),
                optional_value(log_level),
                optional_value(redis_host),
                optional_value(redis_port),
                optional_value(version),
            ),
    {
        let app_env = match app_env {
            Some(name) => app_env_named(to_lowercase(name.as_str()).as_str()),
            None => AppEnv::Development,
        };
        let log_level = match log_level {
            Some(name) => log_level_named(to_lowercase(name.as_str()).as_str()),
            None => LogLevel::Info,
        };
        let host = value_or(redis_host, "localhost");
        let port: u16 = match redis_port {
            Some(text) => match parse_port(text.as_str()) {
                Some(p) => p,
                None => 6379,
            },
            None => 6379,
        };
        let mut redis_server = "redis://".to_owned();
        redis_server.append(host.as_str());
        redis_server.append(":");
        redis_server.append(to_decimal(port as u32).as_str());
        Config { app_env, log_level, redis_server, version: value_or(version, "experimental") }
    }

    /// The configuration that follows from the environment.
    ///
    /// Asks for `ENV`, `LOG_LEVEL`, `REDIS_HOST`, `REDIS_PORT` and
    /// `VERSION`, each once and in this order, and for nothing else; the
    /// result is the configuration that follows from the five answers.
    pub fn from_env<T: Environment>(env: &mut Asked<T>) -> (r: Config)
        ensures
            final(env).asked().len() == old(env).asked().len() + 5,
            final(env).asked().take(old(env).asked().len() as int) == old(env).asked(),
            asks_for(final(env).asked().skip(old(env).asked().len() as int), variables()),
            r@ == config_from(final(env).asked().skip(old(env).asked().len() as int)),
    {
        let ghost before = env.asked();
        let app_env = env.get_var("ENV");
        let log_level = env.get_var("LOG_LEVEL");
        let redis_host = env.get_var("REDIS_HOST");
        let redis_port = env.get_var("REDIS_PORT");
        let version = env.get_var("VERSION");
        proof {
            let now = env.asked();
            let n = before.len() as int;
            assert(now.take(n) =~= before);
            let new = now.skip(n);
            assert(new[0] == now[n]);
            assert(new[1] == now[n + 1]);
            assert(new[2] == now[n + 2]);
            assert(new[3] == now[n + 3]);
            assert(new[4] == now[n + 4]);
        }
        Config::from_vars(app_env, log_level, redis_host, redis_port, version)
    }

    /// A development configuration for the given version: level `Info`,
    /// the server at `redis://127.0.0.1:6359`.
    pub fn from_params(version: String) -> (r: Config)
        ensures
            r@ == (ConfigView {
                app_env: AppEnv::Development,
                log_level: LogLevel::Info,
                redis_server: "redis://127.0.0.1:6359"@,
                version: version@,
            }),
    {
        Config {
            app_env: AppEnv::Development,
            log_level: LogLevel::Info,
            redis_server: "redis://127.0.0.1:6359".to_owned(),
            version,
        }
    }
}

} // verus!
