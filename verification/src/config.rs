//! The configuration, as environment variables give it.
use vstd::prelude::*;
use crate::span::Span;
use crate::text;

verus! {

pub const DEFAULT_BIND_ADDR: &'static str = "0.0.0.0:3000";

pub const DEFAULT_MAX_CONCURRENT_SESSIONS: usize = 4;

pub const DEFAULT_PER_SESSION_RSS_MB: u64 = 1536;

pub const DEFAULT_RATE_LIMIT_RPS: u32 = 10;

pub const DEFAULT_RATE_LIMIT_BURST: u32 = 20;

pub const DEFAULT_REQUEST_BODY_LIMIT_BYTES: usize = 65536;

/// How many bytes a megabyte has.
pub const BYTES_PER_MB: u64 = 1048576;

/// The whole configuration.
#[derive(Clone, Debug)]
pub struct AppConfig {
    /// The socket address to listen on, as it is written.
    pub bind_addr: String,
    pub auth: AuthConfig,
    pub http: HttpConfig,
    pub rate_limit: RateLimitConfig,
    pub browser: BrowserConfig,
    pub pool: PoolConfig,
    pub stealth: StealthConfig,
}

#[derive(Clone, Debug)]
pub struct AuthConfig {
    pub token: Option<String>,
}

#[derive(Clone, Debug)]
pub struct HttpConfig {
    pub cors_origins: Vec<String>,
    pub request_body_limit_bytes: usize,
}

#[derive(Clone, Debug)]
pub struct RateLimitConfig {
    pub requests_per_second: u32,
    pub burst: u32,
}

#[derive(Clone, Debug)]
pub struct BrowserConfig {
    pub executable: Option<String>,
    pub no_sandbox: bool,
    pub launch_timeout: Span,
    pub close_timeout: Span,
    pub terminate_timeout: Span,
    pub additional_args: Vec<String>,
    pub user_agent: Option<String>,
    /// Where profiles are kept that outlive a session.
    pub profile_storage_dir: Option<String>,
}

#[derive(Clone, Debug)]
pub struct PoolConfig {
    pub max_concurrent_sessions: usize,
    pub launch_queue_timeout: Span,
    pub max_session_lifetime: Span,
    pub max_idle_time: Span,
    pub per_session_rss_limit_bytes: u64,
    pub maintenance_interval: Span,
    pub cdp_health_interval: Span,
}

#[derive(Clone, Debug)]
pub struct StealthConfig {
    pub enabled: bool,
}

/// Why there is no configuration.
#[derive(Clone, Debug)]
pub enum ConfigError {
    InvalidValue { name: &'static str, value: String },
}

impl ConfigError {
    /// The error in words.
    pub fn message(&self) -> (res: String)
        ensures
            match self {
                ConfigError::InvalidValue { name, value } => res@ == "invalid value for "@ + name@
                    + ": "@ + value@,
            },
    {
        match self {
            ConfigError::InvalidValue { name, value } => {
                let mut out = "invalid value for ".to_owned();
                out.append(name);
                out.append(": ");
                out.append(value.as_str());
                out
            },
        }
    }
}

/// Environment variables: names and values.
#[derive(Clone, Debug)]
pub struct Environment {
    pub vars: Vec<(String, String)>,
}

/// The value of the variable called `name`; of two the later counts.
pub open spec fn value_of(vars: Seq<(String, String)>, name: Seq<char>) -> Option<Seq<char>>
    decreases vars.len(),
{
    if vars.len() == 0 {
        None
    } else if vars.last().0@ == name {
        Some(vars.last().1@)
    } else {
        value_of(vars.drop_last(), name)
    }
}

impl Environment {
    /// The value of the variable called `name`.
    pub open spec fn value(self, name: Seq<char>) -> Option<Seq<char>> {
        value_of(self.vars@, name)
    }

    /// The value of the variable called `name`, unless it is blank.
    pub open spec fn filled(self, name: Seq<char>) -> Option<Seq<char>> {
        match self.value(name) {
            Some(value) => if text::is_blank(value) {
                None
            } else {
                Some(value)
            },
            None => None,
        }
    }

    /// The value of the variable called `name`, or a default.
    pub open spec fn or_default(self, name: Seq<char>, default: Seq<char>) -> Seq<char> {
        match self.value(name) {
            Some(value) => value,
            None => default,
        }
    }

    /// The number in the variable called `name`, or a default; nothing where
    /// the variable holds no number of at most `max`.
    pub open spec fn number(self, name: Seq<char>, default: nat, max: nat) -> Option<nat> {
        match self.value(name) {
            Some(value) => text::parsed_number(value, max),
            None => Some(default),
        }
    }

    /// The boolean in the variable called `name`, or a default; nothing where
    /// the variable holds none.
    pub open spec fn flag(self, name: Seq<char>, default: bool) -> Option<bool> {
        match self.value(name) {
            Some(value) => text::parsed_bool(value),
            None => Some(default),
        }
    }

    /// The value of the variable called `name`.
    pub fn var(&self, name: &str) -> (res: Option<String>)
        ensures
            text::opt_text(res) == self.value(name@),
    {
        let mut i: usize = self.vars.len();
        assert(self.vars@.take(i as int) =~= self.vars@);
        while i > 0
            invariant
                i <= self.vars.len(),
                self.value(name@) == value_of(self.vars@.take(i as int), name@),
            decreases i,
        {
            i -= 1;
            assert(self.vars@.take(i + 1).drop_last() =~= self.vars@.take(i as int));
            if text::str_eq(self.vars[i].0.as_str(), name) {
                return Some(self.vars[i].1.clone());
            }
        }
        None
    }
}

/// The value of a variable, unless it is blank.
pub fn optional_env(env: &Environment, name: &'static str) -> (res: Option<String>)
    ensures
        text::opt_text(res) == env.filled(name@),
{
    match env.var(name) {
        Some(value) => if text::blank(value.as_str()) {
            None
        } else {
            Some(value)
        },
        None => None,
    }
}

/// The parts of a variable that holds a comma-separated list.
pub open spec fn listed_parts(env: Environment, name: Seq<char>) -> Seq<Seq<char>> {
    match env.filled(name) {
        Some(value) => text::comma_parts(value),
        None => Seq::empty(),
    }
}

/// The parts of a variable that holds a comma-separated list.
pub fn comma_separated_env(env: &Environment, name: &'static str) -> (res: Vec<String>)
    ensures
        text::texts(res@) == listed_parts(*env, name@),
{
    match optional_env(env, name) {
        Some(value) => text::comma_separated(value.as_str()),
        None => {
            let none: Vec<String> = Vec::new();
            assert(text::texts(none@) =~= Seq::<Seq<char>>::empty());
            none
        },
    }
}

/// The value that is refused, where it is none or not a number of at most `max`.
pub open spec fn bad_number(env: Environment, name: Seq<char>, max: nat) -> Option<(Seq<char>, Seq<char>)> {
    match env.value(name) {
        Some(value) => if text::parsed_number(value, max) is None {
            Some((name, value))
        } else {
            None
        },
        None => None,
    }
}

/// The value that is refused, where it or the default is no positive number of 32 bits.
pub open spec fn bad_positive(env: Environment, name: Seq<char>, default: nat) -> Option<
    (Seq<char>, Seq<char>),
> {
    match env.number(name, default, u32::MAX as nat) {
        Some(number) => if number == 0 {
            Some((name, text::decimal(0)))
        } else {
            None
        },
        None => Some((name, env.value(name)->Some_0)),
    }
}

/// The value that is refused, where it is no boolean.
pub open spec fn bad_flag(env: Environment, name: Seq<char>) -> Option<(Seq<char>, Seq<char>)> {
    match env.value(name) {
        Some(value) => if text::parsed_bool(value) is None {
            Some((name, value))
        } else {
            None
        },
        None => None,
    }
}

/// The first of two refusals.
pub open spec fn earlier(
    first: Option<(Seq<char>, Seq<char>)>,
    second: Option<(Seq<char>, Seq<char>)>,
) -> Option<(Seq<char>, Seq<char>)> {
    match first {
        Some(_) => first,
        None => second,
    }
}

/// An error as the refusal that it reports.
pub open spec fn refusal(error: ConfigError) -> (Seq<char>, Seq<char>) {
    match error {
        ConfigError::InvalidValue { name, value } => (name@, value@),
    }
}

/// The number of at most `max` in a variable, or a default.
pub fn parse_env(env: &Environment, name: &'static str, default: u64, max: u64) -> (res: Result<
    u64,
    ConfigError,
>)
    ensures
        match res {
            Ok(number) => bad_number(*env, name@, max as nat) is None && env.number(
                name@,
                default as nat,
                max as nat,
            ) == Some(number as nat),
            Err(error) => bad_number(*env, name@, max as nat) == Some(refusal(error)),
        },
{
    match env.var(name) {
        Some(value) => match text::parse_number(value.as_str(), max) {
            Some(number) => Ok(number),
            None => Err(ConfigError::InvalidValue { name, value }),
        },
        None => Ok(default),
    }
}

/// The boolean in a variable, or a default.
pub fn flag_env(env: &Environment, name: &'static str, default: bool) -> (res: Result<bool, ConfigError>)
    ensures
        match res {
            Ok(flag) => bad_flag(*env, name@) is None && env.flag(name@, default) == Some(flag),
            Err(error) => bad_flag(*env, name@) == Some(refusal(error)),
        },
{
    match env.var(name) {
        Some(value) => match text::parse_bool(value.as_str()) {
            Some(flag) => Ok(flag),
            None => Err(ConfigError::InvalidValue { name, value }),
        },
        None => Ok(default),
    }
}

/// The number of seconds in a variable, or a default.
pub fn seconds_env(env: &Environment, name: &'static str, default: u64) -> (res: Result<
    Span,
    ConfigError,
>)
    ensures
        match res {
            Ok(span) => bad_number(*env, name@, u64::MAX as nat) is None && seconds_from(
                span,
                *env,
                name@,
                default as nat,
            ),
            Err(error) => bad_number(*env, name@, u64::MAX as nat) == Some(refusal(error)),
        },
{
    match parse_env(env, name, default, u64::MAX) {
        Ok(seconds) => Ok(Span::from_secs(seconds)),
        Err(error) => Err(error),
    }
}

/// The number of megabytes in a variable, or a default.
pub fn mb_env(env: &Environment, name: &'static str, default: u64) -> (res: Result<u64, ConfigError>)
    ensures
        match res {
            Ok(number) => bad_number(*env, name@, u64::MAX as nat) is None && env.number(
                name@,
                default as nat,
                u64::MAX as nat,
            ) == Some(number as nat),
            Err(error) => bad_number(*env, name@, u64::MAX as nat) == Some(refusal(error)),
        },
{
    parse_env(env, name, default, u64::MAX)
}

/// The positive number of 32 bits in a variable, or a default.
pub fn positive_u32_env(env: &Environment, name: &'static str, default: u32) -> (res: Result<
    u32,
    ConfigError,
>)
    ensures
        match res {
            Ok(number) => number > 0 && bad_positive(*env, name@, default as nat) is None && env.number(
                name@,
                default as nat,
                u32::MAX as nat,
            ) == Some(number as nat),
            Err(error) => bad_positive(*env, name@, default as nat) == Some(refusal(error)),
        },
{
    match parse_env(env, name, default as u64, u32::MAX as u64) {
        Ok(number) => if number == 0 {
            Err(ConfigError::InvalidValue { name, value: text::decimal_text(0) })
        } else {
            Ok(number as u32)
        },
        Err(error) => Err(error),
    }
}

/// The socket address to listen on, as it is written.
pub fn bind_addr_text(env: &Environment) -> (res: String)
    ensures
        res@ == env.or_default("EIGER_BIND_ADDR"@, DEFAULT_BIND_ADDR@),
{
    match env.var("EIGER_BIND_ADDR") {
        Some(value) => value,
        None => DEFAULT_BIND_ADDR.to_owned(),
    }
}

/// The refusal of the address to listen on.
pub open spec fn bad_bind_addr(env: Environment, bind_addr_valid: bool) -> Option<
    (Seq<char>, Seq<char>),
> {
    if bind_addr_valid {
        None
    } else {
        Some(("EIGER_BIND_ADDR"@, env.or_default("EIGER_BIND_ADDR"@, DEFAULT_BIND_ADDR@)))
    }
}

/// The first refusal among the settings up to the memory limit.
pub open spec fn refused_first(env: Environment, bind_addr_valid: bool) -> Option<
    (Seq<char>, Seq<char>),
> {
    let refused = bad_bind_addr(env, bind_addr_valid);
    let refused = earlier(refused, bad_number(env, "EIGER_REQUEST_BODY_LIMIT_BYTES"@, usize::MAX as nat));
    let refused = earlier(refused, bad_positive(env, "EIGER_RATE_LIMIT_RPS"@, DEFAULT_RATE_LIMIT_RPS as nat));
    let refused = earlier(refused, bad_positive(env, "EIGER_RATE_LIMIT_BURST"@, DEFAULT_RATE_LIMIT_BURST as nat));
    let refused = earlier(refused, bad_flag(env, "EIGER_CHROME_NO_SANDBOX"@));
    let refused = earlier(refused, bad_number(env, "EIGER_BROWSER_LAUNCH_TIMEOUT_SECS"@, u64::MAX as nat));
    let refused = earlier(refused, bad_number(env, "EIGER_BROWSER_CLOSE_TIMEOUT_SECS"@, u64::MAX as nat));
    let refused = earlier(refused, bad_number(env, "EIGER_BROWSER_TERMINATE_TIMEOUT_SECS"@, u64::MAX as nat));
    let refused = earlier(refused, bad_number(env, "EIGER_MAX_CONCURRENT_SESSIONS"@, usize::MAX as nat));
    let refused = earlier(refused, bad_number(env, "EIGER_LAUNCH_QUEUE_TIMEOUT_SECS"@, u64::MAX as nat));
    let refused = earlier(refused, bad_number(env, "EIGER_MAX_SESSION_LIFETIME_SECS"@, u64::MAX as nat));
    let refused = earlier(refused, bad_number(env, "EIGER_MAX_IDLE_TIME_SECS"@, u64::MAX as nat));
    let refused = earlier(refused, bad_number(env, "EIGER_PER_SESSION_RSS_LIMIT_MB"@, u64::MAX as nat));
    refused
}

/// The first refusal among the settings behind the memory limit.
pub open spec fn refused_last(env: Environment) -> Option<(Seq<char>, Seq<char>)> {
    let refused = bad_number(env, "EIGER_MAINTENANCE_INTERVAL_SECS"@, u64::MAX as nat);
    let refused = earlier(refused, bad_number(env, "EIGER_CDP_HEALTH_INTERVAL_SECS"@, u64::MAX as nat));
    let refused = earlier(refused, bad_flag(env, "EIGER_STEALTH_ENABLED"@));
    refused
}

/// The first setting that is refused, with its value, in the order in which the
/// settings are read.
pub open spec fn refused_setting(env: Environment, bind_addr_valid: bool) -> Option<
    (Seq<char>, Seq<char>),
> {
    earlier(refused_first(env, bind_addr_valid), refused_last(env))
}

/// The number of megabytes that a session may take.
pub open spec fn rss_limit_mb(env: Environment) -> Option<nat> {
    env.number("EIGER_PER_SESSION_RSS_LIMIT_MB"@, DEFAULT_PER_SESSION_RSS_MB as nat, u64::MAX as nat)
}

/// Whether the memory limit is accepted but, in bytes, takes more than 64 bits.
pub open spec fn rss_limit_overflow(env: Environment, bind_addr_valid: bool) -> bool {
    refused_first(env, bind_addr_valid) is None && match rss_limit_mb(env) {
        Some(mb) => mb * BYTES_PER_MB > u64::MAX,
        None => false,
    }
}

/// Whether the memory limit is accepted but, in bytes, takes more than 64 bits.
pub fn rss_limit_overflows(env: &Environment, bind_addr_valid: bool) -> (res: bool)
    ensures
        res == rss_limit_overflow(*env, bind_addr_valid),
{
    let refused = !bind_addr_valid
        || parse_env(env, "EIGER_REQUEST_BODY_LIMIT_BYTES", DEFAULT_REQUEST_BODY_LIMIT_BYTES as u64, usize::MAX as u64).is_err()
        || positive_u32_env(env, "EIGER_RATE_LIMIT_RPS", DEFAULT_RATE_LIMIT_RPS).is_err()
        || positive_u32_env(env, "EIGER_RATE_LIMIT_BURST", DEFAULT_RATE_LIMIT_BURST).is_err()
        || flag_env(env, "EIGER_CHROME_NO_SANDBOX", true).is_err()
        || seconds_env(env, "EIGER_BROWSER_LAUNCH_TIMEOUT_SECS", 10).is_err()
        || seconds_env(env, "EIGER_BROWSER_CLOSE_TIMEOUT_SECS", 3).is_err()
        || seconds_env(env, "EIGER_BROWSER_TERMINATE_TIMEOUT_SECS", 2).is_err()
        || parse_env(env, "EIGER_MAX_CONCURRENT_SESSIONS", DEFAULT_MAX_CONCURRENT_SESSIONS as u64, usize::MAX as u64).is_err()
        || seconds_env(env, "EIGER_LAUNCH_QUEUE_TIMEOUT_SECS", 15).is_err()
        || seconds_env(env, "EIGER_MAX_SESSION_LIFETIME_SECS", 1800).is_err()
        || seconds_env(env, "EIGER_MAX_IDLE_TIME_SECS", 300).is_err();
    match mb_env(env, "EIGER_PER_SESSION_RSS_LIMIT_MB", DEFAULT_PER_SESSION_RSS_MB) {
        Ok(mb) => !refused && mb > u64::MAX / BYTES_PER_MB,
        Err(_) => false,
    }
}

/// A length of time as the whole seconds that a variable gives.
pub open spec fn seconds_from(span: Span, env: Environment, name: Seq<char>, default: nat) -> bool {
    match env.number(name, default, u64::MAX as nat) {
        Some(seconds) => span.total() == seconds * 1_000_000_000,
        None => false,
    }
}

/// The words of a variable that is not blank.
pub open spec fn listed_words(env: Environment, name: Seq<char>) -> Seq<Seq<char>> {
    match env.filled(name) {
        Some(value) => text::words(value),
        None => Seq::empty(),
    }
}

impl AppConfig {
    /// Whether the configuration is the one that the environment gives.
    pub open spec fn comes_from(self, env: Environment) -> bool {
        &&& self.bind_addr@ == env.or_default("EIGER_BIND_ADDR"@, DEFAULT_BIND_ADDR@)
        &&& text::opt_text(self.auth.token) == env.filled("EIGER_TOKEN"@)
        &&& text::texts(self.http.cors_origins@) == listed_parts(env, "EIGER_CORS_ORIGINS"@)
        &&& env.number(
            "EIGER_REQUEST_BODY_LIMIT_BYTES"@,
            DEFAULT_REQUEST_BODY_LIMIT_BYTES as nat,
            usize::MAX as nat,
        ) == Some(self.http.request_body_limit_bytes as nat)
        &&& env.number(
            "EIGER_RATE_LIMIT_RPS"@,
            DEFAULT_RATE_LIMIT_RPS as nat,
            u32::MAX as nat,
        ) == Some(self.rate_limit.requests_per_second as nat)
        &&& env.number(
            "EIGER_RATE_LIMIT_BURST"@,
            DEFAULT_RATE_LIMIT_BURST as nat,
            u32::MAX as nat,
        ) == Some(self.rate_limit.burst as nat)
        &&& text::opt_text(self.browser.executable) == env.filled("EIGER_CHROME_EXECUTABLE"@)
        &&& env.flag("EIGER_CHROME_NO_SANDBOX"@, true) == Some(self.browser.no_sandbox)
        &&& seconds_from(
            self.browser.launch_timeout,
            env,
            "EIGER_BROWSER_LAUNCH_TIMEOUT_SECS"@,
            10,
        )
        &&& seconds_from(self.browser.close_timeout, env, "EIGER_BROWSER_CLOSE_TIMEOUT_SECS"@, 3)
        &&& seconds_from(
            self.browser.terminate_timeout,
            env,
            "EIGER_BROWSER_TERMINATE_TIMEOUT_SECS"@,
            2,
        )
        &&& text::texts(self.browser.additional_args@) == listed_words(env, "EIGER_CHROME_ARGS"@)
        &&& text::opt_text(self.browser.user_agent) == env.filled("EIGER_USER_AGENT"@)
        &&& text::opt_text(self.browser.profile_storage_dir) == env.filled(
            "EIGER_PROFILE_STORAGE_DIR"@,
        )
        &&& env.number(
            "EIGER_MAX_CONCURRENT_SESSIONS"@,
            DEFAULT_MAX_CONCURRENT_SESSIONS as nat,
            usize::MAX as nat,
        ) == Some(self.pool.max_concurrent_sessions as nat)
        &&& seconds_from(
            self.pool.launch_queue_timeout,
            env,
            "EIGER_LAUNCH_QUEUE_TIMEOUT_SECS"@,
            15,
        )
        &&& seconds_from(
            self.pool.max_session_lifetime,
            env,
            "EIGER_MAX_SESSION_LIFETIME_SECS"@,
            1800,
        )
        &&& seconds_from(self.pool.max_idle_time, env, "EIGER_MAX_IDLE_TIME_SECS"@, 300)
        &&& match rss_limit_mb(env) {
            Some(mb) => self.pool.per_session_rss_limit_bytes == mb * BYTES_PER_MB,
            None => false,
        }
        &&& seconds_from(
            self.pool.maintenance_interval,
            env,
            "EIGER_MAINTENANCE_INTERVAL_SECS"@,
            5,
        )
        &&& seconds_from(self.pool.cdp_health_interval, env, "EIGER_CDP_HEALTH_INTERVAL_SECS"@, 30)
        &&& env.flag("EIGER_STEALTH_ENABLED"@, true) == Some(self.stealth.enabled)
    }

    /// Reads the configuration. `bind_addr_valid` says whether the text that
    /// `bind_addr_text` gives is a socket address.
    pub fn from_env(env: &Environment, bind_addr_valid: bool) -> (res: Result<AppConfig, ConfigError>)
        requires
            !rss_limit_overflow(*env, bind_addr_valid),
        ensures
            match res {
                Ok(config) => {
                    &&& refused_setting(*env, bind_addr_valid) is None
                    &&& config.comes_from(*env)
                    &&& config.rate_limit.requests_per_second > 0
                    &&& config.rate_limit.burst > 0
                },
                Err(error) => refused_setting(*env, bind_addr_valid) == Some(refusal(error)),
            },
    {
        let bind_addr = bind_addr_text(env);
        if !bind_addr_valid {
            return Err(ConfigError::InvalidValue { name: "EIGER_BIND_ADDR", value: bind_addr });
        }
        let token = optional_env(env, "EIGER_TOKEN");
        let cors_origins = comma_separated_env(env, "EIGER_CORS_ORIGINS");
        let request_body_limit_bytes = match parse_env(env, "EIGER_REQUEST_BODY_LIMIT_BYTES", DEFAULT_REQUEST_BODY_LIMIT_BYTES as u64, usize::MAX as u64) {
            Ok(number) => number as usize,
            Err(error) => return Err(error),
        };
        let requests_per_second = match positive_u32_env(env, "EIGER_RATE_LIMIT_RPS", DEFAULT_RATE_LIMIT_RPS) {
            Ok(value) => value,
            Err(error) => return Err(error),
        };
        let burst = match positive_u32_env(env, "EIGER_RATE_LIMIT_BURST", DEFAULT_RATE_LIMIT_BURST) {
            Ok(value) => value,
            Err(error) => return Err(error),
        };
        let executable = optional_env(env, "EIGER_CHROME_EXECUTABLE");
        let no_sandbox = match flag_env(env, "EIGER_CHROME_NO_SANDBOX", true) {
            Ok(value) => value,
            Err(error) => return Err(error),
        };
        let launch_timeout = match seconds_env(env, "EIGER_BROWSER_LAUNCH_TIMEOUT_SECS", 10) {
            Ok(value) => value,
            Err(error) => return Err(error),
        };
        let close_timeout = match seconds_env(env, "EIGER_BROWSER_CLOSE_TIMEOUT_SECS", 3) {
            Ok(value) => value,
            Err(error) => return Err(error),
        };
        let terminate_timeout = match seconds_env(env, "EIGER_BROWSER_TERMINATE_TIMEOUT_SECS", 2) {
            Ok(value) => value,
            Err(error) => return Err(error),
        };
        let additional_args = match optional_env(env, "EIGER_CHROME_ARGS") {
            Some(value) => text::split_words(value.as_str()),
            None => {
                let none: Vec<String> = Vec::new();
                assert(text::texts(none@) =~= Seq::<Seq<char>>::empty());
                none
            },
        };
        let user_agent = optional_env(env, "EIGER_USER_AGENT");
        let profile_storage_dir = optional_env(env, "EIGER_PROFILE_STORAGE_DIR");
        let max_concurrent_sessions = match parse_env(env, "EIGER_MAX_CONCURRENT_SESSIONS", DEFAULT_MAX_CONCURRENT_SESSIONS as u64, usize::MAX as u64) {
            Ok(number) => number as usize,
            Err(error) => return Err(error),
        };
        let launch_queue_timeout = match seconds_env(env, "EIGER_LAUNCH_QUEUE_TIMEOUT_SECS", 15) {
            Ok(value) => value,
            Err(error) => return Err(error),
        };
        let max_session_lifetime = match seconds_env(env, "EIGER_MAX_SESSION_LIFETIME_SECS", 1800) {
            Ok(value) => value,
            Err(error) => return Err(error),
        };
        let max_idle_time = match seconds_env(env, "EIGER_MAX_IDLE_TIME_SECS", 300) {
            Ok(value) => value,
            Err(error) => return Err(error),
        };
        let rss_limit = match mb_env(env, "EIGER_PER_SESSION_RSS_LIMIT_MB", DEFAULT_PER_SESSION_RSS_MB) {
            Ok(value) => value,
            Err(error) => return Err(error),
        };
        assert(refused_first(*env, bind_addr_valid) is None);
        let per_session_rss_limit_bytes: u64 = rss_limit * BYTES_PER_MB;
        let maintenance_interval = match seconds_env(env, "EIGER_MAINTENANCE_INTERVAL_SECS", 5) {
            Ok(value) => value,
            Err(error) => return Err(error),
        };
        let cdp_health_interval = match seconds_env(env, "EIGER_CDP_HEALTH_INTERVAL_SECS", 30) {
            Ok(value) => value,
            Err(error) => return Err(error),
        };
        let stealth_enabled = match flag_env(env, "EIGER_STEALTH_ENABLED", true) {
            Ok(value) => value,
            Err(error) => return Err(error),
        };
        Ok(
            AppConfig {
                bind_addr,
                auth: AuthConfig { token },
                http: HttpConfig { cors_origins, request_body_limit_bytes },
                rate_limit: RateLimitConfig { requests_per_second, burst },
                browser: BrowserConfig {
                    executable,
                    no_sandbox,
                    launch_timeout,
                    close_timeout,
                    terminate_timeout,
                    additional_args,
                    user_agent,
                    profile_storage_dir,
                },
                pool: PoolConfig {
                    max_concurrent_sessions,
                    launch_queue_timeout,
                    max_session_lifetime,
                    max_idle_time,
                    per_session_rss_limit_bytes,
                    maintenance_interval,
                    cdp_health_interval,
                },
                stealth: StealthConfig { enabled: stealth_enabled },
            },
        )
    }
}

/// What a setting is where its variable is not set.
pub proof fn law_settings_have_defaults(config: AppConfig, env: Environment)
    requires
        config.comes_from(env),
    ensures
        env.value("EIGER_REQUEST_BODY_LIMIT_BYTES"@) is None ==> config.http.request_body_limit_bytes == 65536,
        env.value("EIGER_RATE_LIMIT_RPS"@) is None ==> config.rate_limit.requests_per_second == 10,
        env.value("EIGER_RATE_LIMIT_BURST"@) is None ==> config.rate_limit.burst == 20,
        env.value("EIGER_MAX_CONCURRENT_SESSIONS"@) is None ==> config.pool.max_concurrent_sessions == 4,
        env.value("EIGER_BROWSER_LAUNCH_TIMEOUT_SECS"@) is None ==> config.browser.launch_timeout.total() == 10 * 1_000_000_000,
        env.value("EIGER_BROWSER_CLOSE_TIMEOUT_SECS"@) is None ==> config.browser.close_timeout.total() == 3 * 1_000_000_000,
        env.value("EIGER_BROWSER_TERMINATE_TIMEOUT_SECS"@) is None ==> config.browser.terminate_timeout.total() == 2 * 1_000_000_000,
        env.value("EIGER_LAUNCH_QUEUE_TIMEOUT_SECS"@) is None ==> config.pool.launch_queue_timeout.total() == 15 * 1_000_000_000,
        env.value("EIGER_MAX_SESSION_LIFETIME_SECS"@) is None ==> config.pool.max_session_lifetime.total() == 1800 * 1_000_000_000,
        env.value("EIGER_MAX_IDLE_TIME_SECS"@) is None ==> config.pool.max_idle_time.total() == 300 * 1_000_000_000,
        env.value("EIGER_MAINTENANCE_INTERVAL_SECS"@) is None ==> config.pool.maintenance_interval.total() == 5 * 1_000_000_000,
        env.value("EIGER_CDP_HEALTH_INTERVAL_SECS"@) is None ==> config.pool.cdp_health_interval.total() == 30 * 1_000_000_000,
        env.value("EIGER_CHROME_NO_SANDBOX"@) is None ==> config.browser.no_sandbox,
        env.value("EIGER_STEALTH_ENABLED"@) is None ==> config.stealth.enabled,
        env.value("EIGER_TOKEN"@) is None ==> config.auth.token is None,
        env.value("EIGER_CHROME_EXECUTABLE"@) is None ==> config.browser.executable is None,
        env.value("EIGER_USER_AGENT"@) is None ==> config.browser.user_agent is None,
        env.value("EIGER_PROFILE_STORAGE_DIR"@) is None ==> config.browser.profile_storage_dir is None,
        env.value("EIGER_BIND_ADDR"@) is None ==> config.bind_addr@ == "0.0.0.0:3000"@,
        env.value("EIGER_CORS_ORIGINS"@) is None ==> config.http.cors_origins@.len() == 0,
        env.value("EIGER_CHROME_ARGS"@) is None ==> config.browser.additional_args@.len() == 0,
        env.value("EIGER_PER_SESSION_RSS_LIMIT_MB"@) is None
            ==> config.pool.per_session_rss_limit_bytes == 1536 * 1024 * 1024,
{
    if env.value("EIGER_CORS_ORIGINS"@) is None {
        assert(text::texts(config.http.cors_origins@).len() == 0);
    }
    if env.value("EIGER_CHROME_ARGS"@) is None {
        assert(text::texts(config.browser.additional_args@).len() == 0);
    }
}

/// What a setting is where its variable is set: each setting has its own variable, and
/// spans are given in seconds and the memory in units of 1024 times 1024 bytes.
pub proof fn law_settings_follow_their_variables(config: AppConfig, env: Environment)
    requires
        config.comes_from(env),
    ensures
        env.value("EIGER_REQUEST_BODY_LIMIT_BYTES"@) is Some ==> text::parsed_number(
            env.value("EIGER_REQUEST_BODY_LIMIT_BYTES"@)->Some_0,
            usize::MAX as nat,
        ) == Some(config.http.request_body_limit_bytes as nat),
        env.value("EIGER_RATE_LIMIT_RPS"@) is Some ==> text::parsed_number(
            env.value("EIGER_RATE_LIMIT_RPS"@)->Some_0,
            u32::MAX as nat,
        ) == Some(config.rate_limit.requests_per_second as nat),
        env.value("EIGER_RATE_LIMIT_BURST"@) is Some ==> text::parsed_number(
            env.value("EIGER_RATE_LIMIT_BURST"@)->Some_0,
            u32::MAX as nat,
        ) == Some(config.rate_limit.burst as nat),
        env.value("EIGER_MAX_CONCURRENT_SESSIONS"@) is Some ==> text::parsed_number(
            env.value("EIGER_MAX_CONCURRENT_SESSIONS"@)->Some_0,
            usize::MAX as nat,
        ) == Some(config.pool.max_concurrent_sessions as nat),
        env.value("EIGER_BROWSER_LAUNCH_TIMEOUT_SECS"@) is Some ==> config.browser.launch_timeout.total() == text::parsed_number(
            env.value("EIGER_BROWSER_LAUNCH_TIMEOUT_SECS"@)->Some_0,
            u64::MAX as nat,
        )->Some_0 * 1_000_000_000,
        env.value("EIGER_BROWSER_CLOSE_TIMEOUT_SECS"@) is Some ==> config.browser.close_timeout.total() == text::parsed_number(
            env.value("EIGER_BROWSER_CLOSE_TIMEOUT_SECS"@)->Some_0,
            u64::MAX as nat,
        )->Some_0 * 1_000_000_000,
        env.value("EIGER_BROWSER_TERMINATE_TIMEOUT_SECS"@) is Some ==> config.browser.terminate_timeout.total() == text::parsed_number(
            env.value("EIGER_BROWSER_TERMINATE_TIMEOUT_SECS"@)->Some_0,
            u64::MAX as nat,
        )->Some_0 * 1_000_000_000,
        env.value("EIGER_LAUNCH_QUEUE_TIMEOUT_SECS"@) is Some ==> config.pool.launch_queue_timeout.total() == text::parsed_number(
            env.value("EIGER_LAUNCH_QUEUE_TIMEOUT_SECS"@)->Some_0,
            u64::MAX as nat,
        )->Some_0 * 1_000_000_000,
        env.value("EIGER_MAX_SESSION_LIFETIME_SECS"@) is Some ==> config.pool.max_session_lifetime.total() == text::parsed_number(
            env.value("EIGER_MAX_SESSION_LIFETIME_SECS"@)->Some_0,
            u64::MAX as nat,
        )->Some_0 * 1_000_000_000,
        env.value("EIGER_MAX_IDLE_TIME_SECS"@) is Some ==> config.pool.max_idle_time.total() == text::parsed_number(
            env.value("EIGER_MAX_IDLE_TIME_SECS"@)->Some_0,
            u64::MAX as nat,
        )->Some_0 * 1_000_000_000,
        env.value("EIGER_MAINTENANCE_INTERVAL_SECS"@) is Some ==> config.pool.maintenance_interval.total() == text::parsed_number(
            env.value("EIGER_MAINTENANCE_INTERVAL_SECS"@)->Some_0,
            u64::MAX as nat,
        )->Some_0 * 1_000_000_000,
        env.value("EIGER_CDP_HEALTH_INTERVAL_SECS"@) is Some ==> config.pool.cdp_health_interval.total() == text::parsed_number(
            env.value("EIGER_CDP_HEALTH_INTERVAL_SECS"@)->Some_0,
            u64::MAX as nat,
        )->Some_0 * 1_000_000_000,
        env.value("EIGER_CHROME_NO_SANDBOX"@) is Some ==> env.value("EIGER_CHROME_NO_SANDBOX"@)->Some_0 == if config.browser.no_sandbox {
            "true"@
        } else {
            "false"@
        },
        env.value("EIGER_STEALTH_ENABLED"@) is Some ==> env.value("EIGER_STEALTH_ENABLED"@)->Some_0 == if config.stealth.enabled {
            "true"@
        } else {
            "false"@
        },
        env.value("EIGER_TOKEN"@) is Some ==> text::opt_text(config.auth.token) == if text::trim(
            env.value("EIGER_TOKEN"@)->Some_0,
        ).len() == 0 {
            None
        } else {
            env.value("EIGER_TOKEN"@)
        },
        env.value("EIGER_CHROME_EXECUTABLE"@) is Some ==> text::opt_text(config.browser.executable) == if text::trim(
            env.value("EIGER_CHROME_EXECUTABLE"@)->Some_0,
        ).len() == 0 {
            None
        } else {
            env.value("EIGER_CHROME_EXECUTABLE"@)
        },
        env.value("EIGER_USER_AGENT"@) is Some ==> text::opt_text(config.browser.user_agent) == if text::trim(
            env.value("EIGER_USER_AGENT"@)->Some_0,
        ).len() == 0 {
            None
        } else {
            env.value("EIGER_USER_AGENT"@)
        },
        env.value("EIGER_PROFILE_STORAGE_DIR"@) is Some ==> text::opt_text(config.browser.profile_storage_dir) == if text::trim(
            env.value("EIGER_PROFILE_STORAGE_DIR"@)->Some_0,
        ).len() == 0 {
            None
        } else {
            env.value("EIGER_PROFILE_STORAGE_DIR"@)
        },
        env.value("EIGER_BIND_ADDR"@) is Some ==> config.bind_addr@ == env.value(
            "EIGER_BIND_ADDR"@,
        )->Some_0,
        env.value("EIGER_CORS_ORIGINS"@) is Some && text::trim(
            env.value("EIGER_CORS_ORIGINS"@)->Some_0,
        ).len() > 0 ==> text::texts(config.http.cors_origins@) == text::comma_parts(
            env.value("EIGER_CORS_ORIGINS"@)->Some_0,
        ),
        env.value("EIGER_CHROME_ARGS"@) is Some && text::trim(
            env.value("EIGER_CHROME_ARGS"@)->Some_0,
        ).len() > 0 ==> text::texts(config.browser.additional_args@) == text::words(
            env.value("EIGER_CHROME_ARGS"@)->Some_0,
        ),
        env.value("EIGER_PER_SESSION_RSS_LIMIT_MB"@) is Some
            ==> config.pool.per_session_rss_limit_bytes == text::parsed_number(
            env.value("EIGER_PER_SESSION_RSS_LIMIT_MB"@)->Some_0,
            u64::MAX as nat,
        )->Some_0 * 1024 * 1024,
{
}

/// The value of a variable is the last that was set under its name.
pub proof fn law_variables_are_found(vars: Seq<(String, String)>, set: (String, String), other: Seq<char>)
    ensures
        value_of(vars.push(set), set.0@) == Some(set.1@),
        other != set.0@ ==> value_of(vars.push(set), other) == value_of(vars, other),
        value_of(Seq::empty(), other) is None,
{
    assert(vars.push(set).drop_last() =~= vars);
    assert(vars.push(set).last() == set);
}

/// The variables of the settings that are read as numbers and flags, in the order in which
/// they are read.
pub open spec fn read_variables() -> Seq<Seq<char>> {
    seq![
        "EIGER_REQUEST_BODY_LIMIT_BYTES"@,
        "EIGER_RATE_LIMIT_RPS"@,
        "EIGER_RATE_LIMIT_BURST"@,
        "EIGER_CHROME_NO_SANDBOX"@,
        "EIGER_BROWSER_LAUNCH_TIMEOUT_SECS"@,
        "EIGER_BROWSER_CLOSE_TIMEOUT_SECS"@,
        "EIGER_BROWSER_TERMINATE_TIMEOUT_SECS"@,
        "EIGER_MAX_CONCURRENT_SESSIONS"@,
        "EIGER_LAUNCH_QUEUE_TIMEOUT_SECS"@,
        "EIGER_MAX_SESSION_LIFETIME_SECS"@,
        "EIGER_MAX_IDLE_TIME_SECS"@,
        "EIGER_PER_SESSION_RSS_LIMIT_MB"@,
        "EIGER_MAINTENANCE_INTERVAL_SECS"@,
        "EIGER_CDP_HEALTH_INTERVAL_SECS"@,
        "EIGER_STEALTH_ENABLED"@,
    ]
}

/// Whether a variable is set to what is no number up to a largest one.
pub open spec fn is_no_number(env: Environment, name: Seq<char>, max: nat) -> bool {
    env.value(name) is Some && text::parsed_number(env.value(name)->Some_0, max) is None
}

/// Whether a variable is set to zero.
pub open spec fn is_zero(env: Environment, name: Seq<char>) -> bool {
    env.value(name) is Some && text::parsed_number(env.value(name)->Some_0, u32::MAX as nat)
        == Some(0nat)
}

/// Whether a variable is set to neither of the two words of a flag.
pub open spec fn is_no_flag(env: Environment, name: Seq<char>) -> bool {
    env.value(name) is Some && env.value(name)->Some_0 != "true"@ && env.value(name)->Some_0
        != "false"@
}

/// Whether the setting at a place among the variables that are read cannot be read.
pub open spec fn is_unreadable(env: Environment, at: int) -> bool {
    let name = read_variables()[at];
    if at == 0 || at == 7 {
        is_no_number(env, name, usize::MAX as nat)
    } else if at == 1 || at == 2 {
        is_no_number(env, name, u32::MAX as nat) || is_zero(env, name)
    } else if at == 3 || at == 14 {
        is_no_flag(env, name)
    } else {
        is_no_number(env, name, u64::MAX as nat)
    }
}

/// A configuration is refused for the first setting that cannot be read, by its variable
/// and the value: a bad address, what is no number in its range, a rate that is zero, or a
/// flag that is neither true nor false; it is accepted where all can be read.
pub proof fn law_bad_settings_are_refused(env: Environment, bind_addr_valid: bool, k: int)
    requires
        0 <= k <= 15,
        forall|i: int| 0 <= i < k ==> !#[trigger] is_unreadable(env, i),
        k < 15 ==> is_unreadable(env, k),
    ensures
        ({
            let refused = refused_setting(env, bind_addr_valid);
            let name = read_variables()[k];
            &&& !bind_addr_valid ==> refused == Some(
                (
                    "EIGER_BIND_ADDR"@,
                    if env.value("EIGER_BIND_ADDR"@) is Some {
                        env.value("EIGER_BIND_ADDR"@)->Some_0
                    } else {
                        "0.0.0.0:3000"@
                    },
                ),
            )
            &&& bind_addr_valid && k < 15 ==> refused == Some(
                (
                    name,
                    if (k == 1 || k == 2) && is_zero(env, name) {
                        text::decimal(0)
                    } else {
                        env.value(name)->Some_0
                    },
                ),
            )
            &&& bind_addr_valid && k == 15 ==> refused is None
        }),
{
    let fault_0 = is_unreadable(env, 0);
    let fault_1 = is_unreadable(env, 1);
    let fault_2 = is_unreadable(env, 2);
    let fault_3 = is_unreadable(env, 3);
    let fault_4 = is_unreadable(env, 4);
    let fault_5 = is_unreadable(env, 5);
    let fault_6 = is_unreadable(env, 6);
    let fault_7 = is_unreadable(env, 7);
    let fault_8 = is_unreadable(env, 8);
    let fault_9 = is_unreadable(env, 9);
    let fault_10 = is_unreadable(env, 10);
    let fault_11 = is_unreadable(env, 11);
    let fault_12 = is_unreadable(env, 12);
    let fault_13 = is_unreadable(env, 13);
    let fault_14 = is_unreadable(env, 14);
}

/// A memory limit is too large to be told in bytes only where its variable says so.
pub proof fn law_only_huge_limits_overflow(env: Environment, bind_addr_valid: bool)
    requires
        rss_limit_overflow(env, bind_addr_valid),
    ensures
        ({
            let value = env.value("EIGER_PER_SESSION_RSS_LIMIT_MB"@);
            let read = text::parsed_number(value->Some_0, u64::MAX as nat);
            &&& value is Some && read is Some
            &&& read->Some_0 * 1024 * 1024 > u64::MAX
        }),
{
}

}
