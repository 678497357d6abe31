//! The configuration of the server, read from environment variables.
use vstd::hash_map::StringHashMap;
use vstd::prelude::*;
use vstd::string::*;

use crate::number::{parse_signed, parse_unsigned, signed_value, unsigned_value, NumberError};
use crate::outside::{parse_uri, uri_parts, UriParts, UriPartsView};
use crate::text::{
    contains_text, fields, law_fields_around_separator, law_one_field, same_ignoring_ascii_case,
    same_text, split_fields, texts, trimmed,
};

verus! {

/// The configuration of the server.
#[derive(Clone)]
pub struct Config {
    pub bind_addr: String,
    pub public_base_url: String,
    pub db_path: String,
    pub static_dir: String,
    pub serve_frontend: bool,
    pub cors_allow_any: bool,
    pub cors_origins: Vec<String>,
    pub allowed_push_hosts: Vec<String>,
    pub webhook_read_timeout_ms: u64,
    pub vapid_public_key: String,
    pub vapid_private_key: String,
    pub vapid_subject: String,
    pub max_payload_bytes: usize,
    pub chunk_data_bytes: usize,
    pub chunk_delay_ms: u64,
    pub subscription_ttl_days: i64,
    pub rate_limit_per_minute: u32,
    pub queue_db_path: String,
    pub queue_max_bytes: usize,
    pub queue_workers: usize,
}

/// The content of a [`Config`].
#[verifier::ext_equal]
pub ghost struct ConfigView {
    pub bind_addr: Seq<char>,
    pub public_base_url: Seq<char>,
    pub db_path: Seq<char>,
    pub static_dir: Seq<char>,
    pub serve_frontend: bool,
    pub cors_allow_any: bool,
    pub cors_origins: Seq<Seq<char>>,
    pub allowed_push_hosts: Seq<Seq<char>>,
    pub webhook_read_timeout_ms: nat,
    pub vapid_public_key: Seq<char>,
    pub vapid_private_key: Seq<char>,
    pub vapid_subject: Seq<char>,
    pub max_payload_bytes: nat,
    pub chunk_data_bytes: nat,
    pub chunk_delay_ms: nat,
    pub subscription_ttl_days: int,
    pub rate_limit_per_minute: nat,
    pub queue_db_path: Seq<char>,
    pub queue_max_bytes: nat,
    pub queue_workers: nat,
}

impl View for Config {
    type V = ConfigView;

    open spec fn view(&self) -> ConfigView {
        ConfigView {
            bind_addr: self.bind_addr@,
            public_base_url: self.public_base_url@,
            db_path: self.db_path@,
            static_dir: self.static_dir@,
            serve_frontend: self.serve_frontend,
            cors_allow_any: self.cors_allow_any,
            cors_origins: texts(self.cors_origins@),
            allowed_push_hosts: texts(self.allowed_push_hosts@),
            webhook_read_timeout_ms: self.webhook_read_timeout_ms as nat,
            vapid_public_key: self.vapid_public_key@,
            vapid_private_key: self.vapid_private_key@,
            vapid_subject: self.vapid_subject@,
            max_payload_bytes: self.max_payload_bytes as nat,
            chunk_data_bytes: self.chunk_data_bytes as nat,
            chunk_delay_ms: self.chunk_delay_ms as nat,
            subscription_ttl_days: self.subscription_ttl_days as int,
            rate_limit_per_minute: self.rate_limit_per_minute as nat,
            queue_db_path: self.queue_db_path@,
            queue_max_bytes: self.queue_max_bytes as nat,
            queue_workers: self.queue_workers as nat,
        }
    }
}

impl Config {
    /// What every configuration that was read from the environment satisfies.
    pub open spec fn wf(self) -> bool {
        &&& self.chunk_data_bytes > 0
        &&& self.max_payload_bytes > 0
        &&& 0 < self.queue_max_bytes <= u32::MAX
        &&& self.queue_workers > 0
    }
}

/// Why the environment holds no usable configuration.
#[derive(Clone, Copy, Debug, PartialEq, Eq, Structural)]
pub enum ConfigError {
    InvalidBool,
    InvalidNumber(NumberError),
    VapidPublicKeyRequired,
    VapidPrivateKeyRequired,
    ChunkDataBytesZero,
    MaxPayloadBytesZero,
    QueueMaxBytesZero,
    QueueWorkersZero,
    QueueMaxBytesTooLarge,
}

impl ConfigError {
    /// What the error says.
    pub open spec fn spec_message(self) -> Seq<char> {
        match self {
            ConfigError::InvalidBool => "provided string was not `true` or `false`"@,
            ConfigError::InvalidNumber(e) => e.spec_message(),
            ConfigError::VapidPublicKeyRequired => "VAPID_PUBLIC_KEY is required"@,
            ConfigError::VapidPrivateKeyRequired => "VAPID_PRIVATE_KEY is required"@,
            ConfigError::ChunkDataBytesZero => "CHUNK_DATA_BYTES must be > 0"@,
            ConfigError::MaxPayloadBytesZero => "MAX_PAYLOAD_BYTES must be > 0"@,
            ConfigError::QueueMaxBytesZero => "QUEUE_MAX_BYTES must be > 0"@,
            ConfigError::QueueWorkersZero => "QUEUE_WORKERS must be > 0"@,
            ConfigError::QueueMaxBytesTooLarge => "QUEUE_MAX_BYTES must fit in u32"@,
        }
    }

    /// What the error says.
    pub fn message(&self) -> (message: String)
        ensures
            message@ == self.spec_message(),
    {
        match self {
            ConfigError::InvalidBool => "provided string was not `true` or `false`".to_owned(),
            ConfigError::InvalidNumber(e) => e.message(),
            ConfigError::VapidPublicKeyRequired => "VAPID_PUBLIC_KEY is required".to_owned(),
            ConfigError::VapidPrivateKeyRequired => "VAPID_PRIVATE_KEY is required".to_owned(),
            ConfigError::ChunkDataBytesZero => "CHUNK_DATA_BYTES must be > 0".to_owned(),
            ConfigError::MaxPayloadBytesZero => "MAX_PAYLOAD_BYTES must be > 0".to_owned(),
            ConfigError::QueueMaxBytesZero => "QUEUE_MAX_BYTES must be > 0".to_owned(),
            ConfigError::QueueWorkersZero => "QUEUE_WORKERS must be > 0".to_owned(),
            ConfigError::QueueMaxBytesTooLarge => "QUEUE_MAX_BYTES must fit in u32".to_owned(),
        }
    }
}

/// Environment variables, by name.
pub struct Environment {
    vars: StringHashMap<String>,
}

impl View for Environment {
    type V = Map<Seq<char>, Seq<char>>;

    closed spec fn view(&self) -> Map<Seq<char>, Seq<char>> {
        self.vars@.map_values(|s: String| s@)
    }
}

impl Environment {
    /// An environment without variables.
    pub fn new() -> (env: Self)
        ensures
            env@ == Map::<Seq<char>, Seq<char>>::empty(),
    {
        let env = Environment { vars: StringHashMap::new() };
        proof {
            assert(env@ =~= Map::<Seq<char>, Seq<char>>::empty());
        }
        env
    }

    /// Sets a variable, in place of an earlier value.
    pub fn set(&mut self, key: &str, value: &str)
        ensures
            final(self)@ == old(self)@.insert(key@, value@),
    {
        self.vars.insert(key.to_owned(), value.to_owned());
        proof {
            assert(self@ =~= old(self)@.insert(key@, value@));
        }
    }

    /// The value of a variable, if it is set.
    pub fn get(&self, key: &str) -> (value: Option<&str>)
        ensures
            match value {
                Some(v) => self@.contains_key(key@) && self@[key@] == v@,
                None => !self@.contains_key(key@),
            },
    {
        match self.vars.get(key) {
            Some(value) => Some(value.as_str()),
            None => None,
        }
    }
}

/// The value of a variable, or `default` where it is not set.
pub open spec fn text_var(
    env: Map<Seq<char>, Seq<char>>,
    key: Seq<char>,
    default: Seq<char>,
) -> Seq<char> {
    if env.contains_key(key) {
        env[key]
    } else {
        default
    }
}

/// The number from 0 to `max` in a variable, or `default` where it is not set.
pub open spec fn unsigned_var(
    env: Map<Seq<char>, Seq<char>>,
    key: Seq<char>,
    default: nat,
    max: nat,
) -> Result<nat, NumberError> {
    if env.contains_key(key) {
        unsigned_value(env[key], max)
    } else {
        Ok(default)
    }
}

/// The `i64` in a variable, or `default` where it is not set.
pub open spec fn signed_var(
    env: Map<Seq<char>, Seq<char>>,
    key: Seq<char>,
    default: int,
) -> Result<int, NumberError> {
    if env.contains_key(key) {
        signed_value(env[key])
    } else {
        Ok(default)
    }
}

/// The truth value in a variable, or `default` where it is not set. Anything
/// but `true` and `false` is none.
pub open spec fn bool_var(
    env: Map<Seq<char>, Seq<char>>,
    key: Seq<char>,
    default: bool,
) -> Option<bool> {
    if !env.contains_key(key) {
        Some(default)
    } else if env[key] == "true"@ {
        Some(true)
    } else if env[key] == "false"@ {
        Some(false)
    } else {
        None
    }
}

fn env_or(env: &Environment, key: &str, default: &str) -> (value: String)
    ensures
        value@ == text_var(env@, key@, default@),
{
    match env.get(key) {
        Some(value) => value.to_owned(),
        None => default.to_owned(),
    }
}

fn env_or_unsigned(env: &Environment, key: &str, default: u64, max: u64) -> (r: Result<
    u64,
    ConfigError,
>)
    requires
        default <= max,
    ensures
        match r {
            Ok(v) => v <= max && unsigned_var(env@, key@, default as nat, max as nat) == Ok::<
                nat,
                NumberError,
            >(v as nat),
            Err(e) => e is InvalidNumber && unsigned_var(env@, key@, default as nat, max as nat)
                == Err::<nat, NumberError>(e->InvalidNumber_0),
        },
{
    match env.get(key) {
        Some(value) => match parse_unsigned(value, max) {
            Ok(v) => Ok(v),
            Err(e) => Err(ConfigError::InvalidNumber(e)),
        },
        None => Ok(default),
    }
}

fn env_or_signed(env: &Environment, key: &str, default: i64) -> (r: Result<i64, ConfigError>)
    ensures
        match r {
            Ok(v) => signed_var(env@, key@, default as int) == Ok::<int, NumberError>(v as int),
            Err(e) => e is InvalidNumber && signed_var(env@, key@, default as int) == Err::<
                int,
                NumberError,
            >(e->InvalidNumber_0),
        },
{
    match env.get(key) {
        Some(value) => match parse_signed(value) {
            Ok(v) => Ok(v),
            Err(e) => Err(ConfigError::InvalidNumber(e)),
        },
        None => Ok(default),
    }
}

fn env_or_bool(env: &Environment, key: &str, default: bool) -> (r: Result<bool, ConfigError>)
    ensures
        match r {
            Ok(v) => bool_var(env@, key@, default) == Some(v),
            Err(e) => e == ConfigError::InvalidBool && bool_var(env@, key@, default) is None,
        },
{
    match env.get(key) {
        Some(value) => if same_text(value, "true") {
            Ok(true)
        } else if same_text(value, "false") {
            Ok(false)
        } else {
            Err(ConfigError::InvalidBool)
        },
        None => Ok(default),
    }
}

/// The items of a comma-separated list: trimmed, in order, the empty ones left
/// out.
pub open spec fn list_items(s: Seq<char>) -> Seq<Seq<char>> {
    fields(s, ',').map_values(|field: Seq<char>| trimmed(field)).filter(
        |item: Seq<char>| item.len() > 0,
    )
}

/// Reads a comma-separated list.
pub fn parse_list(value: &str) -> (list: Vec<String>)
    ensures
        texts(list@) == list_items(value@),
{
    let all: Vec<String> = split_fields(value, ',');
    let mut list: Vec<String> = Vec::new();
    let ghost items = fields(value@, ',').map_values(|field: Seq<char>| trimmed(field));
    let ghost keep = |item: Seq<char>| item.len() > 0;
    proof {
        assert(items.take(0).filter(keep) =~= Seq::<Seq<char>>::empty()) by {
            reveal(Seq::filter);
        }
        assert(texts(list@) =~= Seq::<Seq<char>>::empty());
    }
    let mut i: usize = 0;
    while i < all.len()
        invariant
            i <= all@.len(),
            texts(all@) == fields(value@, ','),
            items == fields(value@, ',').map_values(|field: Seq<char>| trimmed(field)),
            keep == (|item: Seq<char>| item.len() > 0),
            texts(list@) == items.take(i as int).filter(keep),
        decreases all.len() - i,
    {
        let item: &str = all[i].as_str().trim();
        proof {
            assert(texts(all@)[i as int] == all@[i as int]@);
            assert(items.take(i + 1).drop_last() =~= items.take(i as int));
            assert(items.take(i + 1).last() == item@);
            reveal(Seq::filter);
        }
        if !item.is_empty() {
            let ghost before = list@;
            list.push(item.to_owned());
            proof {
                assert(texts(list@) =~= texts(before).push(item@));
            }
        }
        i = i + 1;
    }
    proof {
        assert(items.take(i as int) =~= items);
    }
    list
}

/// The origins that may call from a browser: any of them, or those listed. A
/// `*` among the items stands for any.
pub open spec fn cors_origins_of(s: Seq<char>) -> (bool, Seq<Seq<char>>) {
    if list_items(s).contains("*"@) {
        (true, Seq::empty())
    } else {
        (false, list_items(s))
    }
}

/// Reads the list of origins that may call from a browser.
pub fn parse_cors_origins(value: &str) -> (r: (bool, Vec<String>))
    ensures
        (r.0, texts(r.1@)) == cors_origins_of(value@),
{
    let origins: Vec<String> = parse_list(value);
    if contains_text(origins.as_slice(), "*") {
        let none: Vec<String> = Vec::new();
        proof {
            assert(texts(none@) =~= Seq::<Seq<char>>::empty());
        }
        (true, none)
    } else {
        (false, origins)
    }
}

/// The push services that endpoints may be at unless configured otherwise.
pub open spec fn default_push_hosts() -> Seq<char> {
    "fcm.googleapis.com,updates.push.services.mozilla.com,wns.windows.com,notify.windows.com,web.push.apple.com"@
}

/// The configuration that the environment denotes, where nothing is wrong with
/// it.
pub open spec fn config_of(env: Map<Seq<char>, Seq<char>>) -> ConfigView {
    let cors = cors_origins_of(text_var(env, "CORS_ORIGINS"@, "http://localhost:3000"@));
    ConfigView {
        bind_addr: text_var(env, "BIND_ADDR"@, "0.0.0.0:3000"@),
        public_base_url: text_var(env, "PUBLIC_BASE_URL"@, "http://localhost:3000"@),
        db_path: text_var(env, "DB_PATH"@, "httptester.redb"@),
        static_dir: text_var(env, "STATIC_DIR"@, "frontend"@),
        serve_frontend: bool_var(env, "SERVE_FRONTEND"@, true)->0,
        cors_allow_any: cors.0,
        cors_origins: cors.1,
        allowed_push_hosts: list_items(
            text_var(env, "ALLOWED_PUSH_HOSTS"@, default_push_hosts()),
        ),
        webhook_read_timeout_ms: unsigned_var(
            env,
            "WEBHOOK_READ_TIMEOUT_MS"@,
            3000,
            u64::MAX as nat,
        )->Ok_0,
        vapid_public_key: env["VAPID_PUBLIC_KEY"@],
        vapid_private_key: env["VAPID_PRIVATE_KEY"@],
        vapid_subject: text_var(env, "VAPID_SUBJECT"@, "mailto:admin@example.com"@),
        max_payload_bytes: unsigned_var(
            env,
            "MAX_PAYLOAD_BYTES"@,
            102400,
            usize::MAX as nat,
        )->Ok_0,
        chunk_data_bytes: unsigned_var(env, "CHUNK_DATA_BYTES"@, 2400, usize::MAX as nat)->Ok_0,
        chunk_delay_ms: unsigned_var(env, "CHUNK_DELAY_MS"@, 50, u64::MAX as nat)->Ok_0,
        subscription_ttl_days: signed_var(env, "SUBSCRIPTION_TTL_DAYS"@, 30)->Ok_0,
        rate_limit_per_minute: unsigned_var(
            env,
            "RATE_LIMIT_PER_MINUTE"@,
            60,
            u32::MAX as nat,
        )->Ok_0,
        queue_db_path: text_var(env, "QUEUE_DB_PATH"@, "httptester.queue.redb"@),
        queue_max_bytes: unsigned_var(
            env,
            "QUEUE_MAX_BYTES"@,
            1073741824,
            usize::MAX as nat,
        )->Ok_0,
        queue_workers: unsigned_var(env, "QUEUE_WORKERS"@, 8, usize::MAX as nat)->Ok_0,
    }
}

/// The first thing that is wrong with the environment: first the variables in
/// the order in which they are read, then the limits.
pub open spec fn config_error(env: Map<Seq<char>, Seq<char>>) -> Option<ConfigError> {
    if bool_var(env, "SERVE_FRONTEND"@, true) is None {
        Some(ConfigError::InvalidBool)
    } else if let Err(e) = unsigned_var(env, "WEBHOOK_READ_TIMEOUT_MS"@, 3000, u64::MAX as nat) {
        Some(ConfigError::InvalidNumber(e))
    } else if !env.contains_key("VAPID_PUBLIC_KEY"@) {
        Some(ConfigError::VapidPublicKeyRequired)
    } else if !env.contains_key("VAPID_PRIVATE_KEY"@) {
        Some(ConfigError::VapidPrivateKeyRequired)
    } else if let Err(e) = unsigned_var(env, "MAX_PAYLOAD_BYTES"@, 102400, usize::MAX as nat) {
        Some(ConfigError::InvalidNumber(e))
    } else if let Err(e) = unsigned_var(env, "CHUNK_DATA_BYTES"@, 2400, usize::MAX as nat) {
        Some(ConfigError::InvalidNumber(e))
    } else if let Err(e) = unsigned_var(env, "CHUNK_DELAY_MS"@, 50, u64::MAX as nat) {
        Some(ConfigError::InvalidNumber(e))
    } else if let Err(e) = signed_var(env, "SUBSCRIPTION_TTL_DAYS"@, 30) {
        Some(ConfigError::InvalidNumber(e))
    } else if let Err(e) = unsigned_var(env, "RATE_LIMIT_PER_MINUTE"@, 60, u32::MAX as nat) {
        Some(ConfigError::InvalidNumber(e))
    } else if let Err(e) = unsigned_var(env, "QUEUE_MAX_BYTES"@, 1073741824, usize::MAX as nat) {
        Some(ConfigError::InvalidNumber(e))
    } else if let Err(e) = unsigned_var(env, "QUEUE_WORKERS"@, 8, usize::MAX as nat) {
        Some(ConfigError::InvalidNumber(e))
    } else if config_of(env).chunk_data_bytes == 0 {
        Some(ConfigError::ChunkDataBytesZero)
    } else if config_of(env).max_payload_bytes == 0 {
        Some(ConfigError::MaxPayloadBytesZero)
    } else if config_of(env).queue_max_bytes == 0 {
        Some(ConfigError::QueueMaxBytesZero)
    } else if config_of(env).queue_workers == 0 {
        Some(ConfigError::QueueWorkersZero)
    } else if config_of(env).queue_max_bytes > u32::MAX {
        Some(ConfigError::QueueMaxBytesTooLarge)
    } else {
        None
    }
}

impl Config {
    /// Reads the configuration from the environment.
    pub fn from_env(env: &Environment) -> (r: Result<Self, ConfigError>)
        ensures
            match r {
                Ok(cfg) => {
                    &&& config_error(env@) is None
                    &&& cfg@ == config_of(env@)
                    &&& cfg.wf()
                },
                Err(e) => config_error(env@) == Some(e),
            },
    {
        let bind_addr: String = env_or(env, "BIND_ADDR", "0.0.0.0:3000");
        let public_base_url: String = env_or(env, "PUBLIC_BASE_URL", "http://localhost:3000");
        let db_path: String = env_or(env, "DB_PATH", "httptester.redb");
        let static_dir: String = env_or(env, "STATIC_DIR", "frontend");
        let serve_frontend: bool = env_or_bool(env, "SERVE_FRONTEND", true)?;
        let cors_raw: String = env_or(env, "CORS_ORIGINS", "http://localhost:3000");
        let (cors_allow_any, cors_origins) = parse_cors_origins(cors_raw.as_str());
        let allowed_push_hosts_raw: String = env_or(
            env,
            "ALLOWED_PUSH_HOSTS",
            "fcm.googleapis.com,updates.push.services.mozilla.com,wns.windows.com,notify.windows.com,web.push.apple.com",
        );
        let allowed_push_hosts: Vec<String> = parse_list(allowed_push_hosts_raw.as_str());
        let webhook_read_timeout_ms: u64 = env_or_unsigned(
            env,
            "WEBHOOK_READ_TIMEOUT_MS",
            3000,
            u64::MAX,
        )?;
        let vapid_public_key: String = match env.get("VAPID_PUBLIC_KEY") {
            Some(value) => value.to_owned(),
            None => return Err(ConfigError::VapidPublicKeyRequired),
        };
        let vapid_private_key: String = match env.get("VAPID_PRIVATE_KEY") {
            Some(value) => value.to_owned(),
            None => return Err(ConfigError::VapidPrivateKeyRequired),
        };
        let vapid_subject: String = env_or(env, "VAPID_SUBJECT", "mailto:admin@example.com");
        let usize_max: u64 = usize::MAX as u64;
        let max_payload_bytes: u64 = env_or_unsigned(env, "MAX_PAYLOAD_BYTES", 102400, usize_max)?;
        let chunk_data_bytes: u64 = env_or_unsigned(env, "CHUNK_DATA_BYTES", 2400, usize_max)?;
        let chunk_delay_ms: u64 = env_or_unsigned(env, "CHUNK_DELAY_MS", 50, u64::MAX)?;
        let subscription_ttl_days: i64 = env_or_signed(env, "SUBSCRIPTION_TTL_DAYS", 30)?;
        let rate_limit_per_minute: u64 = env_or_unsigned(
            env,
            "RATE_LIMIT_PER_MINUTE",
            60,
            u32::MAX as u64,
        )?;
        let queue_db_path: String = env_or(env, "QUEUE_DB_PATH", "httptester.queue.redb");
        let queue_max_bytes: u64 = env_or_unsigned(env, "QUEUE_MAX_BYTES", 1073741824, usize_max)?;
        let queue_workers: u64 = env_or_unsigned(env, "QUEUE_WORKERS", 8, usize_max)?;

        if chunk_data_bytes == 0 {
            return Err(ConfigError::ChunkDataBytesZero);
        }
        if max_payload_bytes == 0 {
            return Err(ConfigError::MaxPayloadBytesZero);
        }
        if queue_max_bytes == 0 {
            return Err(ConfigError::QueueMaxBytesZero);
        }
        if queue_workers == 0 {
            return Err(ConfigError::QueueWorkersZero);
        }
        if queue_max_bytes > u32::MAX as u64 {
            return Err(ConfigError::QueueMaxBytesTooLarge);
        }
        Ok(
            Config {
                bind_addr,
                public_base_url,
                db_path,
                static_dir,
                serve_frontend,
                cors_allow_any,
                cors_origins,
                allowed_push_hosts,
                webhook_read_timeout_ms,
                vapid_public_key,
                vapid_private_key,
                vapid_subject,
                max_payload_bytes: max_payload_bytes as usize,
                chunk_data_bytes: chunk_data_bytes as usize,
                chunk_delay_ms,
                subscription_ttl_days,
                rate_limit_per_minute: rate_limit_per_minute as u32,
                queue_db_path,
                queue_max_bytes: queue_max_bytes as usize,
                queue_workers: queue_workers as usize,
            },
        )
    }
}

/// Why a public base URL is not acceptable.
#[derive(Clone, Copy, Debug, PartialEq, Eq, Structural)]
pub enum BaseUrlError {
    Invalid,
    Insecure,
}

impl BaseUrlError {
    /// What the error says.
    pub open spec fn spec_message(self) -> Seq<char> {
        match self {
            BaseUrlError::Invalid => "PUBLIC_BASE_URL is not a valid URL"@,
            BaseUrlError::Insecure => "PUBLIC_BASE_URL must be https for non-localhost deployments"@,
        }
    }

    /// What the error says.
    pub fn message(&self) -> (message: String)
        ensures
            message@ == self.spec_message(),
    {
        match self {
            BaseUrlError::Invalid => "PUBLIC_BASE_URL is not a valid URL".to_owned(),
            BaseUrlError::Insecure => {
                "PUBLIC_BASE_URL must be https for non-localhost deployments".to_owned()
            },
        }
    }
}

/// The text, or none at all where there is none.
pub open spec fn text_or_empty(s: Option<Seq<char>>) -> Seq<char> {
    match s {
        Some(s) => s,
        None => Seq::empty(),
    }
}

/// A host name for this machine itself.
pub open spec fn is_localhost(host: Seq<char>) -> bool {
    host == "localhost"@ || host == "127.0.0.1"@ || host == "::1"@
}

/// What is wrong with a base URL, if anything: it has to be one, and to use
/// https unless it is for this machine itself.
pub open spec fn base_url_error(parts: Option<UriPartsView>) -> Option<BaseUrlError> {
    match parts {
        None => Some(BaseUrlError::Invalid),
        Some(parts) => if !same_ignoring_ascii_case(text_or_empty(parts.scheme), "https"@)
            && !is_localhost(text_or_empty(parts.host)) {
            Some(BaseUrlError::Insecure)
        } else {
            None
        },
    }
}

/// The text of an optional string, or none at all where there is none.
pub fn str_or_empty(s: &Option<String>) -> (text: &str)
    ensures
        text@ == text_or_empty(crate::outside::opt_text(*s)),
{
    match s {
        Some(s) => s.as_str(),
        None => {
            proof {
                reveal_strlit("");
                assert(""@ =~= Seq::<char>::empty());
            }
            ""
        },
    }
}

/// Decides whether a base URL with these parts is acceptable.
pub fn check_base_url(parts: &Option<UriParts>) -> (r: Result<(), BaseUrlError>)
    ensures
        match r {
            Ok(()) => base_url_error(opt_parts(*parts)) is None,
            Err(e) => base_url_error(opt_parts(*parts)) == Some(e),
        },
{
    match parts {
        None => Err(BaseUrlError::Invalid),
        Some(parts) => {
            let host: &str = str_or_empty(&parts.host);
            let is_localhost: bool = same_text(host, "localhost") || same_text(host, "127.0.0.1")
                || same_text(host, "::1");
            let scheme: &str = str_or_empty(&parts.scheme);
            if !scheme.eq_ignore_ascii_case("https") && !is_localhost {
                Err(BaseUrlError::Insecure)
            } else {
                Ok(())
            }
        },
    }
}

/// The content of optional URL parts.
pub open spec fn opt_parts(parts: Option<UriParts>) -> Option<UriPartsView> {
    match parts {
        Some(p) => Some(p@),
        None => None,
    }
}

/// Decides whether `value` is acceptable as the public base URL.
pub fn ensure_secure_base_url(value: &str) -> (r: Result<(), BaseUrlError>)
    ensures
        match r {
            Ok(()) => base_url_error(uri_parts(value@)) is None,
            Err(e) => base_url_error(uri_parts(value@)) == Some(e),
        },
{
    check_base_url(&parse_uri(value))
}

/// The items of a text without a comma: itself without white space around it, if
/// anything is left.
pub proof fn law_one_item(s: Seq<char>)
    requires
        !s.contains(','),
    ensures
        list_items(s) == if trimmed(s).len() == 0 {
            Seq::<Seq<char>>::empty()
        } else {
            seq![trimmed(s)]
        },
{
    law_one_field(s, ',');
    let all = seq![s].map_values(|field: Seq<char>| trimmed(field));
    assert(all =~= seq![trimmed(s)]);
    assert(all.drop_last() =~= Seq::<Seq<char>>::empty());
    reveal_with_fuel(Seq::filter, 2);
    assert(list_items(s) =~= if trimmed(s).len() == 0 {
        Seq::<Seq<char>>::empty()
    } else {
        seq![trimmed(s)]
    });
}

/// The items of two texts with a comma between them are those of the one and those
/// of the other.
pub proof fn law_items_around_comma(a: Seq<char>, b: Seq<char>)
    ensures
        list_items(a.push(',') + b) == list_items(a) + list_items(b),
{
    law_fields_around_separator(a, b, ',');
    let trim = |field: Seq<char>| trimmed(field);
    let keep = |item: Seq<char>| item.len() > 0;
    let left = fields(a, ',').map_values(trim);
    let right = fields(b, ',').map_values(trim);
    assert((fields(a, ',') + fields(b, ',')).map_values(trim) =~= left + right);
    Seq::filter_distributes_over_add(left, right, keep);
}

/// Any origin may call exactly if `*` is among the items; then no origin is
/// listed, and else all of them are.
pub proof fn law_cors_origins(s: Seq<char>)
    ensures
        cors_origins_of(s).0 <==> exists|i: int|
            0 <= i < list_items(s).len() && #[trigger] list_items(s)[i] == "*"@,
        cors_origins_of(s).0 ==> cors_origins_of(s).1.len() == 0,
        !cors_origins_of(s).0 ==> cors_origins_of(s).1 == list_items(s),
{
}

/// An environment holds a configuration exactly if both keys are there, every
/// variable that is set can be read, and no limit is out of bounds.
pub proof fn law_configuration_is_accepted(env: Map<Seq<char>, Seq<char>>)
    ensures
        config_error(env) is None <==> ({
            &&& env.contains_key("VAPID_PUBLIC_KEY"@)
            &&& env.contains_key("VAPID_PRIVATE_KEY"@)
            &&& env.contains_key("SERVE_FRONTEND"@) ==> env["SERVE_FRONTEND"@] == "true"@
                || env["SERVE_FRONTEND"@] == "false"@
            &&& env.contains_key("SUBSCRIPTION_TTL_DAYS"@) ==> signed_value(
                env["SUBSCRIPTION_TTL_DAYS"@],
            ) is Ok
            &&& env.contains_key("WEBHOOK_READ_TIMEOUT_MS"@) ==> unsigned_value(
                env["WEBHOOK_READ_TIMEOUT_MS"@],
                18446744073709551615,
            ) is Ok
            &&& env.contains_key("MAX_PAYLOAD_BYTES"@) ==> unsigned_value(
                env["MAX_PAYLOAD_BYTES"@],
                usize::MAX as nat,
            ) is Ok
            &&& env.contains_key("CHUNK_DATA_BYTES"@) ==> unsigned_value(
                env["CHUNK_DATA_BYTES"@],
                usize::MAX as nat,
            ) is Ok
            &&& env.contains_key("CHUNK_DELAY_MS"@) ==> unsigned_value(
                env["CHUNK_DELAY_MS"@],
                18446744073709551615,
            ) is Ok
            &&& env.contains_key("RATE_LIMIT_PER_MINUTE"@) ==> unsigned_value(
                env["RATE_LIMIT_PER_MINUTE"@],
                4294967295,
            ) is Ok
            &&& env.contains_key("QUEUE_MAX_BYTES"@) ==> unsigned_value(
                env["QUEUE_MAX_BYTES"@],
                usize::MAX as nat,
            ) is Ok
            &&& env.contains_key("QUEUE_WORKERS"@) ==> unsigned_value(
                env["QUEUE_WORKERS"@],
                usize::MAX as nat,
            ) is Ok
            &&& config_of(env).chunk_data_bytes >= 1
            &&& config_of(env).max_payload_bytes >= 1
            &&& 1 <= config_of(env).queue_max_bytes <= 4294967295
            &&& config_of(env).queue_workers >= 1
        }),
{
}

/// What a configuration holds: of each variable that is set its value, and of each
/// other the default.
pub proof fn law_configuration_holds_variables(env: Map<Seq<char>, Seq<char>>)
    requires
        config_error(env) is None,
    ensures
        ({
            let cfg = config_of(env);
            &&& env.contains_key("BIND_ADDR"@) ==> cfg.bind_addr == env["BIND_ADDR"@]
            &&& !env.contains_key("BIND_ADDR"@) ==> cfg.bind_addr == "0.0.0.0:3000"@
            &&& env.contains_key("PUBLIC_BASE_URL"@) ==> cfg.public_base_url == env["PUBLIC_BASE_URL"@]
            &&& !env.contains_key("PUBLIC_BASE_URL"@) ==> cfg.public_base_url == "http://localhost:3000"@
            &&& env.contains_key("DB_PATH"@) ==> cfg.db_path == env["DB_PATH"@]
            &&& !env.contains_key("DB_PATH"@) ==> cfg.db_path == "httptester.redb"@
            &&& env.contains_key("STATIC_DIR"@) ==> cfg.static_dir == env["STATIC_DIR"@]
            &&& !env.contains_key("STATIC_DIR"@) ==> cfg.static_dir == "frontend"@
            &&& env.contains_key("VAPID_SUBJECT"@) ==> cfg.vapid_subject == env["VAPID_SUBJECT"@]
            &&& !env.contains_key("VAPID_SUBJECT"@) ==> cfg.vapid_subject == "mailto:admin@example.com"@
            &&& env.contains_key("QUEUE_DB_PATH"@) ==> cfg.queue_db_path == env["QUEUE_DB_PATH"@]
            &&& !env.contains_key("QUEUE_DB_PATH"@) ==> cfg.queue_db_path == "httptester.queue.redb"@
            &&& cfg.vapid_public_key == env["VAPID_PUBLIC_KEY"@]
            &&& cfg.vapid_private_key == env["VAPID_PRIVATE_KEY"@]
            &&& cfg.serve_frontend <==> !env.contains_key("SERVE_FRONTEND"@)
                || env["SERVE_FRONTEND"@] == "true"@
            &&& env.contains_key("CORS_ORIGINS"@) ==> (cfg.cors_allow_any, cfg.cors_origins)
                == cors_origins_of(env["CORS_ORIGINS"@])
            &&& !env.contains_key("CORS_ORIGINS"@) ==> (cfg.cors_allow_any, cfg.cors_origins)
                == cors_origins_of("http://localhost:3000"@)
            &&& env.contains_key("ALLOWED_PUSH_HOSTS"@) ==> cfg.allowed_push_hosts == list_items(
                env["ALLOWED_PUSH_HOSTS"@],
            )
            &&& !env.contains_key("ALLOWED_PUSH_HOSTS"@) ==> cfg.allowed_push_hosts == list_items(
                "fcm.googleapis.com,updates.push.services.mozilla.com,wns.windows.com,notify.windows.com,web.push.apple.com"@,
            )
            &&& env.contains_key("SUBSCRIPTION_TTL_DAYS"@) ==> signed_value(
                env["SUBSCRIPTION_TTL_DAYS"@],
            ) == Ok::<int, NumberError>(cfg.subscription_ttl_days)
            &&& !env.contains_key("SUBSCRIPTION_TTL_DAYS"@) ==> cfg.subscription_ttl_days == 30
            &&& env.contains_key("WEBHOOK_READ_TIMEOUT_MS"@) ==> unsigned_value(
                env["WEBHOOK_READ_TIMEOUT_MS"@],
                18446744073709551615,
            ) == Ok::<nat, NumberError>(cfg.webhook_read_timeout_ms)
            &&& !env.contains_key("WEBHOOK_READ_TIMEOUT_MS"@) ==> cfg.webhook_read_timeout_ms == 3000
            &&& env.contains_key("MAX_PAYLOAD_BYTES"@) ==> unsigned_value(
                env["MAX_PAYLOAD_BYTES"@],
                usize::MAX as nat,
            ) == Ok::<nat, NumberError>(cfg.max_payload_bytes)
            &&& !env.contains_key("MAX_PAYLOAD_BYTES"@) ==> cfg.max_payload_bytes == 102400
            &&& env.contains_key("CHUNK_DATA_BYTES"@) ==> unsigned_value(
                env["CHUNK_DATA_BYTES"@],
                usize::MAX as nat,
            ) == Ok::<nat, NumberError>(cfg.chunk_data_bytes)
            &&& !env.contains_key("CHUNK_DATA_BYTES"@) ==> cfg.chunk_data_bytes == 2400
            &&& env.contains_key("CHUNK_DELAY_MS"@) ==> unsigned_value(
                env["CHUNK_DELAY_MS"@],
                18446744073709551615,
            ) == Ok::<nat, NumberError>(cfg.chunk_delay_ms)
            &&& !env.contains_key("CHUNK_DELAY_MS"@) ==> cfg.chunk_delay_ms == 50
            &&& env.contains_key("RATE_LIMIT_PER_MINUTE"@) ==> unsigned_value(
                env["RATE_LIMIT_PER_MINUTE"@],
                4294967295,
            ) == Ok::<nat, NumberError>(cfg.rate_limit_per_minute)
            &&& !env.contains_key("RATE_LIMIT_PER_MINUTE"@) ==> cfg.rate_limit_per_minute == 60
            &&& env.contains_key("QUEUE_MAX_BYTES"@) ==> unsigned_value(
                env["QUEUE_MAX_BYTES"@],
                usize::MAX as nat,
            ) == Ok::<nat, NumberError>(cfg.queue_max_bytes)
            &&& !env.contains_key("QUEUE_MAX_BYTES"@) ==> cfg.queue_max_bytes == 1073741824
            &&& env.contains_key("QUEUE_WORKERS"@) ==> unsigned_value(
                env["QUEUE_WORKERS"@],
                usize::MAX as nat,
            ) == Ok::<nat, NumberError>(cfg.queue_workers)
            &&& !env.contains_key("QUEUE_WORKERS"@) ==> cfg.queue_workers == 8
        }),
{
}

/// A base URL is acceptable exactly if it is a URL and uses https, in any case of
/// its letters, or names this machine itself as its host.
pub proof fn law_base_url(parts: Option<UriPartsView>)
    ensures
        base_url_error(parts) is None <==> parts is Some && (({
            &&& parts->0.scheme is Some
            &&& same_ignoring_ascii_case(parts->0.scheme->0, "https"@)
        }) || parts->0.host == Some("localhost"@) || parts->0.host == Some("127.0.0.1"@)
            || parts->0.host == Some("::1"@)),
        base_url_error(parts) == Some(BaseUrlError::Invalid) <==> parts is None,
{
    reveal_strlit("https");
    reveal_strlit("localhost");
    reveal_strlit("127.0.0.1");
    reveal_strlit("::1");
    assert("https"@.len() == 5 && "localhost"@.len() == 9 && "127.0.0.1"@.len() == 9 && "::1"@.len()
        == 3);
    assert(text_or_empty(None).len() == 0);
}

/// What is reported of an environment without a configuration is wrong with it.
pub proof fn law_configuration_faults(env: Map<Seq<char>, Seq<char>>)
    ensures
        match config_error(env) {
            None => true,
            Some(ConfigError::InvalidBool) => {
                &&& env.contains_key("SERVE_FRONTEND"@)
                &&& env["SERVE_FRONTEND"@] != "true"@
                &&& env["SERVE_FRONTEND"@] != "false"@
            },
            Some(ConfigError::VapidPublicKeyRequired) => !env.contains_key("VAPID_PUBLIC_KEY"@),
            Some(ConfigError::VapidPrivateKeyRequired) => {
                &&& !env.contains_key("VAPID_PRIVATE_KEY"@)
                &&& env.contains_key("VAPID_PUBLIC_KEY"@)
            },
            Some(ConfigError::InvalidNumber(e)) => {
                let signed = |name: Seq<char>|
                    env.contains_key(name) && signed_value(env[name]) == Err::<int, NumberError>(e);
                let unsigned = |name: Seq<char>, max: nat|
                    env.contains_key(name) && unsigned_value(env[name], max) == Err::<
                        nat,
                        NumberError,
                    >(e);
                ||| unsigned("WEBHOOK_READ_TIMEOUT_MS"@, 18446744073709551615)
                ||| unsigned("MAX_PAYLOAD_BYTES"@, usize::MAX as nat)
                ||| unsigned("CHUNK_DATA_BYTES"@, usize::MAX as nat)
                ||| unsigned("CHUNK_DELAY_MS"@, 18446744073709551615)
                ||| signed("SUBSCRIPTION_TTL_DAYS"@)
                ||| unsigned("RATE_LIMIT_PER_MINUTE"@, 4294967295)
                ||| unsigned("QUEUE_MAX_BYTES"@, usize::MAX as nat)
                ||| unsigned("QUEUE_WORKERS"@, usize::MAX as nat)
            },
            Some(ConfigError::ChunkDataBytesZero) => config_of(env).chunk_data_bytes == 0,
            Some(ConfigError::MaxPayloadBytesZero) => config_of(env).max_payload_bytes == 0,
            Some(ConfigError::QueueMaxBytesZero) => config_of(env).queue_max_bytes == 0,
            Some(ConfigError::QueueWorkersZero) => config_of(env).queue_workers == 0,
            Some(ConfigError::QueueMaxBytesTooLarge) => config_of(env).queue_max_bytes
                > 4294967295,
        },
{
}

} // verus!
