//! The service's settings and the environment it runs in.
use vstd::prelude::*;
use vstd::string::*;
use crate::text::{str_eq, concat3};

verus! {

/// Logging settings.
#[derive(Debug, Clone)]
pub struct Log {
    pub level: String,
    pub log_dir: String,
    pub log_prefix: String,
    pub appender: String,
}

/// How to reach the media server's event socket.
#[derive(Debug, Clone)]
pub struct EslClient {
    pub host: String,
    pub auth: String,
}

/// Credentials for the media server's HTTP interface.
#[derive(Debug, Clone)]
pub struct FsHttpClient {
    pub user_name: String,
    pub password: String,
}

/// Settings of the HTTP server and of the gRPC connections it opens.
#[derive(Debug, Clone)]
pub struct HttpServer {
    pub port: u16,
    pub url: String,
    pub token_file: String,
    pub grpc_connection_pool: usize,
    pub tls_cert_file: String,
}

/// Where the datagram socket lives.
#[derive(Debug, Clone)]
pub struct UdpServer {
    pub socket_file: String,
}

/// The environment the service runs in.
#[derive(Clone, Copy, Debug, PartialEq, Eq, Structural)]
pub enum ENV {
    Development,
    Testing,
    Production,
}

/// All settings.
#[derive(Debug, Clone)]
pub struct Settings {
    pub log: Log,
    pub http_server: HttpServer,
    pub udp_server: UdpServer,
    pub env: ENV,
    pub fs_esl_client: EslClient,
    pub fs_http_client: FsHttpClient,
}

/// The name of an environment.
pub open spec fn env_name(e: ENV) -> Seq<char> {
    match e {
        ENV::Development => "Development"@,
        ENV::Testing => "Testing"@,
        ENV::Production => "Production"@,
    }
}

/// The environment a name stands for: `Testing` and `Production` stand for
/// themselves, anything else for development.
pub open spec fn env_from_name(name: Seq<char>) -> ENV {
    if name == "Testing"@ {
        ENV::Testing
    } else if name == "Production"@ {
        ENV::Production
    } else {
        ENV::Development
    }
}

impl ENV {
    /// The name of the environment.
    pub fn to_string(&self) -> (s: String)
        ensures
            s@ == env_name(*self),
    {
        match self {
            ENV::Development => String::from_str("Development"),
            ENV::Testing => String::from_str("Testing"),
            ENV::Production => String::from_str("Production"),
        }
    }
}

impl<'a> From<&'a str> for ENV {
    fn from(env: &'a str) -> (r: ENV) {
        if str_eq(env, "Testing") {
            ENV::Testing
        } else if str_eq(env, "Production") {
            ENV::Production
        } else {
            ENV::Development
        }
    }
}

impl<'a> vstd::std_specs::convert::FromSpecImpl<&'a str> for ENV {
    open spec fn obeys_from_spec() -> bool {
        true
    }

    open spec fn from_spec(env: &'a str) -> ENV {
        env_from_name(env@)
    }
}

/// Reading back the name of an environment gives the same environment.
pub proof fn lemma_env_name_round_trip(e: ENV)
    ensures
        env_from_name(env_name(e)) == e,
{
    reveal_strlit("Development");
    reveal_strlit("Testing");
    reveal_strlit("Production");
    assert("Development"@.len() != "Testing"@.len());
    assert("Development"@.len() != "Production"@.len());
    assert("Testing"@.len() != "Production"@.len());
}

/// Only the exact names `Testing` and `Production` select those
/// environments; every other name, whatever its case, selects development.
pub proof fn lemma_env_from_name_cases(name: Seq<char>)
    ensures
        name == "Testing"@ ==> env_from_name(name) == ENV::Testing,
        name == "Production"@ ==> env_from_name(name) == ENV::Production,
        name != "Testing"@ && name != "Production"@ ==> env_from_name(name) == ENV::Development,
{
    reveal_strlit("Testing");
    reveal_strlit("Production");
    assert("Testing"@.len() != "Production"@.len());
}

/// The settings file read first.
pub const CONFIG_FILE_PATH: &'static str = "./config/default.toml";
/// The directory of the per-environment settings files.
pub const CONFIG_FILE_PREFIX: &'static str = "./config/";

/// Result of `str::to_lowercase`: Unicode lower-case mapping, which depends on
/// the text alone.
pub uninterp spec fn spec_to_lowercase(s: Seq<char>) -> Seq<char>;

/// Calls `str::to_lowercase`; the result is named, not written out.
#[verifier::external_body]
fn to_lowercase(s: &str) -> (r: String)
    ensures
        r@ == spec_to_lowercase(s@),
{
    s.to_lowercase()
}

/// The settings file of an environment: `./config/<lower-case name>.toml`.
pub fn env_config_file(env: &str) -> (path: String)
    ensures
        path@ == "./config/"@ + spec_to_lowercase(env@) + ".toml"@,
{
    let lower = to_lowercase(env);
    concat3("./config/", lower.as_str(), ".toml")
}

/// The environment name to run under: the one given, or `Development`.
pub fn run_env_or_default(given: Option<String>) -> (env: String)
    ensures
        env@ == (match given {
            Some(s) => s@,
            None => "Development"@,
        }),
{
    match given {
        Some(s) => s,
        None => String::from_str("Development"),
    }
}


/// Logs go to daily files only when the appender is `file`; otherwise to standard output.
pub fn logs_to_file(log: &Log) -> (r: bool)
    ensures
        r == (log.appender@ == "file"@),
{
    str_eq(log.appender.as_str(), "file")
}

} // verus!
