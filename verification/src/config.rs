//! The configuration of the two programs.

use vstd::prelude::*;
use vstd::std_specs::convert::FromSpec;

verus! {

/// The configuration of the server.
#[derive(Debug, Clone)]
pub struct ServerConfig {
    /// The address on which clients reach the server.
    pub ws_addr: String,
    /// The path that a client has to ask for.
    pub ws_path: String,
    /// The clients that the server admits.
    pub clients: Vec<Client>,
}

/// A client that the server admits.
#[derive(Debug, Clone)]
pub struct Client {
    /// The address on which the server accepts connections on behalf of this client.
    pub tcp_addr: String,
    /// The client's user name.
    pub username: String,
    /// The client's password.
    pub password: String,
}

/// The configuration of a client.
#[derive(Debug)]
pub struct ClientConfig {
    /// The address to which the client relays the connections.
    pub tcp_addr: String,
    /// Where the server is reached.
    pub ws_url: String,
    /// The user name that the client gives to the server.
    pub username: String,
    /// The password that the client gives to the server.
    pub password: String,
}

/// An error of the operating system, which nothing here looks into.
#[verifier::external_type_specification]
#[verifier::external_body]
pub struct ExIoError(std::io::Error);

/// The error of a failed JSON parse, which nothing here looks into.
#[verifier::external_type_specification]
#[verifier::external_body]
pub struct ExJsonError(serde_json::Error);

/// Why a configuration could not be loaded.
#[derive(Debug)]
pub enum ConfigError {
    /// The file could not be read.
    Io(std::io::Error),
    /// The file does not hold the expected JSON.
    Json(serde_json::Error),
}

impl From<std::io::Error> for ConfigError {
    fn from(e: std::io::Error) -> (r: Self) {
        Self::Io(e)
    }
}

impl vstd::std_specs::convert::FromSpecImpl<std::io::Error> for ConfigError {
    open spec fn obeys_from_spec() -> bool {
        true
    }

    open spec fn from_spec(e: std::io::Error) -> Self {
        ConfigError::Io(e)
    }
}

impl From<serde_json::Error> for ConfigError {
    fn from(e: serde_json::Error) -> (r: Self) {
        Self::Json(e)
    }
}

impl vstd::std_specs::convert::FromSpecImpl<serde_json::Error> for ConfigError {
    open spec fn obeys_from_spec() -> bool {
        true
    }

    open spec fn from_spec(e: serde_json::Error) -> Self {
        ConfigError::Json(e)
    }
}

/// A configuration that could not be loaded keeps its cause.
pub proof fn law_config_errors_keep_their_cause(io: std::io::Error, json: serde_json::Error)
    ensures
        <ConfigError as FromSpec<std::io::Error>>::from_spec(io) == ConfigError::Io(io),
        <ConfigError as FromSpec<serde_json::Error>>::from_spec(json) == ConfigError::Json(json),
{
}

} // verus!
