//! The resolved startup configuration: listen address and CORS surface.
//! Reading the configuration file and the environment happens outside; the
//! precedence rules live here.
use vstd::prelude::*;

use crate::cors::CorsConfig;

verus! {

/// What the server needs to know at startup.
pub struct Config {
    pub host: String,
    pub port: u16,
    pub cors: CorsConfig,
}

impl Config {
    /// The built-in defaults: local loopback on port 8081.
    pub fn default() -> (r: Config)
        ensures
            r.host@ == "127.0.0.1"@,
            r.port == 8081,
    {
        Config { host: String::from_str("127.0.0.1"), port: 8081, cors: CorsConfig::default() }
    }

    /// The effective port: an environment override wins over the
    /// configuration file, which wins over the default.
    pub fn resolve_port(env_port: Option<u16>, file_port: Option<u16>) -> (r: u16)
        ensures
            r == match env_port {
                Some(p) => p,
                None => match file_port {
                    Some(p) => p,
                    None => 8081u16,
                },
            },
    {
        match env_port {
            Some(p) => p,
            None => match file_port {
                Some(p) => p,
                None => 8081,
            },
        }
    }

    /// The effective host: the configuration file value, or the default.
    pub fn resolve_host(file_host: Option<String>) -> (r: String)
        ensures
            r@ == match file_host {
                Some(h) => h@,
                None => "127.0.0.1"@,
            },
    {
        match file_host {
            Some(h) => h,
            None => String::from_str("127.0.0.1"),
        }
    }

    /// Assembles the startup configuration from what the file and the
    /// environment offered.
    pub fn from_parts(
        file_host: Option<String>,
        file_port: Option<u16>,
        env_port: Option<u16>,
        cors: CorsConfig,
    ) -> (r: Config)
        ensures
            r.host@ == match file_host {
                Some(h) => h@,
                None => "127.0.0.1"@,
            },
            r.port == match env_port {
                Some(p) => p,
                None => match file_port {
                    Some(p) => p,
                    None => 8081u16,
                },
            },
            r.cors == cors,
    {
        Config {
            host: Config::resolve_host(file_host),
            port: Config::resolve_port(env_port, file_port),
            cors,
        }
    }
}

} // verus!
