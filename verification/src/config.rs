//! Service configuration: ports, the relational store's connection
//! parameters, and tracing endpoints, with the defaults the environment
//! loader falls back to.

use vstd::prelude::*;

use crate::strfmt::{dec_rep, u64_to_string};

verus! {

/// Tracing configuration.
#[derive(Clone, Debug)]
pub struct TracingConfig {
    pub service_name_prefix: Option<String>,
    pub jaeger_agent_endpoint: Option<String>,
}

/// The whole service configuration.
#[derive(Clone, Debug)]
pub struct Config {
    pub port: u16,
    pub metrics_port: u16,
    pub postgres: PostgresConfig,
    pub tracing: TracingConfig,
}

/// Connection parameters of the relational store.
#[derive(Clone, Debug)]
pub struct PostgresConfig {
    pub host: String,
    pub port: u16,
    pub database: String,
    pub user: String,
    pub password: String,
    pub pool_size: u8,
}

/// The default HTTP port.
pub fn default_port() -> (r: u16)
    ensures
        r == 8080,
{
    8080
}

/// The default metrics port.
pub fn default_metrics_port() -> (r: u16)
    ensures
        r == 9090,
{
    9090
}

/// The default store port.
pub fn default_pgport() -> (r: u16)
    ensures
        r == 5432,
{
    5432
}

/// The default connection pool size.
pub fn default_pgpoolsize() -> (r: u8)
    ensures
        r == 4,
{
    4
}

/// The connection URL a store client is built from.
pub open spec fn connection_url_text(c: PostgresConfig) -> Seq<char> {
    "postgres://"@ + c.user@ + ":"@ + c.password@ + "@"@ + c.host@ + ":"@ + dec_rep(c.port as nat)
        + "/"@ + c.database@
}

/// Renders the store connection URL.
pub fn connection_url(c: &PostgresConfig) -> (r: String)
    ensures
        r@ == connection_url_text(*c),
{
    let mut r = String::from_str("postgres://");
    r.append(c.user.as_str());
    r.append(":");
    r.append(c.password.as_str());
    r.append("@");
    r.append(c.host.as_str());
    r.append(":");
    r.append(u64_to_string(c.port as u64).as_str());
    r.append("/");
    r.append(c.database.as_str());
    proof {
        assert(r@ =~= connection_url_text(*c));
    }
    r
}

} // verus!
