//! The configuration records that collaborators construct once at
//! process start and pass into the library: database connection
//! parameters, the signing secret and token lifetime, and the service
//! name. Reading them from the environment is the caller's business.

use vstd::prelude::*;

verus! {

/// Storage connection parameters.
#[derive(Clone)]
pub struct DbConfig {
    pub user: String,
    pub password: String,
    pub host: String,
    pub port: u16,
    pub dbname: String,
    pub pool_max_size: usize,
}

/// The signing secret and the token lifetime in days.
#[derive(Clone)]
pub struct SecurityConfig {
    pub secret_key: String,
    pub expired_jwt_days: u32,
}

/// Everything the process is configured with.
#[derive(Clone)]
pub struct Config {
    pub database_config: DbConfig,
    pub security_config: SecurityConfig,
    pub service_name: String,
}

} // verus!
