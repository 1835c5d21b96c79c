//! Configuration as the core sees it: plain values, already read and
//! parsed outside, plus the defaults that hold where the file stays
//! silent.

use vstd::prelude::*;
use vstd::string::*;
use crate::models::{AppConfig, DomainError, MikrotikConfig};

verus! {

pub fn default_log_level() -> (r: String)
    ensures
        r@ == "info"@,
{
    "info".to_owned()
}

pub fn default_bind_address() -> (r: String)
    ensures
        r@ == "127.0.0.1"@,
{
    "127.0.0.1".to_owned()
}

pub fn default_bind_port() -> (r: u16)
    ensures
        r == 3217,
{
    3217
}

pub fn default_static_files_path() -> (r: String)
    ensures
        r@ == "./asset"@,
{
    "./asset".to_owned()
}

pub fn default_session_secret() -> (r: String)
    ensures
        r@ == "change-me-in-production"@,
{
    "change-me-in-production".to_owned()
}

pub fn default_ping_interval() -> (r: u64)
    ensures
        r == 2,
{
    2
}

pub fn default_timeout() -> (r: u64)
    ensures
        r == 10,
{
    10
}

/// A source of the two configurations the system runs on.
pub trait ConfigService {
    /// The device configuration this service hands out.
    spec fn mikrotik_view(&self) -> MikrotikConfig;

    /// The application configuration this service hands out.
    spec fn app_view(&self) -> AppConfig;

    fn get_mikrotik_config(&self) -> (r: Result<MikrotikConfig, DomainError>)
        ensures
            r matches Ok(c) ==> c == self.mikrotik_view(),
    ;

    fn get_app_config(&self) -> (r: Result<AppConfig, DomainError>)
        ensures
            r matches Ok(c) ==> c == self.app_view(),
    ;
}

/// Configuration read from a file: the parsed values are stored here
/// and handed out unchanged.
pub struct FileConfigService {
    mikrotik: MikrotikConfig,
    app: AppConfig,
}

impl FileConfigService {
    pub fn new(mikrotik: MikrotikConfig, app: AppConfig) -> (r: Self)
        ensures
            r.mikrotik_view() == mikrotik,
            r.app_view() == app,
    {
        Self { mikrotik, app }
    }
}

impl ConfigService for FileConfigService {
    closed spec fn mikrotik_view(&self) -> MikrotikConfig {
        self.mikrotik
    }

    closed spec fn app_view(&self) -> AppConfig {
        self.app
    }

    fn get_mikrotik_config(&self) -> (r: Result<MikrotikConfig, DomainError>) {
        Ok(self.mikrotik.clone())
    }

    fn get_app_config(&self) -> (r: Result<AppConfig, DomainError>) {
        Ok(self.app.clone())
    }
}

} // verus!
