//! The domain types: sessions, their latency, the authenticated user,
//! the device configuration, and the error taxonomy shared by every
//! component.

use vstd::prelude::*;
use vstd::string::*;
use crate::decimal::{append_u64, dec_digits};
use crate::ipv4::{Ipv4Address, is_dotted_quad_at, is_ipv4, ipv4_at, parse_ipv4};

verus! {

/// The abstract value of a [`VpnUser`]: every string field as a
/// character sequence.
pub ghost struct VpnUserView {
    pub id: Seq<char>,
    pub name: Seq<char>,
    pub service: Option<Seq<char>>,
    pub caller_id: Option<Seq<char>>,
    pub address: Seq<char>,
    pub uptime: Seq<char>,
    pub comment: Option<Seq<char>>,
    pub latency: Option<u64>,
    pub is_active: bool,
}

/// A connected peer as last observed on the concentrator.  `name` is the
/// stable identifier sessions are keyed by; `latency` is the most recent
/// round-trip time in microseconds, `None` while unmeasured or
/// unreachable.
#[derive(Debug, PartialEq, Eq)]
pub struct VpnUser {
    pub id: String,
    pub name: String,
    pub service: Option<String>,
    pub caller_id: Option<String>,
    pub address: String,
    pub uptime: String,
    pub comment: Option<String>,
    pub latency: Option<u64>,
    pub is_active: bool,
}

impl View for VpnUser {
    type V = VpnUserView;

    open spec fn view(&self) -> VpnUserView {
        VpnUserView {
            id: self.id@,
            name: self.name@,
            service: self.service.deep_view(),
            caller_id: self.caller_id.deep_view(),
            address: self.address@,
            uptime: self.uptime@,
            comment: self.comment.deep_view(),
            latency: self.latency,
            is_active: self.is_active,
        }
    }
}

impl DeepView for VpnUser {
    type V = VpnUserView;

    open spec fn deep_view(&self) -> VpnUserView {
        self.view()
    }
}

/// Relies on `uuid::Uuid::new_v4` and its `Display` form: a fresh random
/// version-4 UUID, printed in the 36-character hyphenated spelling.  The
/// value is random, so nothing is said beyond its length.
#[verifier::external_body]
fn fresh_session_id() -> (r: String)
    ensures
        r@.len() == 36,
{
    uuid::Uuid::new_v4().to_string()
}

pub(crate) fn clone_opt_string(o: &Option<String>) -> (r: Option<String>)
    ensures
        r == o,
{
    match o {
        Some(s) => Some(s.clone()),
        None => None,
    }
}

impl Clone for VpnUser {
    fn clone(&self) -> (res: Self)
        ensures
            res == *self,
    {
        VpnUser {
            id: self.id.clone(),
            name: self.name.clone(),
            service: clone_opt_string(&self.service),
            caller_id: clone_opt_string(&self.caller_id),
            address: self.address.clone(),
            uptime: self.uptime.clone(),
            comment: clone_opt_string(&self.comment),
            latency: self.latency,
            is_active: self.is_active,
        }
    }
}

impl VpnUser {
    /// A newly observed session: fresh identifier, no measurement yet,
    /// considered active.
    pub fn new(
        name: String,
        service: Option<String>,
        caller_id: Option<String>,
        address: String,
        uptime: String,
        comment: Option<String>,
    ) -> (r: Self)
        ensures
            r@.id.len() == 36,
            r@.name == name@,
            r@.service == service.deep_view(),
            r@.caller_id == caller_id.deep_view(),
            r@.address == address@,
            r@.uptime == uptime@,
            r@.comment == comment.deep_view(),
            r@.latency is None,
            r@.is_active,
    {
        Self {
            id: fresh_session_id(),
            name,
            service,
            caller_id,
            address,
            uptime,
            comment,
            latency: None,
            is_active: true,
        }
    }

    /// The parsed peer address, when the stored text is a well-formed
    /// dotted quad.
    pub fn get_ip_address(&self) -> (r: Option<Ipv4Address>)
        ensures
            r.is_some() <==> is_ipv4(self.address@),
            r matches Some(addr) ==> exists|i: int, j: int, k: int|
                is_dotted_quad_at(self.address@, i, j, k) && addr == ipv4_at(self.address@, i, j, k),
    {
        parse_ipv4(self.address.as_str())
    }

    pub fn update_latency(&mut self, latency: Option<u64>)
        ensures
            final(self)@ == (VpnUserView { latency, ..old(self)@ }),
    {
        self.latency = latency;
    }

    pub fn set_inactive(&mut self)
        ensures
            final(self)@ == (VpnUserView { is_active: false, ..old(self)@ }),
    {
        self.is_active = false;
    }
}

/// The user of the front end, as the credential check last saw them.
#[derive(Debug, PartialEq, Eq)]
pub struct AuthUser {
    pub username: String,
    pub is_authenticated: bool,
}

impl Clone for AuthUser {
    fn clone(&self) -> (res: Self)
        ensures
            res == *self,
    {
        AuthUser { username: self.username.clone(), is_authenticated: self.is_authenticated }
    }
}

impl AuthUser {
    pub fn new(username: String) -> (r: Self)
        ensures
            r.username@ == username@,
            r.is_authenticated,
    {
        Self { username, is_authenticated: true }
    }

    pub fn anonymous() -> (r: Self)
        ensures
            r.username@ == "anonymous"@,
            !r.is_authenticated,
    {
        Self { username: "anonymous".to_owned(), is_authenticated: false }
    }
}

/// One probe result or one externally reported measurement, on its way
/// into the cache.  `latency` is in microseconds, `None` for a timeout
/// or an unreachable peer.
#[derive(Debug, PartialEq, Eq)]
pub struct LatencyUpdate {
    pub user_name: String,
    pub latency: Option<u64>,
}

impl Clone for LatencyUpdate {
    fn clone(&self) -> (res: Self)
        ensures
            res == *self,
    {
        LatencyUpdate { user_name: self.user_name.clone(), latency: self.latency }
    }
}

/// How to reach the concentrator's management interface.
#[derive(Debug, PartialEq, Eq)]
pub struct MikrotikConfig {
    pub protocol: String,
    pub address: String,
    pub port: u16,
    pub username: String,
    pub password: String,
    pub timeout_seconds: u64,
}

impl Clone for MikrotikConfig {
    fn clone(&self) -> (res: Self)
        ensures
            res == *self,
    {
        MikrotikConfig {
            protocol: self.protocol.clone(),
            address: self.address.clone(),
            port: self.port,
            username: self.username.clone(),
            password: self.password.clone(),
            timeout_seconds: self.timeout_seconds,
        }
    }
}

impl MikrotikConfig {
    /// `protocol://address:port`.
    pub fn base_url(&self) -> (r: String)
        ensures
            r@ == self.protocol@ + "://"@ + self.address@ + ":"@ + dec_digits(self.port as nat),
    {
        let mut s = self.protocol.clone();
        s.append("://");
        s.append(self.address.as_str());
        s.append(":");
        append_u64(&mut s, self.port as u64);
        proof {
            assert(s@ =~= self.protocol@ + "://"@ + self.address@ + ":"@ + dec_digits(
                self.port as nat,
            ));
        }
        s
    }
}

/// Settings of the serving side of the application.
#[derive(Debug, PartialEq, Eq)]
pub struct AppConfig {
    pub log_level: String,
    pub bind_address: String,
    pub bind_port: u16,
    pub static_files_path: String,
    pub session_secret: String,
    pub ping_interval_seconds: u64,
}

impl Clone for AppConfig {
    fn clone(&self) -> (res: Self)
        ensures
            res == *self,
    {
        AppConfig {
            log_level: self.log_level.clone(),
            bind_address: self.bind_address.clone(),
            bind_port: self.bind_port,
            static_files_path: self.static_files_path.clone(),
            session_secret: self.session_secret.clone(),
            ping_interval_seconds: self.ping_interval_seconds,
        }
    }
}

impl Default for AppConfig {
    fn default() -> (r: Self)
        ensures
            r.log_level@ == "info"@,
            r.bind_address@ == "127.0.0.1"@,
            r.bind_port == 3217,
            r.static_files_path@ == "./asset"@,
            r.session_secret@ == "change-me-in-production"@,
            r.ping_interval_seconds == 2,
    {
        Self {
            log_level: "info".to_owned(),
            bind_address: "127.0.0.1".to_owned(),
            bind_port: 3217,
            static_files_path: "./asset".to_owned(),
            session_secret: "change-me-in-production".to_owned(),
            ping_interval_seconds: 2,
        }
    }
}

/// Everything that can go wrong in this crate, one variant per cause.
#[derive(Debug, PartialEq, Eq)]
pub enum DomainError {
    InvalidIpAddress(String),
    UserNotFound(String),
    AuthenticationFailed,
    ConfigurationError(String),
    NetworkError(String),
    SerializationError(String),
}

impl Clone for DomainError {
    fn clone(&self) -> (res: Self)
        ensures
            res == *self,
    {
        match self {
            DomainError::InvalidIpAddress(s) => DomainError::InvalidIpAddress(s.clone()),
            DomainError::UserNotFound(s) => DomainError::UserNotFound(s.clone()),
            DomainError::AuthenticationFailed => DomainError::AuthenticationFailed,
            DomainError::ConfigurationError(s) => DomainError::ConfigurationError(s.clone()),
            DomainError::NetworkError(s) => DomainError::NetworkError(s.clone()),
            DomainError::SerializationError(s) => DomainError::SerializationError(s.clone()),
        }
    }
}

/// The description [`DomainError::message`] renders for each variant.
pub open spec fn error_message_view(e: DomainError) -> Seq<char> {
    match e {
        DomainError::InvalidIpAddress(s) => "Invalid IP address: "@ + s@,
        DomainError::UserNotFound(s) => "User not found: "@ + s@,
        DomainError::AuthenticationFailed => "Authentication failed"@,
        DomainError::ConfigurationError(s) => "Configuration error: "@ + s@,
        DomainError::NetworkError(s) => "Network error: "@ + s@,
        DomainError::SerializationError(s) => "Serialization error: "@ + s@,
    }
}

impl DomainError {
    /// A human-readable description of the error.
    pub fn message(&self) -> (r: String)
        ensures
            r@ == error_message_view(*self),
    {
        match self {
            DomainError::InvalidIpAddress(s) => {
                let mut m = "Invalid IP address: ".to_owned();
                m.append(s.as_str());
                m
            },
            DomainError::UserNotFound(s) => {
                let mut m = "User not found: ".to_owned();
                m.append(s.as_str());
                m
            },
            DomainError::AuthenticationFailed => "Authentication failed".to_owned(),
            DomainError::ConfigurationError(s) => {
                let mut m = "Configuration error: ".to_owned();
                m.append(s.as_str());
                m
            },
            DomainError::NetworkError(s) => {
                let mut m = "Network error: ".to_owned();
                m.append(s.as_str());
                m
            },
            DomainError::SerializationError(s) => {
                let mut m = "Serialization error: ".to_owned();
                m.append(s.as_str());
                m
            },
        }
    }
}

} // verus!
