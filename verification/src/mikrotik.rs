//! The shape of requests to the concentrator's management interface and
//! the reading of its answers: paths, query strings, the error taxonomy
//! of the device side, and the translation of raw response records into
//! sessions.  The HTTP transport itself lives outside; everything here
//! is plain data in and plain data out.

use vstd::prelude::*;
use vstd::string::*;
use crate::decimal::{append_u64, dec_digits};
use crate::models::{clone_opt_string, DomainError, VpnUser};

verus! {

/// An opaque JSON value, carried through as a request body.
#[verifier::external_type_specification]
#[verifier::external_body]
pub struct ExValue(serde_json::Value);

/// One record of the device's active-session listing.
#[derive(Debug, PartialEq, Eq)]
pub struct MikrotikPppActiveResponse {
    pub id: String,
    pub name: String,
    pub service: Option<String>,
    pub caller_id: Option<String>,
    pub address: String,
    pub uptime: String,
    pub comment: Option<String>,
}

impl Clone for MikrotikPppActiveResponse {
    fn clone(&self) -> (res: Self)
        ensures
            res == *self,
    {
        MikrotikPppActiveResponse {
            id: self.id.clone(),
            name: self.name.clone(),
            service: clone_opt_string(&self.service),
            caller_id: clone_opt_string(&self.caller_id),
            address: self.address.clone(),
            uptime: self.uptime.clone(),
            comment: clone_opt_string(&self.comment),
        }
    }
}

impl MikrotikPppActiveResponse {
    /// The session a raw record stands for: same fields, a fresh
    /// identifier, no measurement yet.
    pub fn to_vpn_user(self) -> (r: VpnUser)
        ensures
            r@.id.len() == 36,
            r@.name == self.name@,
            r@.service == self.service.deep_view(),
            r@.caller_id == self.caller_id.deep_view(),
            r@.address == self.address@,
            r@.uptime == self.uptime@,
            r@.comment == self.comment.deep_view(),
            r@.latency is None,
            r@.is_active,
    {
        VpnUser::new(
            self.name,
            self.service,
            self.caller_id,
            self.address,
            self.uptime,
            self.comment,
        )
    }
}

/// Translates a whole fetch, record by record, in order.
pub fn users_from_responses(responses: Vec<MikrotikPppActiveResponse>) -> (r: Vec<VpnUser>)
    ensures
        r@.len() == responses@.len(),
        forall|i: int|
            0 <= i < responses@.len() ==> {
                let u = #[trigger] r.deep_view()[i];
                &&& u.name == responses@[i].name@
                &&& u.service == responses@[i].service.deep_view()
                &&& u.caller_id == responses@[i].caller_id.deep_view()
                &&& u.address == responses@[i].address@
                &&& u.uptime == responses@[i].uptime@
                &&& u.comment == responses@[i].comment.deep_view()
                &&& u.latency is None
                &&& u.is_active
            },
{
    let ghost rv = responses@;
    let mut out: Vec<VpnUser> = Vec::new();
    let mut i: usize = 0;
    while i < responses.len()
        invariant
            i <= responses.len(),
            rv == responses@,
            rv.len() == responses.len(),
            out@.len() == i as int,
            forall|p: int|
                0 <= p < i ==> {
                    let u = (#[trigger] out@[p]).deep_view();
                    &&& u.name == rv[p].name@
                    &&& u.service == rv[p].service.deep_view()
                    &&& u.caller_id == rv[p].caller_id.deep_view()
                    &&& u.address == rv[p].address@
                    &&& u.uptime == rv[p].uptime@
                    &&& u.comment == rv[p].comment.deep_view()
                    &&& u.latency is None
                    &&& u.is_active
                },
        decreases responses.len() - i,
    {
        let rec = responses[i].clone();
        proof {
            assert(rec == rv[i as int]);
        }
        let u = rec.to_vpn_user();
        out.push(u);
        i = i + 1;
    }
    proof {
        assert forall|p: int| 0 <= p < rv.len() implies #[trigger] out.deep_view()[p]
            == out@[p].deep_view() by {}
    }
    out
}

/// The REST paths of the device operations this crate knows.
#[derive(Debug, PartialEq, Eq)]
pub enum MikrotikApiPath {
    PppActive,
    PppActiveById(String),
    PppSecrets,
    PppSecretById(String),
    InterfaceMonitor,
}

/// The rendered path of each operation.
pub open spec fn path_view(p: MikrotikApiPath) -> Seq<char> {
    match p {
        MikrotikApiPath::PppActive => "/rest/ppp/active"@,
        MikrotikApiPath::PppActiveById(id) => "/rest/ppp/active/"@ + id@,
        MikrotikApiPath::PppSecrets => "/rest/ppp/secret"@,
        MikrotikApiPath::PppSecretById(id) => "/rest/ppp/secret/"@ + id@,
        MikrotikApiPath::InterfaceMonitor => "/rest/interface/monitor-traffic"@,
    }
}

impl MikrotikApiPath {
    pub fn to_path(&self) -> (r: String)
        ensures
            r@ == path_view(*self),
    {
        match self {
            MikrotikApiPath::PppActive => "/rest/ppp/active".to_owned(),
            MikrotikApiPath::PppActiveById(id) => {
                let mut s = "/rest/ppp/active/".to_owned();
                s.append(id.as_str());
                s
            },
            MikrotikApiPath::PppSecrets => "/rest/ppp/secret".to_owned(),
            MikrotikApiPath::PppSecretById(id) => {
                let mut s = "/rest/ppp/secret/".to_owned();
                s.append(id.as_str());
                s
            },
            MikrotikApiPath::InterfaceMonitor => "/rest/interface/monitor-traffic".to_owned(),
        }
    }
}

/// The HTTP method of a device request.
#[derive(Debug, Clone, Copy, PartialEq, Eq, Structural)]
pub enum MikrotikApiMethod {
    Get,
    Post,
    Put,
    Delete,
}

/// The query string `k1=v1&k2=v2...` of a parameter list.
pub open spec fn query_string(params: Seq<(Seq<char>, Seq<char>)>) -> Seq<char>
    decreases params.len(),
{
    if params.len() == 0 {
        Seq::<char>::empty()
    } else {
        let prefix = if params.len() > 1 {
            query_string(params.drop_last()) + "&"@
        } else {
            Seq::<char>::empty()
        };
        prefix + params.last().0 + "="@ + params.last().1
    }
}

/// One request to the device, ready to be shaped into HTTP outside.
#[derive(Debug)]
pub struct MikrotikApiRequest {
    pub path: MikrotikApiPath,
    pub method: MikrotikApiMethod,
    pub query_params: Vec<(String, String)>,
    pub body: Option<serde_json::Value>,
}

impl MikrotikApiRequest {
    pub fn new(path: MikrotikApiPath, method: MikrotikApiMethod) -> (r: Self)
        ensures
            r.path == path,
            r.method == method,
            r.query_params@.len() == 0,
            r.body is None,
    {
        Self { path, method, query_params: Vec::new(), body: None }
    }

    pub fn with_query_param(self, key: String, value: String) -> (r: Self)
        ensures
            r.path == self.path,
            r.method == self.method,
            r.body == self.body,
            r.query_params.deep_view() == self.query_params.deep_view().push((key@, value@)),
    {
        let mut r = self;
        let ghost pre = r.query_params.deep_view();
        r.query_params.push((key, value));
        proof {
            assert forall|p: int|
                0 <= p < r.query_params.deep_view().len() implies #[trigger] r.query_params.deep_view()[p]
                == r.query_params@[p].deep_view() by {}
            assert(r.query_params.deep_view() =~= pre.push((key@, value@)));
        }
        r
    }

    pub fn with_body(self, body: serde_json::Value) -> (r: Self)
        ensures
            r.path == self.path,
            r.method == self.method,
            r.query_params == self.query_params,
            r.body == Some(body),
    {
        let mut r = self;
        r.body = Some(body);
        r
    }

    /// The full request URL: base, path, and — when there are query
    /// parameters — a `?` and the parameters joined with `&`.
    pub fn build_url(&self, base_url: &str) -> (r: String)
        ensures
            r@ == base_url@ + path_view(self.path) + (if self.query_params@.len() == 0 {
                Seq::<char>::empty()
            } else {
                "?"@ + query_string(self.query_params.deep_view())
            }),
    {
        let ghost qdv = self.query_params.deep_view();
        let mut url = String::from_str(base_url);
        let path = self.path.to_path();
        url.append(path.as_str());
        let ghost head = url@;
        if self.query_params.len() == 0 {
            proof {
                assert(url@ =~= base_url@ + path_view(self.path) + Seq::<char>::empty());
            }
            return url;
        }
        url.append("?");
        let mut q: usize = 0;
        while q < self.query_params.len()
            invariant
                q <= self.query_params.len(),
                qdv == self.query_params.deep_view(),
                qdv.len() == self.query_params.len(),
                qdv.len() > 0,
                url@ == head + "?"@ + query_string(qdv.take(q as int)) + (if 0 < q < qdv.len() {
                    "&"@
                } else {
                    Seq::<char>::empty()
                }),
            decreases self.query_params.len() - q,
        {
            proof {
                assert(qdv[q as int] == self.query_params@[q as int].deep_view());
            }
            url.append(self.query_params[q].0.as_str());
            url.append("=");
            url.append(self.query_params[q].1.as_str());
            q = q + 1;
            proof {
                assert(qdv.take(q as int).drop_last() =~= qdv.take(q - 1));
                assert(qdv.take(q as int).last() == qdv[q - 1]);
                assert(qdv.take(q as int).len() == q as int);
            }
            if q < self.query_params.len() {
                url.append("&");
                proof {
                    assert(url@ =~= head + "?"@ + query_string(qdv.take(q as int)) + "&"@);
                }
            } else {
                proof {
                    assert(url@ =~= head + "?"@ + query_string(qdv.take(q as int)));
                }
            }
        }
        proof {
            assert(qdv.take(qdv.len() as int) =~= qdv);
            assert(url@ =~= base_url@ + path_view(self.path) + ("?"@ + query_string(qdv)));
        }
        url
    }

    /// The listing request behind every reconciliation pass.
    pub fn get_active_connections() -> (r: Self)
        ensures
            r.path == MikrotikApiPath::PppActive,
            r.method == MikrotikApiMethod::Get,
            r.body is None,
            r.query_params.deep_view() == seq![
                (".proplist"@, "name,service,caller-id,address,uptime,comment"@),
            ],
    {
        let r = Self::new(MikrotikApiPath::PppActive, MikrotikApiMethod::Get).with_query_param(
            ".proplist".to_owned(),
            "name,service,caller-id,address,uptime,comment".to_owned(),
        );
        proof {
            assert(r.query_params.deep_view() =~= seq![
                (".proplist"@, "name,service,caller-id,address,uptime,comment"@),
            ]);
        }
        r
    }

    /// The termination request for one named session.
    pub fn disconnect_user(user_name: &str) -> (r: Self)
        ensures
            r.path == MikrotikApiPath::PppActive,
            r.method == MikrotikApiMethod::Delete,
            r.body is None,
            r.query_params.deep_view() == seq![("name"@, user_name@)],
    {
        let r = Self::new(MikrotikApiPath::PppActive, MikrotikApiMethod::Delete).with_query_param(
            "name".to_owned(),
            user_name.to_owned(),
        );
        proof {
            assert(r.query_params.deep_view() =~= seq![("name"@, user_name@)]);
        }
        r
    }

    /// The lookup request for one named session.
    pub fn get_user_details(user_name: &str) -> (r: Self)
        ensures
            r.path == MikrotikApiPath::PppActive,
            r.method == MikrotikApiMethod::Get,
            r.body is None,
            r.query_params.deep_view() == seq![("name"@, user_name@)],
    {
        let r = Self::new(MikrotikApiPath::PppActive, MikrotikApiMethod::Get).with_query_param(
            "name".to_owned(),
            user_name.to_owned(),
        );
        proof {
            assert(r.query_params.deep_view() =~= seq![("name"@, user_name@)]);
        }
        r
    }
}

/// What can go wrong talking to the device.
#[derive(Debug, PartialEq, Eq)]
pub enum MikrotikError {
    HttpError(String),
    AuthenticationError,
    ApiError(String),
    SerializationError(String),
    UserNotFound(String),
    Timeout,
}

impl Clone for MikrotikError {
    fn clone(&self) -> (res: Self)
        ensures
            res == *self,
    {
        match self {
            MikrotikError::HttpError(s) => MikrotikError::HttpError(s.clone()),
            MikrotikError::AuthenticationError => MikrotikError::AuthenticationError,
            MikrotikError::ApiError(s) => MikrotikError::ApiError(s.clone()),
            MikrotikError::SerializationError(s) => MikrotikError::SerializationError(s.clone()),
            MikrotikError::UserNotFound(s) => MikrotikError::UserNotFound(s.clone()),
            MikrotikError::Timeout => MikrotikError::Timeout,
        }
    }
}

impl MikrotikError {
    /// Each device-side error as the domain sees it.
    pub fn to_domain_error(self) -> (r: DomainError)
        ensures
            self matches MikrotikError::HttpError(s) ==> r == DomainError::NetworkError(s),
            self is AuthenticationError ==> r == DomainError::AuthenticationFailed,
            self matches MikrotikError::ApiError(s) ==> r == DomainError::NetworkError(s),
            self matches MikrotikError::SerializationError(s) ==> r
                == DomainError::SerializationError(s),
            self matches MikrotikError::UserNotFound(s) ==> r == DomainError::UserNotFound(s),
            self is Timeout ==> (r matches DomainError::NetworkError(m) && m@
                == "Request timeout"@),
    {
        match self {
            MikrotikError::HttpError(s) => DomainError::NetworkError(s),
            MikrotikError::AuthenticationError => DomainError::AuthenticationFailed,
            MikrotikError::ApiError(s) => DomainError::NetworkError(s),
            MikrotikError::SerializationError(s) => DomainError::SerializationError(s),
            MikrotikError::UserNotFound(s) => DomainError::UserNotFound(s),
            MikrotikError::Timeout => DomainError::NetworkError("Request timeout".to_owned()),
        }
    }
}

/// Reads an HTTP answer's status (and, for a failure, its body text)
/// the way the device client does: success for the 2xx range, the
/// authentication error for 401, and otherwise an error carrying
/// `HTTP <status>: <body>`.
pub fn classify_response(status: u16, error_text: String) -> (r: Result<(), MikrotikError>)
    ensures
        200 <= status < 300 ==> r is Ok,
        status == 401 ==> r == Err::<(), MikrotikError>(MikrotikError::AuthenticationError),
        !(200 <= status < 300) && status != 401 ==> (r matches Err(e) && e matches
            MikrotikError::ApiError(m) && m@ == "HTTP "@ + dec_digits(status as nat) + ": "@
            + error_text@),
{
    if 200 <= status && status < 300 {
        Ok(())
    } else if status == 401 {
        Err(MikrotikError::AuthenticationError)
    } else {
        let mut m = "HTTP ".to_owned();
        append_u64(&mut m, status as u64);
        m.append(": ");
        m.append(error_text.as_str());
        proof {
            assert(m@ =~= "HTTP "@ + dec_digits(status as nat) + ": "@ + error_text@);
        }
        Err(MikrotikError::ApiError(m))
    }
}

/// Reads the device's answer to a termination request: an unknown
/// session surfaces as the typed not-found failure bearing the asked-for
/// name, any other device error is passed along translated, and success
/// is success.
pub fn interpret_disconnect_outcome(user_name: &str, outcome: Result<(), MikrotikError>) -> (r:
    Result<(), DomainError>)
    ensures
        outcome is Ok ==> r is Ok,
        outcome matches Err(MikrotikError::UserNotFound(_)) ==> (r matches Err(e) && e matches
            DomainError::UserNotFound(n) && n@ == user_name@),
        outcome matches Err(MikrotikError::HttpError(s)) ==> r == Err::<(), DomainError>(
            DomainError::NetworkError(s),
        ),
        outcome matches Err(e2) && e2 is AuthenticationError ==> r == Err::<(), DomainError>(
            DomainError::AuthenticationFailed,
        ),
        outcome matches Err(MikrotikError::ApiError(s)) ==> r == Err::<(), DomainError>(
            DomainError::NetworkError(s),
        ),
        outcome matches Err(MikrotikError::SerializationError(s)) ==> r == Err::<(), DomainError>(
            DomainError::SerializationError(s),
        ),
        outcome matches Err(e2) && e2 is Timeout ==> (r matches Err(e) && e matches
            DomainError::NetworkError(m) && m@ == "Request timeout"@),
{
    match outcome {
        Ok(()) => Ok(()),
        Err(MikrotikError::UserNotFound(_)) => Err(
            DomainError::UserNotFound(user_name.to_owned()),
        ),
        Err(e) => Err(e.to_domain_error()),
    }
}

} // verus!
