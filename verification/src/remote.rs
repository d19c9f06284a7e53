use vstd::prelude::*;

use crate::errors::BridgeError;
use vstd::string::StringExecFns;

verus! {

/// HTTP method of a forwarded operation.
#[derive(Clone, Copy, Debug, PartialEq, Eq, Structural)]
pub enum Method {
    Get,
    Post,
    Patch,
    Delete,
}

/// The remote backend's base URL and API credential, resolved once at
/// startup from the process configuration — never hardcoded and never
/// logged.
pub struct RemoteConfig {
    pub base_url: String,
    pub api_key: String,
}

/// An outbound request the proxy has prepared: the shell sends it verbatim.
/// Transient — built per call, never persisted.
pub struct RemoteRequest {
    pub method: Method,
    pub url: String,
    pub body: Option<Vec<u8>>,
    pub headers: Vec<(String, String)>,
}

/// The remote's answer to a completed exchange: its status code and raw
/// body. Transient.
pub struct RemoteResponse {
    pub status: u16,
    pub body: Vec<u8>,
}

/// What the shell observed after carrying a prepared request to the wire: a
/// completed exchange (whatever its status), failure to reach the host, or
/// expiry of the bounded transport timeout with the partial response
/// discarded.
pub enum HttpOutcome {
    Completed { status: u16, body: Vec<u8> },
    NetworkError,
    TimedOut,
}

/// Some header in `headers` carries exactly `name` and `value`.
pub open spec fn header_present(
    headers: Seq<(String, String)>,
    name: Seq<char>,
    value: Seq<char>,
) -> bool {
    exists|i: int| 0 <= i < headers.len() && headers[i].0@ == name && headers[i].1@ == value
}

/// The request the proxy owes for `method` on `path` under a configuration
/// with base URL `base` and credential `key`: the route appended to the base
/// URL, the body passed through unchanged, and the credential injected as
/// both the `apikey` header and a bearer `Authorization` header.
pub open spec fn wf_request(
    req: RemoteRequest,
    base: Seq<char>,
    key: Seq<char>,
    method: Method,
    path: Seq<char>,
    body: Option<Seq<u8>>,
) -> bool {
    &&& req.method == method
    &&& req.url@ == base + path
    &&& (match (req.body, body) {
        (Some(b), Some(v)) => b@ == v,
        (None, None) => true,
        _ => false,
    })
    &&& header_present(req.headers@, "apikey"@, key)
    &&& header_present(req.headers@, "Authorization"@, "Bearer "@ + key)
}

/// The view of an optional request body.
pub open spec fn body_view(body: Option<Vec<u8>>) -> Option<Seq<u8>> {
    match body {
        Some(b) => Some(b@),
        None => None,
    }
}

/// Pass-through proxy to the remote REST backend. It prepares requests and
/// classifies transport outcomes; it performs no network work itself, and it
/// never retries — retry policy belongs to the caller, since a blind retry
/// of a non-idempotent operation could duplicate remote side effects.
pub struct RemoteProxy {
    config: Option<RemoteConfig>,
}

impl RemoteProxy {
    /// Whether a complete configuration was available at construction.
    pub closed spec fn configured(self) -> bool {
        self.config is Some
    }

    /// The configured base URL.
    pub closed spec fn spec_base_url(self) -> Seq<char>
        recommends
            self.configured(),
    {
        self.config->Some_0.base_url@
    }

    /// The configured API credential.
    pub closed spec fn spec_api_key(self) -> Seq<char>
        recommends
            self.configured(),
    {
        self.config->Some_0.api_key@
    }

    /// Builds a proxy from the configuration values the shell resolved at
    /// process start. The proxy is configured only when both are present.
    pub fn new(base_url: Option<String>, api_key: Option<String>) -> (p: RemoteProxy)
        ensures
            p.configured() <==> (base_url is Some && api_key is Some),
            p.configured() ==> p.spec_base_url() == base_url->Some_0@ && p.spec_api_key()
                == api_key->Some_0@,
    {
        match (base_url, api_key) {
            (Some(u), Some(k)) => RemoteProxy {
                config: Some(RemoteConfig { base_url: u, api_key: k }),
            },
            _ => RemoteProxy { config: None },
        }
    }

    /// The configured base URL, for the reachability probe: `None` exactly
    /// when the proxy has no configuration.
    pub fn base_url(&self) -> (r: Option<String>)
        ensures
            r is Some <==> self.configured(),
            r matches Some(u) ==> u@ == self.spec_base_url(),
    {
        match &self.config {
            Some(cfg) => Some(cfg.base_url.clone()),
            None => None,
        }
    }

    /// Prepares the outbound request for `method` on `path`. With the
    /// configuration missing this fails fast with `ConfigurationError` and
    /// builds nothing for the shell to send; otherwise the result is exactly
    /// the request `wf_request` describes.
    pub fn request(&self, method: Method, path: &String, body: Option<Vec<u8>>) -> (r: Result<
        RemoteRequest,
        BridgeError,
    >)
        ensures
            self.configured() ==> (r matches Ok(req) && wf_request(
                req,
                self.spec_base_url(),
                self.spec_api_key(),
                method,
                path@,
                body_view(body),
            )),
            !self.configured() ==> (r matches Err(e) && e == BridgeError::ConfigurationError),
    {
        match &self.config {
            Some(cfg) => {
                let url = cfg.base_url.clone().concat(path.as_str());
                let bearer = String::from_str("Bearer ").concat(cfg.api_key.as_str());
                let mut headers: Vec<(String, String)> = Vec::new();
                headers.push((String::from_str("apikey"), cfg.api_key.clone()));
                headers.push((String::from_str("Authorization"), bearer));
                let req = RemoteRequest { method, url, body, headers };
                proof {
                    assert(req.headers@[0].0@ == "apikey"@ && req.headers@[0].1@
                        == self.spec_api_key());
                    assert(req.headers@[1].0@ == "Authorization"@ && req.headers@[1].1@ == "Bearer "@
                        + self.spec_api_key());
                }
                Ok(req)
            },
            None => Err(BridgeError::ConfigurationError),
        }
    }

    /// Forwards a GET: prepares the request for the shell to send.
    pub fn get(&self, path: &String) -> (r: Result<RemoteRequest, BridgeError>)
        ensures
            self.configured() ==> (r matches Ok(req) && wf_request(
                req,
                self.spec_base_url(),
                self.spec_api_key(),
                Method::Get,
                path@,
                None,
            )),
            !self.configured() ==> (r matches Err(e) && e == BridgeError::ConfigurationError),
    {
        self.request(Method::Get, path, None)
    }

    /// Forwards a POST with `body`.
    pub fn post(&self, path: &String, body: Vec<u8>) -> (r: Result<RemoteRequest, BridgeError>)
        ensures
            self.configured() ==> (r matches Ok(req) && wf_request(
                req,
                self.spec_base_url(),
                self.spec_api_key(),
                Method::Post,
                path@,
                Some(body@),
            )),
            !self.configured() ==> (r matches Err(e) && e == BridgeError::ConfigurationError),
    {
        self.request(Method::Post, path, Some(body))
    }

    /// Forwards a PATCH with `body`.
    pub fn patch(&self, path: &String, body: Vec<u8>) -> (r: Result<RemoteRequest, BridgeError>)
        ensures
            self.configured() ==> (r matches Ok(req) && wf_request(
                req,
                self.spec_base_url(),
                self.spec_api_key(),
                Method::Patch,
                path@,
                Some(body@),
            )),
            !self.configured() ==> (r matches Err(e) && e == BridgeError::ConfigurationError),
    {
        self.request(Method::Patch, path, Some(body))
    }

    /// Forwards a DELETE.
    pub fn delete(&self, path: &String) -> (r: Result<RemoteRequest, BridgeError>)
        ensures
            self.configured() ==> (r matches Ok(req) && wf_request(
                req,
                self.spec_base_url(),
                self.spec_api_key(),
                Method::Delete,
                path@,
                None,
            )),
            !self.configured() ==> (r matches Err(e) && e == BridgeError::ConfigurationError),
    {
        self.request(Method::Delete, path, None)
    }
}

/// What a finished transport attempt means to the caller: a completed
/// exchange yields the raw status and body verbatim; failure to reach the
/// host and expiry of the timeout surface as `NetworkFailure` and `Timeout`,
/// so the caller can decide whether to fall back on the local store.
pub fn response_of(outcome: HttpOutcome) -> (r: Result<RemoteResponse, BridgeError>)
    ensures
        (outcome matches HttpOutcome::Completed { status, body } ==> (r matches Ok(resp)
            && resp.status == status && resp.body@ == body@)),
        outcome is NetworkError ==> (r matches Err(e) && e == BridgeError::NetworkFailure),
        outcome is TimedOut ==> (r matches Err(e) && e == BridgeError::Timeout),
{
    match outcome {
        HttpOutcome::Completed { status, body } => Ok(RemoteResponse { status, body }),
        HttpOutcome::NetworkError => Err(BridgeError::NetworkFailure),
        HttpOutcome::TimedOut => Err(BridgeError::Timeout),
    }
}

/// On-demand reachability, recomputed on every check: a probe that completed
/// at all — whatever its status — means the backend is reachable; failure to
/// connect or a timeout means it is not. Unreachability is a normal `false`
/// result, never an error.
pub fn connectivity_from_probe(outcome: &HttpOutcome) -> (reachable: bool)
    ensures
        reachable == (outcome is Completed),
{
    match outcome {
        HttpOutcome::Completed { .. } => true,
        HttpOutcome::NetworkError => false,
        HttpOutcome::TimedOut => false,
    }
}

} // verus!
