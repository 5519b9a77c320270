//! Plain data of the session REST service, its error type, and the state
//! its client keeps between requests.
use vstd::prelude::*;
use crate::envelope::opt_view;
use std::time::Duration;

verus! {

/// Relies on `Duration::from_secs`, which builds a span of whole seconds.
pub assume_specification[ core::time::Duration::from_secs ](secs: u64) -> Duration;

/// Relies on `Duration` being `Copy`: a clone is the same span.
pub assume_specification[ <core::time::Duration as Clone>::clone ](d: &Duration) -> (r: Duration)
    ensures
        r == *d,
;

/// Where the services live and how the client behaves.
#[derive(Debug, Clone)]
pub struct Config {
    pub api_base_url: String,
    pub signal_server_url: String,
    pub timeout: Duration,
    pub enable_logs: bool,
}

impl Default for Config {
    /// Local services, a ten-second timeout, no logging.
    fn default() -> (r: Self)
        ensures
            r.api_base_url@ == "http://localhost:8080"@,
            r.signal_server_url@ == "http://localhost:5001"@,
            !r.enable_logs,
    {
        Config {
            api_base_url: String::from_str("http://localhost:8080"),
            signal_server_url: String::from_str("http://localhost:5001"),
            timeout: Duration::from_secs(10),
            enable_logs: false,
        }
    }
}

#[derive(Debug, Clone)]
pub struct User {
    pub id: String,
    pub username: String,
}

#[derive(Debug, Clone)]
pub struct Session {
    pub session_id: String,
    pub room_name: String,
    pub host_user_id: String,
    pub participants: Vec<String>,
    pub created_at: String,
    pub is_active: bool,
}

/// A STUN or TURN server.
#[derive(Debug, Clone)]
pub struct ICEServer {
    pub urls: Vec<String>,
    pub username: Option<String>,
    pub credential: Option<String>,
}

/// Failures of the REST service.
#[derive(Debug)]
pub enum SmaRTCError {
    /// The credentials were refused (HTTP 401).
    Authentication,
    /// No such call (HTTP 404).
    SessionNotFound,
    /// The request did not get through.
    Network(String),
    /// Any other failure.
    Generic(String),
}

pub open spec fn error_text(e: SmaRTCError) -> Seq<char> {
    match e {
        SmaRTCError::Authentication => "Identifiants incorrects"@,
        SmaRTCError::SessionNotFound => "Cet appel n'existe pas"@,
        SmaRTCError::Network(s) => "Problème de connexion : "@ + s@,
        SmaRTCError::Generic(s) => "Erreur : "@ + s@,
    }
}

impl SmaRTCError {
    /// The message shown to the user.
    pub fn message(&self) -> (r: String)
        ensures
            r@ == error_text(*self),
    {
        match self {
            SmaRTCError::Authentication => String::from_str("Identifiants incorrects"),
            SmaRTCError::SessionNotFound => String::from_str("Cet appel n'existe pas"),
            SmaRTCError::Network(s) => String::from_str("Problème de connexion : ").concat(s.as_str()),
            SmaRTCError::Generic(s) => String::from_str("Erreur : ").concat(s.as_str()),
        }
    }
}

/// The error for a response that did not succeed: 401 and 404 have their
/// own kinds; any other status is described by its status line (`status`,
/// such as `500 Internal Server Error`) and the response body.
pub fn status_error(code: u16, status: &str, body: &str) -> (r: SmaRTCError)
    ensures
        code == 401 ==> r is Authentication,
        code == 404 ==> r is SessionNotFound,
        code != 401 && code != 404 ==> r is Generic && r->Generic_0@ == "HTTP "@ + status@ + " : "@ + body@,
{
    if code == 401 {
        SmaRTCError::Authentication
    } else if code == 404 {
        SmaRTCError::SessionNotFound
    } else {
        let text = String::from_str("HTTP ").concat(status).concat(" : ").concat(body);
        SmaRTCError::Generic(text)
    }
}

/// Whether an HTTP status code is a success (2xx).
pub fn is_success(code: u16) -> (r: bool)
    ensures
        r == (200 <= code < 300),
{
    200 <= code && code < 300
}

/// The full URL of a service path.
pub fn endpoint(config: &Config, path: &str) -> (r: String)
    ensures
        r@ == config.api_base_url@ + path@,
{
    config.api_base_url.clone().concat(path)
}

/// The public STUN server used when the service cannot tell which to use.
pub fn fallback_ice_servers() -> (r: Vec<ICEServer>)
    ensures
        r@.len() == 1,
        r@[0].urls@.len() == 1,
        r@[0].urls@[0]@ == "stun:stun.l.google.com:19302"@,
        r@[0].username is None,
        r@[0].credential is None,
{
    vec![ICEServer {
        urls: vec![String::from_str("stun:stun.l.google.com:19302")],
        username: None,
        credential: None,
    }]
}

/// The servers the service returned, or the fallback when it failed.
pub fn ice_servers_or_fallback(fetched: Result<Vec<ICEServer>, SmaRTCError>) -> (r: Vec<ICEServer>)
    ensures
        fetched is Ok ==> r == fetched->Ok_0,
        fetched is Err ==> r@.len() == 1 && r@[0].urls@.len() == 1
            && r@[0].urls@[0]@ == "stun:stun.l.google.com:19302"@
            && r@[0].username is None && r@[0].credential is None,
{
    match fetched {
        Ok(servers) => servers,
        Err(_) => fallback_ice_servers(),
    }
}

/// The REST client's state: its configuration, the bearer token and user
/// of the current login, and the call in progress.
pub struct SmaRTCClient {
    config: Config,
    token: Option<String>,
    current_username: Option<String>,
    current_session_id: Option<String>,
}

impl SmaRTCClient {
    pub closed spec fn spec_config(&self) -> Config {
        self.config
    }

    pub closed spec fn spec_token(&self) -> Option<Seq<char>> {
        opt_view(self.token)
    }

    pub closed spec fn spec_username(&self) -> Option<Seq<char>> {
        opt_view(self.current_username)
    }

    pub closed spec fn spec_session_id(&self) -> Option<Seq<char>> {
        opt_view(self.current_session_id)
    }

    /// A logged-out client with the given configuration, or the default one.
    pub fn new(config: Option<Config>) -> (r: Self)
        ensures
            config is Some ==> r.spec_config() == config->Some_0,
            config is None ==> r.spec_config().api_base_url@ == "http://localhost:8080"@
                && r.spec_config().signal_server_url@ == "http://localhost:5001"@
                && !r.spec_config().enable_logs,
            r.spec_token() is None,
            r.spec_username() is None,
            r.spec_session_id() is None,
    {
        let config = match config {
            Some(c) => c,
            None => Config::default(),
        };
        SmaRTCClient { config, token: None, current_username: None, current_session_id: None }
    }

    pub fn config(&self) -> (r: &Config)
        ensures
            *r == self.spec_config(),
    {
        &self.config
    }

    pub fn is_logged_in(&self) -> (r: bool)
        ensures
            r == self.spec_token() is Some,
    {
        self.token.is_some()
    }

    pub fn token(&self) -> (r: Option<&str>)
        ensures
            r is Some == self.spec_token() is Some,
            r is Some ==> r->Some_0@ == self.spec_token()->Some_0,
    {
        match &self.token {
            Some(t) => Some(t.as_str()),
            None => None,
        }
    }

    pub fn current_username(&self) -> (r: Option<&str>)
        ensures
            r is Some == self.spec_username() is Some,
            r is Some ==> r->Some_0@ == self.spec_username()->Some_0,
    {
        match &self.current_username {
            Some(t) => Some(t.as_str()),
            None => None,
        }
    }

    pub fn current_session_id(&self) -> (r: Option<&str>)
        ensures
            r is Some == self.spec_session_id() is Some,
            r is Some ==> r->Some_0@ == self.spec_session_id()->Some_0,
    {
        match &self.current_session_id {
            Some(t) => Some(t.as_str()),
            None => None,
        }
    }

    /// Records a successful login.
    pub fn record_login(&mut self, token: String, username: String)
        ensures
            final(self).spec_token() == Some(token@),
            final(self).spec_username() == Some(username@),
            final(self).spec_session_id() == old(self).spec_session_id(),
            final(self).spec_config() == old(self).spec_config(),
    {
        self.token = Some(token);
        self.current_username = Some(username);
    }

    /// Records the call just started or joined.
    pub fn record_session(&mut self, session_id: String)
        ensures
            final(self).spec_session_id() == Some(session_id@),
            final(self).spec_token() == old(self).spec_token(),
            final(self).spec_username() == old(self).spec_username(),
            final(self).spec_config() == old(self).spec_config(),
    {
        self.current_session_id = Some(session_id);
    }

    /// The service path that ends the call in progress, or an error when
    /// there is none.
    pub fn end_call_path(&self) -> (r: Result<String, SmaRTCError>)
        ensures
            self.spec_session_id() is None ==> r is Err && r->Err_0 is Generic
                && r->Err_0->Generic_0@ == "Aucun appel en cours"@,
            self.spec_session_id() is Some ==> r is Ok
                && r->Ok_0@ == "/api/session/"@ + self.spec_session_id()->Some_0,
    {
        match &self.current_session_id {
            Some(id) => Ok(String::from_str("/api/session/").concat(id.as_str())),
            None => Err(SmaRTCError::Generic(String::from_str("Aucun appel en cours"))),
        }
    }

    /// Forgets the call in progress.
    pub fn clear_session(&mut self)
        ensures
            final(self).spec_session_id() is None,
            final(self).spec_token() == old(self).spec_token(),
            final(self).spec_username() == old(self).spec_username(),
            final(self).spec_config() == old(self).spec_config(),
    {
        self.current_session_id = None;
    }

    /// Forgets the login and the call.
    pub fn clear_login(&mut self)
        ensures
            final(self).spec_token() is None,
            final(self).spec_username() is None,
            final(self).spec_session_id() is None,
            final(self).spec_config() == old(self).spec_config(),
    {
        self.token = None;
        self.current_username = None;
        self.current_session_id = None;
    }
}

} // verus!
