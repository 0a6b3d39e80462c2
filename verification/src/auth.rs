//! Stored credentials (`credentials.json`) and OAuth2 tokens: which token a
//! request uses, when a token must be refreshed, and what a refresh or a
//! device-flow login stores.
use vstd::prelude::*;

use crate::clock::unix_time_secs;
use crate::text::{chars_of, string_from_str};

verus! {

/// An API key.
#[derive(Debug, Clone)]
pub struct APIKey {
    pub api_key: String,
}

/// An OAuth2 token with the time it expires (seconds since the Unix
/// epoch).
#[derive(Debug, Clone)]
pub struct OAuth2Token {
    pub access_token: String,
    pub refresh_token: Option<String>,
    pub expires_at: u64,
}

/// The credentials of the command-line client.
#[derive(Debug, Clone)]
pub enum Credentials {
    APIKey(APIKey),
    OAuth2Token(OAuth2Token),
}

/// The stored credentials: the command line's and the device's.
#[derive(Debug, Clone)]
pub struct APIConfig {
    pub credentials: Option<Credentials>,
    pub device_credentials: Option<APIKey>,
}

impl OAuth2Token {
    /// Whether the token is still valid at time `now`: it expires later.
    pub fn is_valid_at(&self, now: u64) -> (r: bool)
        ensures
            r == (now < self.expires_at),
    {
        now < self.expires_at
    }

    /// The current time, in seconds since the Unix epoch.
    pub fn current_time() -> (r: u64) {
        unix_time_secs()
    }

    /// Whether the token is still valid now. A token that expires at the
    /// epoch never is.
    pub fn is_valid(&self) -> (r: bool)
        ensures
            self.expires_at == 0 ==> !r,
    {
        let now = OAuth2Token::current_time();
        self.is_valid_at(now)
    }

    /// The access token to send at time `now`: this one while it is valid;
    /// none when it must be refreshed first.
    pub fn usable_access_token(&self, now: u64) -> (r: Option<String>)
        ensures
            now < self.expires_at ==> r == Some(self.access_token),
            now >= self.expires_at ==> r.is_none(),
    {
        if self.is_valid_at(now) {
            Some(self.access_token.clone())
        } else {
            None
        }
    }

    /// The refresh token to exchange, or the error of a token without one.
    pub fn refresh_token_to_send(&self) -> (r: Result<String, String>)
        ensures
            match self.refresh_token {
                Some(t) => r is Ok && r->Ok_0 == t,
                None => r is Err && r->Err_0@ == "missing refresh_token"@,
            },
    {
        match &self.refresh_token {
            Some(t) => Ok(t.clone()),
            None => Err(string_from_str("missing refresh_token")),
        }
    }

    /// Stores the answer to a refresh received at time `now`: the new access
    /// token, valid for `expires_in` seconds, and the new refresh token where
    /// the server rotated it.
    pub fn apply_refresh(
        &mut self,
        now: u64,
        access_token: String,
        expires_in: u64,
        refresh_token: Option<String>,
    )
        requires
            now + expires_in <= u64::MAX,
        ensures
            final(self).access_token == access_token,
            final(self).expires_at == now + expires_in,
            final(self).refresh_token == (match refresh_token {
                Some(t) => Some(t),
                None => old(self).refresh_token,
            }),
    {
        self.access_token = access_token;
        self.expires_at = now + expires_in;
        match refresh_token {
            Some(t) => {
                self.refresh_token = Some(t);
            },
            None => {},
        }
    }

    /// The token a device-flow login yields at time `now`: valid for the
    /// server's `expires_in`, or for an hour where it gives none.
    pub fn from_login(
        now: u64,
        access_token: String,
        refresh_token: Option<String>,
        expires_in: Option<u64>,
    ) -> (t: OAuth2Token)
        requires
            now + (match expires_in {
                Some(e) => e,
                None => 3600,
            }) <= u64::MAX,
        ensures
            t.access_token == access_token,
            t.refresh_token == refresh_token,
            t.expires_at == now + (match expires_in {
                Some(e) => e,
                None => 3600,
            }),
    {
        let secs: u64 = match expires_in {
            Some(e) => e,
            None => 3600,
        };
        OAuth2Token { access_token, refresh_token, expires_at: now + secs }
    }
}

/// The token a request sends at time `now`: an API key as it is, an OAuth2
/// token while it is valid.
pub open spec fn token_at(c: Credentials, now: u64) -> Option<Seq<char>> {
    match c {
        Credentials::APIKey(k) => Some(k.api_key@),
        Credentials::OAuth2Token(t) => if now < t.expires_at {
            Some(t.access_token@)
        } else {
            None
        },
    }
}

impl Credentials {
    /// The token to send at time `now`, or none where an OAuth2 token must
    /// be refreshed first.
    pub fn token_at(&self, now: u64) -> (r: Option<String>)
        ensures
            match r {
                Some(s) => token_at(*self, now) == Some(s@),
                None => token_at(*self, now).is_none(),
            },
    {
        match self {
            Credentials::APIKey(k) => Some(k.api_key.clone()),
            Credentials::OAuth2Token(t) => t.usable_access_token(now),
        }
    }
}

impl APIConfig {
    /// New, empty credentials (which the caller saves).
    pub fn create() -> (c: APIConfig)
        ensures
            c.credentials.is_none(),
            c.device_credentials.is_none(),
    {
        APIConfig { credentials: None, device_credentials: None }
    }

    /// The stored credentials where the file exists, else new empty ones
    /// (which the caller then saves).
    pub fn load_or_create(stored: Option<APIConfig>) -> (c: APIConfig)
        ensures
            match stored {
                Some(s) => c == s,
                None => c.credentials.is_none() && c.device_credentials.is_none(),
            },
    {
        match stored {
            Some(s) => s,
            None => APIConfig::create(),
        }
    }

    /// Stores the command line's credentials, keeping the device's.
    pub fn save_cli_credentials(&mut self, credentials: Credentials)
        ensures
            final(self).credentials == Some(credentials),
            final(self).device_credentials == old(self).device_credentials,
    {
        self.credentials = Some(credentials);
    }

    /// Stores the device's API key, keeping the command line's credentials.
    pub fn save_device_credentials(&mut self, key: String)
        ensures
            final(self).device_credentials == Some(APIKey { api_key: key }),
            final(self).credentials == old(self).credentials,
    {
        self.device_credentials = Some(APIKey { api_key: key });
    }

    /// Forgets the command line's credentials, keeping the device's.
    pub fn delete_cli_credentials(&mut self)
        ensures
            final(self).credentials.is_none(),
            final(self).device_credentials == old(self).device_credentials,
    {
        self.credentials = None;
    }

    /// Forgets the device's API key, keeping the command line's credentials.
    pub fn delete_device_credentials(&mut self)
        ensures
            final(self).device_credentials.is_none(),
            final(self).credentials == old(self).credentials,
    {
        self.device_credentials = None;
    }
}

/// A copy of credentials, equal to them.
fn copy_credentials(c: &Credentials) -> (r: Credentials)
    ensures
        r == *c,
{
    match c {
        Credentials::APIKey(k) => Credentials::APIKey(APIKey { api_key: k.api_key.clone() }),
        Credentials::OAuth2Token(t) => Credentials::OAuth2Token(
            OAuth2Token {
                access_token: t.access_token.clone(),
                refresh_token: match &t.refresh_token {
                    Some(r) => Some(r.clone()),
                    None => None,
                },
                expires_at: t.expires_at,
            },
        ),
    }
}

/// Reads the stored credentials.
pub struct AuthManager {}

impl AuthManager {
    /// The device's API key, or the error of a device without one.
    pub fn get_device_token(config: &APIConfig) -> (r: Result<String, String>)
        ensures
            match r {
                Ok(t) => device_token_of(*config) == Ok::<Seq<char>, Seq<char>>(t@),
                Err(e) => device_token_of(*config) == Err::<Seq<char>, Seq<char>>(e@),
            },
            match config.device_credentials {
                Some(k) => r is Ok && r->Ok_0 == k.api_key,
                None => r is Err && r->Err_0@ == "device credentials not found"@,
            },
    {
        match &config.device_credentials {
            Some(k) => Ok(k.api_key.clone()),
            None => Err(string_from_str("device credentials not found")),
        }
    }

    /// The command line's credentials, or the error of a client without
    /// them.
    pub fn get_cli_credentials(config: &APIConfig) -> (r: Result<Credentials, String>)
        ensures
            match config.credentials {
                Some(c) => r == Ok::<Credentials, String>(c),
                None => r is Err && r->Err_0@ == "cli credentials not found"@,
            },
    {
        match &config.credentials {
            Some(c) => Ok(copy_credentials(c)),
            None => Err(string_from_str("cli credentials not found")),
        }
    }

    /// Whether the command line has credentials.
    pub fn has_cli_credentials(config: &APIConfig) -> (r: bool)
        ensures
            r == config.credentials.is_some(),
    {
        config.credentials.is_some()
    }

    /// Whether the device has an API key.
    pub fn has_device_credentials(config: &APIConfig) -> (r: bool)
        ensures
            r == config.device_credentials.is_some(),
    {
        config.device_credentials.is_some()
    }

    /// The API key given in the environment (`M87_API_KEY`) is stored when it
    /// is not empty.
    pub fn env_api_key(value: Option<String>) -> (r: Option<String>)
        ensures
            match value {
                Some(v) => if v@.len() > 0 {
                    r == Some(v)
                } else {
                    r.is_none()
                },
                None => r.is_none(),
            },
    {
        match value {
            Some(v) => {
                let cs = chars_of(v.as_str());
                if cs.len() > 0 {
                    Some(v)
                } else {
                    None
                }
            },
            None => None,
        }
    }
}

/// The device's API key as `get_device_token` reads it from stored
/// credentials: the key, or the error of a device without one.
pub open spec fn device_token_of(c: APIConfig) -> Result<Seq<char>, Seq<char>> {
    match c.device_credentials {
        Some(k) => Ok(k.api_key@),
        None => Err("device credentials not found"@),
    }
}

/// Reading the device's key gives back what was saved last, whatever the
/// command line's credentials do in between; after deleting it, the read
/// fails; saving or deleting the command line's credentials leaves it.
pub proof fn lemma_device_key_read_after_write(
    c: APIConfig,
    key: String,
    cli: Option<Credentials>,
)
    ensures
        device_token_of(APIConfig { device_credentials: Some(APIKey { api_key: key }), ..c })
            == Ok::<Seq<char>, Seq<char>>(key@),
        device_token_of(APIConfig { device_credentials: None, ..c }) == Err::<Seq<char>, Seq<
            char,
        >>("device credentials not found"@),
        device_token_of(APIConfig { credentials: cli, ..c }) == device_token_of(c),
{
}

/// What the device asks the server to authorise: `user:<owner>` for an
/// e-mail address, else `org:<owner>`.
pub open spec fn owner_scope_of(owner: Seq<char>) -> Seq<char> {
    if owner.contains('@') {
        "user:"@ + owner
    } else {
        "org:"@ + owner
    }
}

/// The owner scope of a device registration.
pub fn owner_scope(owner: &str) -> (r: String)
    ensures
        r@ == owner_scope_of(owner@),
{
    let cs = chars_of(owner);
    let mut s = if crate::text::contains_char(cs.as_slice(), '@') {
        string_from_str("user:")
    } else {
        string_from_str("org:")
    };
    s.append(owner);
    s
}

/// Where the device registration takes its owner from: the command line,
/// else the configuration, else the environment (`OWNER_REFERENCE`).
pub fn resolve_owner(
    cli: Option<String>,
    configured: Option<String>,
    env: Option<String>,
) -> (r: Option<String>)
    ensures
        r == (if cli.is_some() {
            cli
        } else if configured.is_some() {
            configured
        } else {
            env
        }),
{
    match cli {
        Some(c) => Some(c),
        None => match configured {
            Some(c) => Some(c),
            None => env,
        },
    }
}

/// The first step of registering a device.
#[derive(Debug, Clone)]
pub enum RegisterStep {
    /// The device has an API key already: nothing to do, nothing touched.
    AlreadyRegistered,
    /// The server or the owner is not known: ask the make87 API for them,
    /// with the owner known so far.
    LookupServer { owner: Option<String> },
    /// Ask the server to authorise the device for this owner scope.
    Request { api_url: String, owner_scope: String },
}

/// What registering a device does first: nothing for a device that has an
/// API key; else, with the owner from the command line, the configuration
/// or the environment (in that order), a request to the configured server,
/// or a lookup where the server or the owner is missing.
pub fn register_step(
    has_device_credentials: bool,
    cli_owner: Option<String>,
    configured_owner: Option<String>,
    env_owner: Option<String>,
    api_url: Option<String>,
) -> (r: RegisterStep)
    ensures
        has_device_credentials ==> r is AlreadyRegistered,
        !has_device_credentials ==> ({
            let o = if cli_owner.is_some() {
                cli_owner
            } else if configured_owner.is_some() {
                configured_owner
            } else {
                env_owner
            };
            if api_url.is_none() || o.is_none() {
                r matches RegisterStep::LookupServer { owner } && owner == o
            } else {
                r matches RegisterStep::Request { api_url: u, owner_scope: s } && u == api_url.unwrap()
                    && s@ == owner_scope_of(o.unwrap()@)
            }
        }),
{
    if has_device_credentials {
        return RegisterStep::AlreadyRegistered;
    }
    let o = resolve_owner(cli_owner, configured_owner, env_owner);
    match (api_url, o) {
        (Some(u), Some(owner)) => {
            let s = owner_scope(owner.as_str());
            RegisterStep::Request { api_url: u, owner_scope: s }
        },
        (_, o) => RegisterStep::LookupServer { owner: o },
    }
}

/// Whether a failed device login is tried again: only when the key was not
/// approved in time.
pub fn retry_device_login(error: &str) -> (r: bool)
    ensures
        r == crate::text::contains_seq(error@, "API key not approved within timeout"@),
{
    let e = chars_of(error);
    let needle = chars_of("API key not approved within timeout");
    crate::text::contains_chars(e.as_slice(), needle.as_slice())
}

} // verus!
