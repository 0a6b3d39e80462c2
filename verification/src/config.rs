//! The client configuration: its defaults, the device id derived from the
//! host, the agent server's host name and the owner reference.
use vstd::prelude::*;

use crate::digest::{hex_of, hex_string, sha1_digest, sha1_of};
use crate::text::{
    chars_of, string_from_chars, string_from_str, strip_all_prefix, trim_start_matches,
};

verus! {

/// Seconds between heartbeats unless configured.
pub fn default_heartbeat_interval() -> (r: u64)
    ensures
        r == 300,
{
    300
}

/// The make87 API unless configured.
pub fn default_make87_api_url() -> (r: String)
    ensures
        r@ == "https://api.make87.com"@,
{
    string_from_str("https://api.make87.com")
}

/// The make87 web app unless configured.
pub fn default_make87_app_url() -> (r: String)
    ensures
        r@ == "https://app.make87.com"@,
{
    string_from_str("https://app.make87.com")
}

/// The client configuration (`config.json`).
#[derive(Debug, Clone)]
pub struct Config {
    pub agent_server_url: Option<String>,
    pub make87_api_url: String,
    pub make87_app_url: String,
    pub device_id: String,
    pub log_level: String,
    pub heartbeat_interval_secs: u64,
    pub owner_reference: Option<String>,
    pub auth_domain: String,
    pub auth_audience: String,
    pub auth_client_id: String,
    pub trust_invalid_server_cert: bool,
    pub manager_server_urls: Vec<String>,
}

/// The configuration every field of which has its default, with the given
/// device id.
pub open spec fn is_default_config(c: Config, device_id: Seq<char>) -> bool {
    &&& c.agent_server_url.is_none()
    &&& c.make87_api_url@ == "https://api.make87.com"@
    &&& c.make87_app_url@ == "https://app.make87.com"@
    &&& c.device_id@ == device_id
    &&& c.log_level@ == "info"@
    &&& c.heartbeat_interval_secs == 300
    &&& c.owner_reference.is_none()
    &&& c.auth_domain@ == "https://auth.make87.com/"@
    &&& c.auth_audience@ == "https://auth.make87.com"@
    &&& c.auth_client_id@ == "E2J7xfFLgexzvhHhz4YqaJBy8Ys82SmM"@
    &&& !c.trust_invalid_server_cert
    &&& c.manager_server_urls@.len() == 0
}

/// The device id of a host: the first 12 bytes of the SHA-1 digest of its
/// host name followed by its MAC address, in lowercase hexadecimal.
pub open spec fn device_id_of(hostname: Seq<char>, mac: Seq<char>) -> Seq<char> {
    hex_of(sha1_of(vstd::utf8::encode_utf8(hostname) + vstd::utf8::encode_utf8(mac)).take(12))
}

/// The host name the device id is made of: the host's, else `not found`.
pub open spec fn hostname_or_default(h: Option<Seq<char>>) -> Seq<char> {
    match h {
        Some(h) => h,
        None => "not found"@,
    }
}

/// The MAC address the device id is made of: the host's, else all zeros.
pub open spec fn mac_or_default(m: Option<Seq<char>>) -> Seq<char> {
    match m {
        Some(m) => m,
        None => "00:00:00:00:00:00"@,
    }
}

/// An optional string by its view.
pub open spec fn opt_seq(v: Option<String>) -> Option<Seq<char>> {
    match v {
        Some(s) => Some(s@),
        None => None,
    }
}

impl Config {
    /// The configuration with every default and an empty device id (the
    /// client that manages devices has none).
    pub fn new_default() -> (c: Config)
        ensures
            is_default_config(c, Seq::empty()),
    {
        Config::with_device_id(String::new())
    }

    /// The default configuration of a device with the given id.
    pub fn with_device_id(device_id: String) -> (c: Config)
        ensures
            is_default_config(c, device_id@),
    {
        Config {
            agent_server_url: None,
            make87_api_url: default_make87_api_url(),
            make87_app_url: default_make87_app_url(),
            device_id,
            log_level: string_from_str("info"),
            heartbeat_interval_secs: default_heartbeat_interval(),
            owner_reference: None,
            auth_domain: string_from_str("https://auth.make87.com/"),
            auth_audience: string_from_str("https://auth.make87.com"),
            auth_client_id: string_from_str("E2J7xfFLgexzvhHhz4YqaJBy8Ys82SmM"),
            trust_invalid_server_cert: false,
            manager_server_urls: Vec::new(),
        }
    }

    /// The device id of this host, deterministic in its host name and MAC
    /// address (`not found` and `00:00:00:00:00:00` where they are unknown):
    /// a BSON-ObjectId-sized hexadecimal string.
    pub fn deterministic_device_id(hostname: Option<String>, mac: Option<String>) -> (r: String)
        ensures
            r@ == device_id_of(hostname_or_default(opt_seq(hostname)), mac_or_default(opt_seq(mac))),
            r@.len() == 24,
    {
        let h = match hostname {
            Some(h) => h,
            None => string_from_str("not found"),
        };
        let m = match mac {
            Some(m) => m,
            None => string_from_str("00:00:00:00:00:00"),
        };
        let hb = h.as_str().as_bytes();
        let mb = m.as_str().as_bytes();
        let mut data: Vec<u8> = Vec::new();
        let mut i: usize = 0;
        while i < hb.len()
            invariant
                i <= hb.len(),
                data@ == hb@.take(i as int),
            decreases hb.len() - i,
        {
            data.push(hb[i]);
            assert(hb@.take(i + 1) =~= hb@.take(i as int).push(hb@[i as int]));
            i = i + 1;
        }
        assert(hb@.take(hb.len() as int) =~= hb@);
        let mut j: usize = 0;
        while j < mb.len()
            invariant
                j <= mb.len(),
                data@ == hb@ + mb@.take(j as int),
            decreases mb.len() - j,
        {
            data.push(mb[j]);
            assert(mb@.take(j + 1) =~= mb@.take(j as int).push(mb@[j as int]));
            j = j + 1;
        }
        assert(mb@.take(mb.len() as int) =~= mb@);
        let digest = sha1_digest(data.as_slice());
        let first = first_bytes(digest.as_slice(), 12);
        let r = hex_string(first.as_slice());
        proof {
            lemma_hex_len(first@);
        }
        r
    }

    /// The agent server's URL. Without one set (no login yet) there is no
    /// server to talk to: callers check first.
    pub fn get_agent_server_url(&self) -> (r: String)
        requires
            self.agent_server_url.is_some(),
        ensures
            r@ == self.agent_server_url.unwrap()@,
    {
        match &self.agent_server_url {
            Some(u) => u.clone(),
            None => String::new(),
        }
    }

    /// The agent server's host: its URL without the leading `https://`
    /// and then `http://` prefixes (each stripped as often as it repeats).
    pub fn get_agent_server_hostname(&self) -> (r: String)
        requires
            self.agent_server_url.is_some(),
        ensures
            r@ == strip_all_prefix(
                strip_all_prefix(self.agent_server_url.unwrap()@, "https://"@),
                "http://"@,
            ),
    {
        let url = self.get_agent_server_url();
        let u = chars_of(url.as_str());
        let https = chars_of("https://");
        let http = chars_of("http://");
        let a = trim_start_matches(u.as_slice(), https.as_slice());
        let b = trim_start_matches(a.as_slice(), http.as_slice());
        string_from_chars(b.as_slice())
    }

    /// Records the owner of this device.
    pub fn add_owner_reference(&mut self, owner_reference: String)
        ensures
            final(self).owner_reference == Some(owner_reference),
            final(self).agent_server_url == old(self).agent_server_url,
            final(self).device_id == old(self).device_id,
            final(self).make87_api_url == old(self).make87_api_url,
            final(self).make87_app_url == old(self).make87_app_url,
            final(self).log_level == old(self).log_level,
            final(self).heartbeat_interval_secs == old(self).heartbeat_interval_secs,
            final(self).auth_domain == old(self).auth_domain,
            final(self).auth_audience == old(self).auth_audience,
            final(self).auth_client_id == old(self).auth_client_id,
            final(self).trust_invalid_server_cert == old(self).trust_invalid_server_cert,
            final(self).manager_server_urls@ == old(self).manager_server_urls@,
    {
        self.owner_reference = Some(owner_reference);
    }

    /// Whether an owner is recorded.
    pub fn has_owner_reference(&self) -> (r: bool)
        ensures
            r == self.owner_reference.is_some(),
    {
        self.owner_reference.is_some()
    }

    /// The recorded owner, or the error that asks for one.
    pub fn get_owner_reference(&self) -> (r: Result<String, String>)
        ensures
            match self.owner_reference {
                Some(o) => r is Ok && r->Ok_0@ == o@,
                None => r is Err && r->Err_0@
                    == "No owner reference found. Pass a valid user email or organization id!"@,
            },
    {
        match &self.owner_reference {
            Some(o) => Ok(o.clone()),
            None => Err(
                string_from_str(
                    "No owner reference found. Pass a valid user email or organization id!",
                ),
            ),
        }
    }
}

/// The settings `m87 config set` may change; each one given replaces the
/// configured value.
#[derive(Debug, Clone)]
pub struct ConfigSettings {
    pub server_url: Option<String>,
    pub owner_reference: Option<String>,
    pub make87_api_url: Option<String>,
    pub make87_app_url: Option<String>,
    pub trust_invalid_server_cert: Option<bool>,
}

impl Config {
    /// Applies `m87 config set`: every given setting replaces its value; the
    /// rest of the configuration stays.
    pub fn apply_settings(&mut self, settings: ConfigSettings)
        ensures
            final(self).agent_server_url == (match settings.server_url {
                Some(u) => Some(u),
                None => old(self).agent_server_url,
            }),
            final(self).owner_reference == (match settings.owner_reference {
                Some(o) => Some(o),
                None => old(self).owner_reference,
            }),
            final(self).make87_api_url == (match settings.make87_api_url {
                Some(u) => u,
                None => old(self).make87_api_url,
            }),
            final(self).make87_app_url == (match settings.make87_app_url {
                Some(u) => u,
                None => old(self).make87_app_url,
            }),
            final(self).trust_invalid_server_cert == (match settings.trust_invalid_server_cert {
                Some(t) => t,
                None => old(self).trust_invalid_server_cert,
            }),
            final(self).device_id == old(self).device_id,
            final(self).log_level == old(self).log_level,
            final(self).heartbeat_interval_secs == old(self).heartbeat_interval_secs,
            final(self).auth_domain == old(self).auth_domain,
            final(self).auth_audience == old(self).auth_audience,
            final(self).auth_client_id == old(self).auth_client_id,
            final(self).manager_server_urls@ == old(self).manager_server_urls@,
    {
        match settings.server_url {
            Some(u) => {
                self.agent_server_url = Some(u);
            },
            None => {},
        }
        match settings.owner_reference {
            Some(o) => {
                self.owner_reference = Some(o);
            },
            None => {},
        }
        match settings.make87_api_url {
            Some(u) => {
                self.make87_api_url = u;
            },
            None => {},
        }
        match settings.make87_app_url {
            Some(u) => {
                self.make87_app_url = u;
            },
            None => {},
        }
        match settings.trust_invalid_server_cert {
            Some(t) => {
                self.trust_invalid_server_cert = t;
            },
            None => {},
        }
    }
}

impl Config {
    /// Records what the server answered during device registration: the
    /// server's URL and the owner, each only where none is configured.
    pub fn apply_registration(&mut self, server_url: String, owner_reference: String)
        ensures
            final(self).agent_server_url == (match old(self).agent_server_url {
                Some(u) => Some(u),
                None => Some(server_url),
            }),
            final(self).owner_reference == (match old(self).owner_reference {
                Some(o) => Some(o),
                None => Some(owner_reference),
            }),
            final(self).device_id == old(self).device_id,
            final(self).make87_api_url == old(self).make87_api_url,
            final(self).make87_app_url == old(self).make87_app_url,
            final(self).trust_invalid_server_cert == old(self).trust_invalid_server_cert,
    {
        if self.agent_server_url.is_none() {
            self.agent_server_url = Some(server_url);
        }
        if self.owner_reference.is_none() {
            self.owner_reference = Some(owner_reference);
        }
    }
}

/// Whether device registration must ask the server first: the server's URL
/// or the owner is unknown.
pub fn needs_server_lookup(server_url: &Option<String>, owner: &Option<String>) -> (r: bool)
    ensures
        r == (server_url.is_none() || owner.is_none()),
{
    server_url.is_none() || owner.is_none()
}

impl Default for Config {
    /// Every default, with an empty device id.
    fn default() -> (c: Config)
        ensures
            is_default_config(c, Seq::empty()),
    {
        Config::new_default()
    }
}

/// The first `n` bytes.
fn first_bytes(b: &[u8], n: usize) -> (r: Vec<u8>)
    requires
        n <= b@.len(),
    ensures
        r@ == b@.take(n as int),
{
    let mut r: Vec<u8> = Vec::new();
    let mut i: usize = 0;
    while i < n
        invariant
            i <= n,
            n <= b@.len(),
            r@ == b@.take(i as int),
        decreases n - i,
    {
        r.push(b[i]);
        assert(b@.take(i + 1) =~= b@.take(i as int).push(b@[i as int]));
        i = i + 1;
    }
    r
}

/// The device id this host gets by default (see
/// [`Config::deterministic_device_id`]).
pub fn get_default_device_id(hostname: Option<String>, mac: Option<String>) -> (r: String)
    ensures
        r@ == device_id_of(hostname_or_default(opt_seq(hostname)), mac_or_default(opt_seq(mac))),
{
    Config::deterministic_device_id(hostname, mac)
}

/// Hexadecimal text has two digits per byte.
pub proof fn lemma_hex_len(bytes: Seq<u8>)
    ensures
        hex_of(bytes).len() == 2 * bytes.len(),
    decreases bytes.len(),
{
    if bytes.len() > 0 {
        lemma_hex_len(bytes.drop_last());
    }
}

} // verus!
