//! The make87 API as the client uses it: the endpoints it calls, the data
//! it exchanges, and the wait for a device login to be approved.
use vstd::prelude::*;

use crate::text::string_from_str;

verus! {

/// `<base><path>`: an endpoint of an API.
pub fn endpoint(base: &str, path: &str) -> (r: String)
    ensures
        r@ == base@ + path@,
{
    let mut s = string_from_str(base);
    s.append(path);
    s
}

/// `<base><path><id>`: an endpoint about one object.
pub fn object_endpoint(base: &str, path: &str, id: &str) -> (r: String)
    ensures
        r@ == base@ + path@ + id@,
{
    let mut s = string_from_str(base);
    s.append(path);
    s.append(id);
    s
}

/// The heartbeat endpoint of a node.
pub fn heartbeat_url(api_url: &str, node_id: &str) -> (r: String)
    ensures
        r@ == api_url@ + "/api/v0/nodes/"@ + node_id@ + "/heartbeat"@,
{
    let mut s = object_endpoint(api_url, "/api/v0/nodes/", node_id);
    s.append("/heartbeat");
    s
}

/// The endpoint that issues an API key to the user.
pub fn api_key_url(api_url: &str) -> (r: String)
    ensures
        r@ == api_url@ + "/api/v0/users/api-key"@,
{
    endpoint(api_url, "/api/v0/users/api-key")
}

/// The endpoint that describes the user.
pub fn me_url(api_url: &str) -> (r: String)
    ensures
        r@ == api_url@ + "/api/v0/users/me"@,
{
    endpoint(api_url, "/api/v0/users/me")
}

/// The body of a request for an API key.
#[derive(Debug, Clone)]
pub struct RequestAPIKeyBody {
    pub name: String,
}

/// A user of make87.
#[derive(Debug, Clone)]
pub struct User {
    pub id: String,
    pub name: String,
    pub roles: Vec<String>,
    pub organization: String,
    pub organization_id: String,
    pub accepted_terms_hash: Option<String>,
    pub avatar_url: String,
    pub features: Vec<String>,
}

/// The digests of what a node runs.
#[derive(Debug, Clone)]
pub struct Digests {
    pub compose: Option<String>,
    pub secrets: Option<String>,
    pub ssh: Option<String>,
    pub config: Option<String>,
    pub combined: String,
}

/// The answer to a node's heartbeat.
#[derive(Debug, Clone)]
pub struct HeartbeatResponse {
    pub up_to_date: bool,
    pub compose_ref: Option<String>,
    pub digests: Option<Digests>,
}

/// Asks a user to approve a node: the node's side of the device flow.
#[derive(Debug, Clone)]
pub struct NodeAuthRequestHandler {
    pub api_url: String,
    pub node_info: Option<String>,
    pub hostname: String,
    pub node_id: String,
    pub owner_reference: String,
    pub request_id: Option<String>,
}

/// What a node sends to ask for approval.
#[derive(Debug, Clone)]
pub struct NodeAuthRequestBody {
    pub node_info: String,
    pub verification_url: String,
    pub verification_code: String,
    pub hostname: String,
    pub owner_reference: String,
    pub node_id: String,
}

impl NodeAuthRequestHandler {
    /// The request for approval with the device flow's verification URL and
    /// code. The node information must be set: it tells the user which node
    /// asks.
    pub fn auth_request_body(&self, verification_uri: &str, user_code: &str) -> (b:
        NodeAuthRequestBody)
        requires
            self.node_info.is_some(),
        ensures
            b.node_info == self.node_info.unwrap(),
            b.verification_url@ == verification_uri@,
            b.verification_code@ == user_code@,
            b.hostname == self.hostname,
            b.owner_reference == self.owner_reference,
            b.node_id == self.node_id,
    {
        let node_info = match &self.node_info {
            Some(i) => i.clone(),
            None => String::new(),
        };
        NodeAuthRequestBody {
            node_info,
            verification_url: string_from_str(verification_uri),
            verification_code: string_from_str(user_code),
            hostname: self.hostname.clone(),
            owner_reference: self.owner_reference.clone(),
            node_id: self.node_id.clone(),
        }
    }

    /// Remembers the id of the request the server created.
    pub fn on_request_created(&mut self, request_id: String)
        ensures
            final(self).request_id == Some(request_id),
            final(self).api_url == old(self).api_url,
            final(self).node_info == old(self).node_info,
            final(self).hostname == old(self).hostname,
            final(self).node_id == old(self).node_id,
            final(self).owner_reference == old(self).owner_reference,
    {
        self.request_id = Some(request_id);
    }

    /// The endpoint that creates requests for approval.
    pub fn requests_url(&self) -> (r: String)
        ensures
            r@ == self.api_url@ + "/api/v0/nodes/auth"@,
    {
        endpoint(self.api_url.as_str(), "/api/v0/nodes/auth")
    }

    /// The endpoint of the request created before, deleted once the node is
    /// approved.
    pub fn request_url(&self) -> (r: String)
        requires
            self.request_id.is_some(),
        ensures
            r@ == self.api_url@ + "/api/v0/nodes/auth/"@ + self.request_id.unwrap()@,
    {
        let id = match &self.request_id {
            Some(i) => i.clone(),
            None => String::new(),
        };
        object_endpoint(self.api_url.as_str(), "/api/v0/nodes/auth/", id.as_str())
    }
}

/// The handler of a login on a terminal: the user is shown the page to visit
/// and the code to enter there.
#[derive(Debug, Clone, Copy)]
pub struct PrintUserAuthRequestHandler;

impl PrintUserAuthRequestHandler {
    /// The text shown for a device-flow request: a blank line, the page to
    /// visit, the code to enter, and a blank line.
    pub fn auth_request_text(&self, verification_uri: &str, user_code: &str) -> (r: String)
        ensures
            r@ == "\nTo authenticate, visit: "@ + verification_uri@ + "\nEnter this code: "@
                + user_code@ + "\n\n"@,
    {
        let mut s = string_from_str("\nTo authenticate, visit: ");
        s.append(verification_uri);
        s.append("\nEnter this code: ");
        s.append(user_code);
        s.append("\n\n");
        s
    }
}

// ---------------------------------------------------------------------------
// Waiting for a device login
// ---------------------------------------------------------------------------

/// How long the client waits for a device login, and the pause between two
/// polls, in seconds.
pub const LOGIN_TIMEOUT_SECS: u64 = 120;

/// The pause between two polls of a device login, in seconds.
pub const LOGIN_POLL_SECS: u64 = 2;

/// The endpoints of a device login: where it starts, where the user
/// approves it, and where its result is polled.
#[derive(Debug, Clone)]
pub struct LoginUrls {
    pub start: String,
    pub browser: String,
    pub poll: String,
}

/// The endpoints of a device login, given the id the API assigned to it.
pub fn login_urls(api_url: &str, app_url: &str, login_id: &str) -> (r: LoginUrls)
    ensures
        r.start@ == api_url@ + "/v1/device/login"@,
        r.browser@ == app_url@ + "/devices/login/"@ + login_id@,
        r.poll@ == api_url@ + "/v1/device/login/"@ + login_id@,
{
    LoginUrls {
        start: endpoint(api_url, "/v1/device/login"),
        browser: object_endpoint(app_url, "/devices/login/", login_id),
        poll: object_endpoint(api_url, "/v1/device/login/", login_id),
    }
}

/// The server and owner of a device where both are known: no login is
/// needed.
pub fn known_server_and_owner(owner_reference: &Option<String>, server_url: &Option<String>) -> (r:
    Option<(String, String)>)
    ensures
        match (*owner_reference, *server_url) {
            (Some(o), Some(s)) => r == Some((s, o)),
            _ => r.is_none(),
        },
{
    match (owner_reference, server_url) {
        (Some(o), Some(s)) => Some((s.clone(), o.clone())),
        _ => None,
    }
}

/// What the client does after polling a device login.
#[derive(Debug, Clone)]
pub enum LoginStep {
    /// The login is approved: the server's URL and the owner.
    Done(String, String),
    /// Wait `LOGIN_POLL_SECS` and poll again.
    PollAgain,
    /// Give up: the login took too long.
    TimedOut,
}

/// How long the client has waited for a device login.
#[derive(Debug, Clone, Copy)]
pub struct LoginWait {
    pub waited_secs: u64,
}

impl LoginWait {
    /// No wait yet.
    pub fn new() -> (w: LoginWait)
        ensures
            w.waited_secs == 0,
    {
        LoginWait { waited_secs: 0 }
    }

    /// Takes in a poll's answer: done once it holds both the URL and the
    /// owner; else the client waits two seconds more and gives up once it
    /// has waited 120.
    pub fn on_poll(&mut self, url: Option<String>, owner_reference: Option<String>) -> (s:
        LoginStep)
        requires
            old(self).waited_secs < LOGIN_TIMEOUT_SECS,
        ensures
            match (url, owner_reference) {
                (Some(u), Some(o)) => s matches LoginStep::Done(su, so) && su == u && so == o
                    && final(self).waited_secs == old(self).waited_secs,
                _ => final(self).waited_secs == old(self).waited_secs + LOGIN_POLL_SECS && (if final(
                    self).waited_secs >= LOGIN_TIMEOUT_SECS {
                    s is TimedOut
                } else {
                    s is PollAgain
                }),
            },
    {
        match (url, owner_reference) {
            (Some(u), Some(o)) => LoginStep::Done(u, o),
            _ => {
                self.waited_secs = self.waited_secs + LOGIN_POLL_SECS;
                if self.waited_secs >= LOGIN_TIMEOUT_SECS {
                    LoginStep::TimedOut
                } else {
                    LoginStep::PollAgain
                }
            },
        }
    }
}

/// A device login is polled at most sixty times: after `n` unanswered polls
/// the client has waited `2 n` seconds, and it gives up at the sixtieth.
pub proof fn lemma_login_poll_bound(n: nat)
    ensures
        (n * LOGIN_POLL_SECS >= LOGIN_TIMEOUT_SECS) <==> n >= 60,
{
}

} // verus!
