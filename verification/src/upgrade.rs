//! Upgrading an HTTP request of the device's REST server to a stream: the
//! bearer token carried in `Sec-WebSocket-Protocol`, the transport chosen by
//! the `Upgrade` header, the `Sec-WebSocket-Accept` answer, and the byte
//! stream read out of WebSocket frames.
use vstd::prelude::*;

use crate::digest::{base64_standard, base64_standard_of, sha1_digest, sha1_of};
use crate::text::{
    chars_of, contains_chars, contains_seq, is_prefix, starts_with, string_from_chars,
    string_from_str, strip_all_prefix, trim_start_matches,
};

verus! {

/// The token of a `Sec-WebSocket-Protocol` value `bearer.<jwt>`: the value
/// without its leading `bearer.` prefixes; none for a missing header or one
/// of another form.
pub open spec fn bearer_token_of(proto: Option<Seq<char>>) -> Option<Seq<char>> {
    match proto {
        Some(p) => if is_prefix("bearer."@, p) {
            Some(strip_all_prefix(p, "bearer."@))
        } else {
            None
        },
        None => None,
    }
}

/// Takes the token out of the `Sec-WebSocket-Protocol` header; the request
/// is refused (401) without one.
pub fn bearer_token(proto: Option<&str>) -> (r: Result<String, String>)
    ensures
        match bearer_token_of(
            match proto {
                Some(p) => Some(p@),
                None => None,
            },
        ) {
            Some(t) => r is Ok && r->Ok_0@ == t,
            None => r is Err && r->Err_0@
                == "Missing or invalid WebSocket protocol (bearer.<jwt>)"@,
        },
{
    match proto {
        Some(p) => {
            let cs = chars_of(p);
            let prefix = chars_of("bearer.");
            if starts_with(cs.as_slice(), prefix.as_slice()) {
                let t = trim_start_matches(cs.as_slice(), prefix.as_slice());
                Ok(string_from_chars(t.as_slice()))
            } else {
                Err(string_from_str("Missing or invalid WebSocket protocol (bearer.<jwt>)"))
            }
        },
        None => Err(string_from_str("Missing or invalid WebSocket protocol (bearer.<jwt>)")),
    }
}

/// The `Sec-WebSocket-Accept` answer to a `Sec-WebSocket-Key`: the standard
/// base64 of the SHA-1 digest of the key followed by the protocol's GUID.
pub open spec fn websocket_accept_of(key: Seq<char>) -> Seq<char> {
    base64_standard_of(
        sha1_of(
            vstd::utf8::encode_utf8(key) + vstd::utf8::encode_utf8(
                "258EAFA5-E914-47DA-95CA-C5AB0DC85B11"@,
            ),
        ),
    )
}

/// Computes `Sec-WebSocket-Accept` from `Sec-WebSocket-Key`.
pub fn websocket_accept(key: &str) -> (r: String)
    ensures
        r@ == websocket_accept_of(key@),
{
    let guid = "258EAFA5-E914-47DA-95CA-C5AB0DC85B11";
    let kb = key.as_bytes();
    let gb = guid.as_bytes();
    let mut data: Vec<u8> = Vec::new();
    let mut i: usize = 0;
    while i < kb.len()
        invariant
            i <= kb.len(),
            data@ == kb@.take(i as int),
        decreases kb.len() - i,
    {
        data.push(kb[i]);
        assert(kb@.take(i + 1) =~= kb@.take(i as int).push(kb@[i as int]));
        i = i + 1;
    }
    assert(kb@.take(kb.len() as int) =~= kb@);
    let mut j: usize = 0;
    while j < gb.len()
        invariant
            j <= gb.len(),
            data@ == kb@ + gb@.take(j as int),
        decreases gb.len() - j,
    {
        data.push(gb[j]);
        assert(gb@.take(j + 1) =~= gb@.take(j as int).push(gb@[j as int]));
        j = j + 1;
    }
    assert(gb@.take(gb.len() as int) =~= gb@);
    let digest = sha1_digest(data.as_slice());
    base64_standard(digest.as_slice())
}

/// ASCII lowercase of a character.
pub open spec fn ascii_lower(c: char) -> char {
    if 'A' <= c && c <= 'Z' {
        ((c as u32) + 32) as char
    } else {
        c
    }
}

/// `str::to_ascii_lowercase`.
pub open spec fn ascii_lower_of(s: Seq<char>) -> Seq<char> {
    s.map_values(|c: char| ascii_lower(c))
}

/// `str::to_ascii_lowercase` on character sequences.
pub fn to_ascii_lowercase(s: &[char]) -> (r: Vec<char>)
    ensures
        r@ == ascii_lower_of(s@),
{
    let mut r: Vec<char> = Vec::new();
    let mut i: usize = 0;
    while i < s.len()
        invariant
            i <= s.len(),
            r@ == ascii_lower_of(s@.take(i as int)),
        decreases s.len() - i,
    {
        let c = s[i];
        let l = if 'A' <= c && c <= 'Z' {
            ((c as u32) + 32) as u8 as char
        } else {
            c
        };
        assert(l == ascii_lower(c)) by {
            if 'A' <= c && c <= 'Z' {
                assert((c as u32) + 32 < 128);
            }
        }
        r.push(l);
        assert(ascii_lower_of(s@.take(i + 1)) =~= ascii_lower_of(s@.take(i as int)).push(
            ascii_lower(s@[i as int]),
        ));
        i = i + 1;
    }
    assert(s@.take(s.len() as int) =~= s@);
    r
}

/// How an upgrade request is answered.
#[derive(Debug, Clone)]
pub enum UpgradePlan {
    /// Switch to a raw byte stream.
    Raw,
    /// Switch to WebSocket, answering with this `Sec-WebSocket-Accept`.
    WebSocket(String),
    /// Refuse with 400 and this message.
    Reject(String),
}

/// The transport an upgrade asks for, given its `Upgrade` header (none where
/// it is missing or not text) and its `Sec-WebSocket-Key` (none where it is
/// missing, an error where it is not text): `raw` wins over `websocket`,
/// compared without case.
pub open spec fn upgrade_plan_ok(
    upgrade: Option<Seq<char>>,
    key: Option<Result<Seq<char>, ()>>,
    plan: UpgradePlan,
) -> bool {
    let u = ascii_lower_of(
        match upgrade {
            Some(u) => u,
            None => Seq::empty(),
        },
    );
    if contains_seq(u, "raw"@) {
        plan is Raw
    } else if contains_seq(u, "websocket"@) {
        match key {
            Some(Ok(k)) => plan matches UpgradePlan::WebSocket(a) && a@ == websocket_accept_of(k),
            Some(Err(_)) => plan matches UpgradePlan::Reject(m) && m@
                == "invalid Sec-WebSocket-Key"@,
            None => plan matches UpgradePlan::Reject(m) && m@ == "missing Sec-WebSocket-Key"@,
        }
    } else {
        plan matches UpgradePlan::Reject(m) && m@ == "Upgrade must be websocket or raw"@
    }
}

/// Decides how to answer an upgrade request.
pub fn upgrade_plan(upgrade: Option<&str>, key: Option<Result<&str, ()>>) -> (p: UpgradePlan)
    ensures
        upgrade_plan_ok(
            match upgrade {
                Some(u) => Some(u@),
                None => None,
            },
            match key {
                Some(Ok(k)) => Some(Ok(k@)),
                Some(Err(e)) => Some(Err(e)),
                None => None,
            },
            p,
        ),
{
    let raw_u = match upgrade {
        Some(u) => chars_of(u),
        None => Vec::new(),
    };
    let u = to_ascii_lowercase(raw_u.as_slice());
    let raw = chars_of("raw");
    let ws = chars_of("websocket");
    if contains_chars(u.as_slice(), raw.as_slice()) {
        return UpgradePlan::Raw;
    }
    if contains_chars(u.as_slice(), ws.as_slice()) {
        return match key {
            Some(Ok(k)) => UpgradePlan::WebSocket(websocket_accept(k)),
            Some(Err(_)) => UpgradePlan::Reject(string_from_str("invalid Sec-WebSocket-Key")),
            None => UpgradePlan::Reject(string_from_str("missing Sec-WebSocket-Key")),
        };
    }
    UpgradePlan::Reject(string_from_str("Upgrade must be websocket or raw"))
}

/// The answer to an upgrade request.
#[derive(Debug, Clone)]
pub enum UpgradeAnswer {
    /// Refused with this status and message; the handler does not run.
    Refuse(u16, String),
    /// 101 with `Upgrade: raw` and this `Sec-WebSocket-Protocol`; the
    /// handler then runs on the raw stream.
    SwitchRaw(String),
    /// 101 with this `Sec-WebSocket-Accept` and `Sec-WebSocket-Protocol`;
    /// the handler then runs on the WebSocket stream.
    SwitchWebSocket(String, String),
}

/// The handler of an upgrade runs exactly when the answer is a 101.
pub open spec fn runs_handler(a: UpgradeAnswer) -> bool {
    !(a is Refuse)
}

/// The answer is a refusal with this status and message.
pub open spec fn refuses(a: UpgradeAnswer, status: u16, m: Seq<char>) -> bool {
    a matches UpgradeAnswer::Refuse(s, t) && s == status && t@ == m
}

/// The answer to an upgrade request, in the order the server checks: the
/// handler's parameters (400), then the `bearer.<jwt>` protocol and its
/// token (401), then the transport asked for (`upgrade_plan_ok`).
pub open spec fn upgrade_answer_ok(
    args_ok: bool,
    proto: Option<Seq<char>>,
    token_valid: bool,
    upgrade: Option<Seq<char>>,
    key: Option<Result<Seq<char>, ()>>,
    a: UpgradeAnswer,
) -> bool {
    if !args_ok {
        refuses(a, 400, "invalid parameters"@)
    } else {
        match bearer_token_of(proto) {
            None => refuses(a, 401, "Missing or invalid WebSocket protocol (bearer.<jwt>)"@),
            Some(jwt) => if !token_valid {
                refuses(a, 401, "Invalid auth token"@)
            } else {
                let u = ascii_lower_of(
                    match upgrade {
                        Some(u) => u,
                        None => Seq::empty(),
                    },
                );
                if contains_seq(u, "raw"@) {
                    a matches UpgradeAnswer::SwitchRaw(p) && p@ == "bearer."@ + jwt
                } else if contains_seq(u, "websocket"@) {
                    match key {
                        Some(Ok(k)) => a matches UpgradeAnswer::SwitchWebSocket(acc, p) && acc@
                            == websocket_accept_of(k) && p@ == "bearer."@ + jwt,
                        Some(Err(_)) => refuses(a, 400, "invalid Sec-WebSocket-Key"@),
                        None => refuses(a, 400, "missing Sec-WebSocket-Key"@),
                    }
                } else {
                    refuses(a, 400, "Upgrade must be websocket or raw"@)
                }
            },
        }
    }
}

/// Answers an upgrade request: `args_ok` tells whether the handler's
/// parameters could be read from the request, `proto` is the
/// `Sec-WebSocket-Protocol` header, `token_valid` whether the token it
/// carries passed `validate_token`, and `upgrade` and `key` are the
/// `Upgrade` and `Sec-WebSocket-Key` headers.
pub fn upgrade_decision(
    args_ok: bool,
    proto: Option<&str>,
    token_valid: bool,
    upgrade: Option<&str>,
    key: Option<Result<&str, ()>>,
) -> (a: UpgradeAnswer)
    ensures
        upgrade_answer_ok(
            args_ok,
            match proto {
                Some(p) => Some(p@),
                None => None,
            },
            token_valid,
            match upgrade {
                Some(u) => Some(u@),
                None => None,
            },
            match key {
                Some(Ok(k)) => Some(Ok(k@)),
                Some(Err(e)) => Some(Err(e)),
                None => None,
            },
            a,
        ),
{
    if !args_ok {
        return UpgradeAnswer::Refuse(400, string_from_str("invalid parameters"));
    }
    let jwt = match bearer_token(proto) {
        Ok(t) => t,
        Err(m) => {
            return UpgradeAnswer::Refuse(401, m);
        },
    };
    if !token_valid {
        return UpgradeAnswer::Refuse(401, string_from_str("Invalid auth token"));
    }
    match upgrade_plan(upgrade, key) {
        UpgradePlan::Raw => UpgradeAnswer::SwitchRaw(protocol_header(jwt.as_str())),
        UpgradePlan::WebSocket(acc) => UpgradeAnswer::SwitchWebSocket(
            acc,
            protocol_header(jwt.as_str()),
        ),
        UpgradePlan::Reject(m) => UpgradeAnswer::Refuse(400, m),
    }
}

/// The `Sec-WebSocket-Protocol` an accepted upgrade answers with:
/// `bearer.<jwt>`.
pub fn protocol_header(jwt: &str) -> (r: String)
    ensures
        r@ == "bearer."@ + jwt@,
{
    let mut s = string_from_str("bearer.");
    s.append(jwt);
    s
}

// ---------------------------------------------------------------------------
// Reading a byte stream out of WebSocket frames
// ---------------------------------------------------------------------------

/// The bytes received in frames and not yet read, and whether the
/// WebSocket has closed.
#[derive(Debug, Clone)]
pub struct WsReadBuffer {
    pub pending: Vec<u8>,
    pub closed: bool,
}

/// The kind of a WebSocket frame.
#[derive(Debug, Clone, Copy, PartialEq, Eq, Structural)]
pub enum WsFrameKind {
    /// Bytes of the stream.
    Binary,
    /// Text, which is not part of the stream.
    Text,
    /// A ping, pong or close frame.
    Control,
}

/// What a read gets.
#[derive(Debug, Clone)]
pub enum WsRead {
    /// These bytes.
    Data(Vec<u8>),
    /// The end of the stream.
    Eof,
    /// Nothing buffered: wait for the next frame.
    NeedFrame,
}

impl WsReadBuffer {
    /// Nothing received yet.
    pub fn new() -> (b: WsReadBuffer)
        ensures
            b.pending@.len() == 0,
            !b.closed,
    {
        WsReadBuffer { pending: Vec::new(), closed: false }
    }

    /// A frame arrived: the data of a binary frame is appended to the
    /// stream; text and control frames leave it as it is.
    pub fn on_frame(&mut self, kind: WsFrameKind, data: &[u8])
        ensures
            kind is Binary ==> final(self).pending@ == old(self).pending@ + data@,
            !(kind is Binary) ==> final(self).pending@ == old(self).pending@,
            final(self).closed == old(self).closed,
    {
        match kind {
            WsFrameKind::Binary => {},
            _ => {
                return;
            },
        }
        let ghost start = self.pending@;
        let mut i: usize = 0;
        while i < data.len()
            invariant
                i <= data.len(),
                self.pending@ == start + data@.take(i as int),
                self.closed == old(self).closed,
            decreases data.len() - i,
        {
            self.pending.push(data[i]);
            assert(data@.take(i + 1) =~= data@.take(i as int).push(data@[i as int]));
            i = i + 1;
        }
        assert(data@.take(data.len() as int) =~= data@);
    }

    /// The WebSocket ended.
    pub fn on_close(&mut self)
        ensures
            final(self).pending@ == old(self).pending@,
            final(self).closed,
    {
        self.closed = true;
    }

    /// A write of `data`: one binary frame holding exactly these bytes (all
    /// of them count as written), or the error of a closed WebSocket.
    pub fn write_frame(&self, data: &[u8]) -> (r: Result<(WsFrameKind, Vec<u8>), String>)
        ensures
            self.closed ==> (r matches Err(e) && e@ == "websocket closed"@),
            !self.closed ==> (r matches Ok((k, f)) && k == WsFrameKind::Binary && f@ == data@),
    {
        if self.closed {
            return Err(crate::text::string_from_str("websocket closed"));
        }
        let f = crate::control::byte_range(data, 0, data.len());
        assert(f@ =~= data@);
        Ok((WsFrameKind::Binary, f))
    }

    /// A read of at most `room` bytes: buffered bytes first, as many as fit;
    /// then the end of the stream once closed; else a wait for a frame.
    pub fn read(&mut self, room: usize) -> (r: WsRead)
        ensures
            old(self).pending@.len() > 0 ==> (r matches WsRead::Data(d) && d@ == old(
                self).pending@.take(read_size(old(self).pending@.len(), room))
                && final(self).pending@ == old(self).pending@.skip(
                read_size(old(self).pending@.len(), room))),
            old(self).pending@.len() == 0 ==> final(self).pending@.len() == 0,
            old(self).pending@.len() == 0 && old(self).closed ==> r is Eof,
            old(self).pending@.len() == 0 && !old(self).closed ==> r is NeedFrame,
            final(self).closed == old(self).closed,
    {
        if self.pending.len() > 0 {
            let n = if self.pending.len() < room {
                self.pending.len()
            } else {
                room
            };
            let head = crate::control::byte_range(self.pending.as_slice(), 0, n);
            let tail = crate::control::byte_range(self.pending.as_slice(), n, self.pending.len());
            assert(head@ =~= old(self).pending@.take(n as int));
            assert(tail@ =~= old(self).pending@.skip(n as int));
            self.pending = tail;
            return WsRead::Data(head);
        }
        if self.closed {
            WsRead::Eof
        } else {
            WsRead::NeedFrame
        }
    }
}

/// How many buffered bytes a read takes: as many as fit.
pub open spec fn read_size(buffered: nat, room: usize) -> int {
    if buffered < room {
        buffered as int
    } else {
        room as int
    }
}

/// Reading never loses or reorders bytes: what a read returns, followed by
/// what stays buffered, is what was buffered.
pub proof fn lemma_read_preserves_stream(pending: Seq<u8>, n: int)
    requires
        0 <= n <= pending.len(),
    ensures
        pending.take(n) + pending.skip(n) == pending,
{
    assert(pending.take(n) + pending.skip(n) =~= pending);
}

} // verus!
