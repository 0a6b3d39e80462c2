//! The control tunnel: how messages and datagrams are framed on the QUIC
//! connection, and the heartbeat state the tunnel keeps.
use vstd::prelude::*;

use crate::text::{string_from_str};

verus! {

// ---------------------------------------------------------------------------
// Big-endian integers
// ---------------------------------------------------------------------------

/// The four big-endian bytes of a `u32` (`u32::to_be_bytes`).
pub open spec fn be32(n: u32) -> Seq<u8> {
    seq![
        (n / 0x100_0000) as u8,
        ((n / 0x1_0000) % 0x100) as u8,
        ((n / 0x100) % 0x100) as u8,
        (n % 0x100) as u8,
    ]
}

/// The `u32` of four big-endian bytes (`u32::from_be_bytes`).
pub open spec fn from_be32(b: Seq<u8>) -> u32
    recommends
        b.len() >= 4,
{
    (b[0] * 0x100_0000 + b[1] * 0x1_0000 + b[2] * 0x100 + b[3]) as u32
}

/// The two big-endian bytes of a `u16` (`u16::to_be_bytes`).
pub open spec fn be16(n: u16) -> Seq<u8> {
    seq![(n / 0x100) as u8, (n % 0x100) as u8]
}

/// The `u16` of two big-endian bytes (`u16::from_be_bytes`).
pub open spec fn from_be16(b: Seq<u8>) -> u16
    recommends
        b.len() >= 2,
{
    (b[0] * 0x100 + b[1]) as u16
}

/// Reading back the bytes of a `u32` gives the number.
pub proof fn lemma_be32_roundtrip(n: u32)
    ensures
        from_be32(be32(n)) == n,
        be32(n).len() == 4,
{
    let b0 = n / 0x100_0000;
    let b1 = (n / 0x1_0000) % 0x100;
    let b2 = (n / 0x100) % 0x100;
    let b3 = n % 0x100;
    assert(b0 * 0x100_0000 + b1 * 0x1_0000 + b2 * 0x100 + b3 == n) by (nonlinear_arith)
        requires
            b0 == n / 0x100_0000,
            b1 == (n / 0x1_0000) % 0x100,
            b2 == (n / 0x100) % 0x100,
            b3 == n % 0x100,
    {
        assert(n == (n / 0x100) * 0x100 + n % 0x100);
        assert(n / 0x100 == (n / 0x1_0000) * 0x100 + (n / 0x100) % 0x100);
        assert(n / 0x1_0000 == (n / 0x100_0000) * 0x100 + (n / 0x1_0000) % 0x100);
    }
    assert(b0 < 0x100);
}

/// Reading back the bytes of a `u16` gives the number.
pub proof fn lemma_be16_roundtrip(n: u16)
    ensures
        from_be16(be16(n)) == n,
        be16(n).len() == 2,
{
    assert(n == (n / 0x100) * 0x100 + n % 0x100);
}

/// The big-endian bytes of a `u32`.
pub fn u32_to_be(n: u32) -> (r: Vec<u8>)
    ensures
        r@ == be32(n),
{
    let mut v: Vec<u8> = Vec::new();
    v.push((n / 0x100_0000) as u8);
    v.push(((n / 0x1_0000) % 0x100) as u8);
    v.push(((n / 0x100) % 0x100) as u8);
    v.push((n % 0x100) as u8);
    assert(v@ =~= be32(n));
    v
}

/// The `u32` of the first four bytes, big-endian.
pub fn u32_from_be(b: &[u8]) -> (r: u32)
    requires
        b@.len() >= 4,
    ensures
        r == from_be32(b@),
{
    let v: u64 = (b[0] as u64) * 0x100_0000 + (b[1] as u64) * 0x1_0000 + (b[2] as u64) * 0x100
        + (b[3] as u64);
    v as u32
}

/// The big-endian bytes of a `u16`.
pub fn u16_to_be(n: u16) -> (r: Vec<u8>)
    ensures
        r@ == be16(n),
{
    let mut v: Vec<u8> = Vec::new();
    v.push((n / 0x100) as u8);
    v.push((n % 0x100) as u8);
    assert(v@ =~= be16(n));
    v
}

/// The `u16` of the first two bytes, big-endian.
pub fn u16_from_be(b: &[u8]) -> (r: u16)
    requires
        b@.len() >= 2,
    ensures
        r == from_be16(b@),
{
    let v: u32 = (b[0] as u32) * 0x100 + (b[1] as u32);
    v as u16
}

/// Appends `src` to `dst`.
fn extend(dst: &mut Vec<u8>, src: &[u8])
    ensures
        final(dst)@ == old(dst)@ + src@,
{
    let ghost start = dst@;
    let mut i: usize = 0;
    while i < src.len()
        invariant
            i <= src.len(),
            dst@ == start + src@.take(i as int),
        decreases src.len() - i,
    {
        dst.push(src[i]);
        assert(src@.take(i + 1) =~= src@.take(i as int).push(src@[i as int]));
        i = i + 1;
    }
    assert(src@.take(src.len() as int) =~= src@);
}

/// The bytes `from..to` of `src`.
pub fn byte_range(src: &[u8], from: usize, to: usize) -> (r: Vec<u8>)
    requires
        from <= to <= src@.len(),
    ensures
        r@ == src@.subrange(from as int, to as int),
{
    let mut r: Vec<u8> = Vec::new();
    let mut i: usize = from;
    while i < to
        invariant
            from <= i <= to <= src@.len(),
            r@ == src@.subrange(from as int, i as int),
        decreases to - i,
    {
        r.push(src[i]);
        assert(src@.subrange(from as int, i + 1) =~= src@.subrange(from as int, i as int).push(
            src@[i as int],
        ));
        i = i + 1;
    }
    r
}

// ---------------------------------------------------------------------------
// Messages on the control stream: a 4-byte big-endian length, then the body
// ---------------------------------------------------------------------------

/// A framed message: its length, truncated to 32 bits as the sender writes
/// it, then the body.
pub open spec fn message_frame(body: Seq<u8>) -> Seq<u8> {
    be32(body.len() as u32) + body
}

/// Frames a message body for the control stream (`write_msg`).
pub fn frame_message(body: &[u8]) -> (r: Vec<u8>)
    ensures
        r@ == message_frame(body@),
{
    let len = body.len() as u32;
    let mut out = u32_to_be(len);
    extend(&mut out, body);
    out
}

/// What reading a message from the front of a byte stream gives: the body
/// and the bytes it took, or none while the stream holds too few bytes.
pub open spec fn read_message(stream: Seq<u8>) -> Option<(Seq<u8>, int)> {
    if stream.len() < 4 {
        None
    } else {
        let len = from_be32(stream) as int;
        if stream.len() < 4 + len {
            None
        } else {
            Some((stream.subrange(4, 4 + len), 4 + len))
        }
    }
}

/// Reads a message from the front of the received bytes (`read_msg`): the
/// length, then that many bytes of body.
pub fn decode_message(stream: &[u8]) -> (r: Option<(Vec<u8>, usize)>)
    ensures
        match r {
            Some((body, used)) => read_message(stream@) == Some((body@, used as int)),
            None => read_message(stream@).is_none(),
        },
{
    if stream.len() < 4 {
        return None;
    }
    let len = u32_from_be(stream) as usize;
    if stream.len() - 4 < len {
        return None;
    }
    let body = byte_range(stream, 4, 4 + len);
    Some((body, 4 + len))
}

/// A framed message reads back as itself, leaving what follows it, for
/// every body whose length fits the 32-bit length field.
pub proof fn lemma_message_roundtrip(body: Seq<u8>, rest: Seq<u8>)
    requires
        body.len() <= u32::MAX,
    ensures
        read_message(message_frame(body) + rest) == Some((body, 4 + body.len() as int)),
{
    lemma_be32_roundtrip(body.len() as u32);
    let s = message_frame(body) + rest;
    assert(s.subrange(0, 4) =~= be32(body.len() as u32));
    assert(from_be32(s) == from_be32(be32(body.len() as u32)));
    assert(s.subrange(4, 4 + body.len() as int) =~= body);
}

// ---------------------------------------------------------------------------
// Datagrams: a 4-byte big-endian channel id, then the payload
// ---------------------------------------------------------------------------

/// A framed datagram.
pub open spec fn datagram_frame(id: u32, payload: Seq<u8>) -> Seq<u8> {
    be32(id) + payload
}

/// Frames a datagram of a UDP channel.
pub fn frame_datagram(id: u32, payload: &[u8]) -> (r: Vec<u8>)
    ensures
        r@ == datagram_frame(id, payload@),
{
    let mut out = u32_to_be(id);
    extend(&mut out, payload);
    out
}

/// What a received datagram carries: the channel id and the payload, or
/// none for a datagram shorter than an id (it is dropped).
pub open spec fn datagram_parts(d: Seq<u8>) -> Option<(u32, Seq<u8>)> {
    if d.len() < 4 {
        None
    } else {
        Some((from_be32(d), d.skip(4)))
    }
}

/// Splits a received datagram into its channel id and payload.
pub fn parse_datagram(d: &[u8]) -> (r: Option<(u32, Vec<u8>)>)
    ensures
        match r {
            Some((id, payload)) => datagram_parts(d@) == Some((id, payload@)),
            None => datagram_parts(d@).is_none(),
        },
{
    if d.len() < 4 {
        return None;
    }
    let id = u32_from_be(d);
    let payload = byte_range(d, 4, d.len());
    assert(payload@ =~= d@.skip(4));
    Some((id, payload))
}

/// A framed datagram reads back as its channel id and payload.
pub proof fn lemma_datagram_roundtrip(id: u32, payload: Seq<u8>)
    ensures
        datagram_parts(datagram_frame(id, payload)) == Some((id, payload)),
{
    lemma_be32_roundtrip(id);
    let d = datagram_frame(id, payload);
    assert(d.skip(4) =~= payload);
}

/// The body of a received datagram for the UDP forward of channel
/// `channel`: none for a short datagram or one of another channel.
pub fn datagram_for_channel(d: &[u8], channel: u32) -> (r: Option<Vec<u8>>)
    ensures
        match datagram_parts(d@) {
            Some((id, body)) => if id == channel {
                r matches Some(b) && b@ == body
            } else {
                r is None
            },
            None => r is None,
        },
{
    match parse_datagram(d) {
        Some((id, body)) => if id == channel {
            Some(body)
        } else {
            None
        },
        None => None,
    }
}

// ---------------------------------------------------------------------------
// UDP packets on a port-forward stream: a 2-byte big-endian length
// ---------------------------------------------------------------------------

/// A framed UDP packet: its length, truncated to 16 bits as the sender writes
/// it, then the packet.
pub open spec fn packet_frame(packet: Seq<u8>) -> Seq<u8> {
    be16(packet.len() as u16) + packet
}

/// Frames a UDP packet for a port-forward stream.
pub fn frame_packet(packet: &[u8]) -> (r: Vec<u8>)
    ensures
        r@ == packet_frame(packet@),
{
    let len = packet.len() as u16;
    let mut out = u16_to_be(len);
    extend(&mut out, packet);
    out
}

/// What reading a packet from the front of a stream gives.
pub open spec fn read_packet(stream: Seq<u8>) -> Option<(Seq<u8>, int)> {
    if stream.len() < 2 {
        None
    } else {
        let len = from_be16(stream) as int;
        if stream.len() < 2 + len {
            None
        } else {
            Some((stream.subrange(2, 2 + len), 2 + len))
        }
    }
}

/// Reads a UDP packet from the front of the received bytes.
pub fn decode_packet(stream: &[u8]) -> (r: Option<(Vec<u8>, usize)>)
    ensures
        match r {
            Some((p, used)) => read_packet(stream@) == Some((p@, used as int)),
            None => read_packet(stream@).is_none(),
        },
{
    if stream.len() < 2 {
        return None;
    }
    let len = u16_from_be(stream) as usize;
    if stream.len() - 2 < len {
        return None;
    }
    let p = byte_range(stream, 2, 2 + len);
    Some((p, 2 + len))
}

/// A framed packet reads back as itself, for every packet that fits the
/// 16-bit length field.
pub proof fn lemma_packet_roundtrip(packet: Seq<u8>, rest: Seq<u8>)
    requires
        packet.len() <= u16::MAX,
    ensures
        read_packet(packet_frame(packet) + rest) == Some((packet, 2 + packet.len() as int)),
{
    lemma_be16_roundtrip(packet.len() as u16);
    let s = packet_frame(packet) + rest;
    assert(s.subrange(0, 2) =~= be16(packet.len() as u16));
    assert(from_be16(s) == from_be16(be16(packet.len() as u16)));
    assert(s.subrange(2, 2 + packet.len() as int) =~= packet);
}

// ---------------------------------------------------------------------------
// Heartbeats
// ---------------------------------------------------------------------------

/// What the tunnel remembers between heartbeats.
#[derive(Debug, Clone)]
pub struct HeartbeatState {
    pub last_instruction_hash: String,
    pub heartbeat_interval: u64,
    pub first_heartbeat: bool,
}

/// The parts of a heartbeat request that the state decides.
#[derive(Debug, Clone)]
pub struct HeartbeatPlan {
    pub last_instruction_hash: String,
    /// The first heartbeat carries the client version and the system
    /// information.
    pub include_system_info: bool,
    /// Seconds to wait after sending it.
    pub interval: u64,
}

impl HeartbeatState {
    /// The state of a new tunnel: no instruction seen, the configured
    /// interval, the first heartbeat still to send.
    pub fn new(heartbeat_interval: u64) -> (s: HeartbeatState)
        ensures
            s.last_instruction_hash@ == Seq::<char>::empty(),
            s.heartbeat_interval == heartbeat_interval,
            s.first_heartbeat,
    {
        HeartbeatState {
            last_instruction_hash: String::new(),
            heartbeat_interval,
            first_heartbeat: true,
        }
    }

    /// The next periodic heartbeat; only the first one carries the system
    /// information.
    pub fn next_heartbeat(&mut self) -> (p: HeartbeatPlan)
        ensures
            p.last_instruction_hash == old(self).last_instruction_hash,
            p.include_system_info == old(self).first_heartbeat,
            p.interval == old(self).heartbeat_interval,
            !final(self).first_heartbeat,
            final(self).last_instruction_hash == old(self).last_instruction_hash,
            final(self).heartbeat_interval == old(self).heartbeat_interval,
    {
        let first = self.first_heartbeat;
        self.first_heartbeat = false;
        HeartbeatPlan {
            last_instruction_hash: self.last_instruction_hash.clone(),
            include_system_info: first,
            interval: self.heartbeat_interval,
        }
    }

    /// Takes in the server's answer: a new interval where the server sets
    /// one, and the hash of the instructions it answered.
    pub fn on_response(&mut self, interval_secs: Option<u32>, instruction_hash: String)
        ensures
            final(self).heartbeat_interval == (match interval_secs {
                Some(n) => n as u64,
                None => old(self).heartbeat_interval,
            }),
            final(self).last_instruction_hash == instruction_hash,
            final(self).first_heartbeat == old(self).first_heartbeat,
    {
        match interval_secs {
            Some(n) => {
                self.heartbeat_interval = n as u64;
            },
            None => {},
        }
        self.last_instruction_hash = instruction_hash;
    }
}

/// The host of a device's control tunnel: `control-<short id>.<server host>`.
pub open spec fn control_host_of(short_id: Seq<char>, server_host: Seq<char>) -> Seq<char> {
    "control-"@ + short_id + "."@ + server_host
}

/// The host of a device's control tunnel.
pub fn control_host(short_id: &str, server_host: &str) -> (r: String)
    ensures
        r@ == control_host_of(short_id@, server_host@),
{
    let mut s = string_from_str("control-");
    s.append(short_id);
    s.append(".");
    s.append(server_host);
    s
}

} // verus!
