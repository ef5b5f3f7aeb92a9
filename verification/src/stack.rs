//! TerraLink receive dispatch: what the hub does with each decoded frame.

use vstd::prelude::*;
use vstd::string::StringExecFns;
use vstd::utf8::{
    decode_utf8, encode_utf8, encode_utf8_decode_utf8, encode_utf8_valid_utf8, valid_utf8,
};

use crate::registry::{ClaimState, DeviceRecord, DeviceRecordView, DeviceRegistry, claimed_record};
use crate::text::{all_digits_below, digits_value, hex4, lemma_hex4_reads_back, push_hex4};

verus! {

/// The packet types that the hub tells apart.
#[derive(Debug, Clone, Copy, PartialEq, Eq, Structural)]
pub enum PacketKind {
    Discovery,
    SensorData,
    Alarm,
    Acknowledgement,
    /// Any other TerraLink packet type.
    Other,
}

/// What the dispatch reads of a decoded TerraLink frame.
#[derive(Debug, Clone)]
pub struct RxFrame {
    /// The packet type, as the hub tells it apart.
    pub kind: PacketKind,
    /// The packet type's wire value.
    pub packet_type: u8,
    /// The sender's routing address.
    pub src_addr: u16,
    /// The sender's sequence number.
    pub sequence: u16,
    /// The frame's payload.
    pub payload: Vec<u8>,
}

/// What became of a received frame.
#[derive(Debug)]
pub enum FrameOutcome {
    /// A discovery: the registry now holds the node, pending, under this identity.
    Discovered { identity: String },
    /// Telemetry (sensor data or an alarm) to keep in the offline buffer.
    Telemetry { src_addr: u16, packet_type: u8, payload: Vec<u8> },
    /// An acknowledgement of this sequence number.
    Acknowledged { sequence: u16 },
    /// A packet type that the hub does not handle.
    Ignored { packet_type: u8 },
}

/// The identity that a Discovery payload announces: a length byte, then that many
/// bytes of UTF-8. None when the payload is too short or the bytes are not UTF-8.
pub open spec fn announced_identity(payload: Seq<u8>) -> Option<Seq<char>> {
    if payload.len() == 0 {
        None
    } else if payload.len() < 1 + payload[0] {
        None
    } else if !valid_utf8(payload.subrange(1, 1 + payload[0])) {
        None
    } else {
        Some(decode_utf8(payload.subrange(1, 1 + payload[0])))
    }
}

/// The identity given to a node whose Discovery payload names none.
pub open spec fn fallback_identity(src_addr: u16) -> Seq<char> {
    "unknown-"@ + hex4(src_addr)
}

/// The identity under which a Discovery from `src_addr` is registered.
pub open spec fn discovered_identity(src_addr: u16, payload: Seq<u8>) -> Seq<char> {
    match announced_identity(payload) {
        Some(id) => id,
        None => fallback_identity(src_addr),
    }
}

/// The record that a Discovery leaves in the registry.
pub open spec fn discovery_record(src_addr: u16, sequence: u16, payload: Seq<u8>) -> DeviceRecordView {
    DeviceRecordView {
        identity: discovered_identity(src_addr, payload),
        routing_addr: src_addr,
        claim: ClaimState::Pending,
        last_seen_seq: sequence,
        node_class: None,
    }
}

/// `String::from_utf8`: the string whose UTF-8 encoding is `bytes`, or None when
/// the bytes are not valid UTF-8. The contract states this over vstd's UTF-8
/// model (`valid_utf8`, `decode_utf8`).
#[verifier::external_body]
fn string_from_utf8(bytes: Vec<u8>) -> (r: Option<String>)
    ensures
        r is Some <==> valid_utf8(bytes@),
        r matches Some(s) ==> s@ == decode_utf8(bytes@),
{
    String::from_utf8(bytes).ok()
}

/// Minimal parse of the Discovery payload: `identity_len` + UTF-8 identity.
pub fn parse_discovery_identity(payload: &[u8]) -> (r: Option<String>)
    ensures
        match r {
            Some(s) => announced_identity(payload@) == Some(s@),
            None => announced_identity(payload@) is None,
        },
{
    if payload.len() == 0 {
        return None;
    }
    let len: usize = payload[0] as usize;
    if payload.len() - 1 < len {
        return None;
    }
    let mut bytes: Vec<u8> = Vec::with_capacity(len);
    let mut i: usize = 1;
    while i < 1 + len
        invariant
            1 <= i <= 1 + len <= payload@.len(),
            len == payload@[0],
            bytes@ == payload@.subrange(1, i as int),
        decreases 1 + len - i,
    {
        bytes.push(payload[i]);
        i = i + 1;
        assert(bytes@ =~= payload@.subrange(1, i as int));
    }
    string_from_utf8(bytes)
}

/// The identity for a Discovery from `src_addr`: the announced one, else `unknown-XXXX`.
pub fn identity_for_discovery(src_addr: u16, payload: &[u8]) -> (s: String)
    ensures
        s@ == discovered_identity(src_addr, payload@),
{
    match parse_discovery_identity(payload) {
        Some(s) => s,
        None => {
            let mut s = String::from_str("unknown-");
            push_hex4(&mut s, src_addr);
            s
        },
    }
}

/// Dispatch one decoded frame: a Discovery registers the node as pending, sensor
/// data and alarms are handed back for the offline buffer, the rest is noted.
pub fn handle_frame(registry: &mut DeviceRegistry, frame: RxFrame) -> (out: FrameOutcome)
    ensures
        frame.kind == PacketKind::Discovery ==> {
            let rec = discovery_record(frame.src_addr, frame.sequence, frame.payload@);
            &&& final(registry)@ == old(registry)@.insert(rec.identity, rec)
            &&& out matches FrameOutcome::Discovered { identity } && identity@ == rec.identity
        },
        frame.kind != PacketKind::Discovery ==> final(registry)@ == old(registry)@,
        (frame.kind == PacketKind::SensorData || frame.kind == PacketKind::Alarm) ==> (
        out matches FrameOutcome::Telemetry { src_addr, packet_type, payload } && src_addr
            == frame.src_addr && packet_type == frame.packet_type && payload@ == frame.payload@),
        frame.kind == PacketKind::Acknowledgement ==> out == (FrameOutcome::Acknowledged {
            sequence: frame.sequence,
        }),
        frame.kind == PacketKind::Other ==> out == (FrameOutcome::Ignored {
            packet_type: frame.packet_type,
        }),
{
    match frame.kind {
        PacketKind::Discovery => {
            let identity = identity_for_discovery(frame.src_addr, frame.payload.as_slice());
            let reported = identity.clone();
            registry.upsert(
                DeviceRecord {
                    identity,
                    routing_addr: frame.src_addr,
                    claim: ClaimState::Pending,
                    last_seen_seq: frame.sequence,
                    node_class: None,
                },
            );
            FrameOutcome::Discovered { identity: reported }
        },
        PacketKind::SensorData | PacketKind::Alarm => FrameOutcome::Telemetry {
            src_addr: frame.src_addr,
            packet_type: frame.packet_type,
            payload: frame.payload,
        },
        PacketKind::Acknowledgement => FrameOutcome::Acknowledged { sequence: frame.sequence },
        PacketKind::Other => FrameOutcome::Ignored { packet_type: frame.packet_type },
    }
}

/// Why a claim could not be applied.
#[derive(Debug, Clone, Copy, PartialEq, Eq, Structural)]
pub enum ClaimError {
    /// No node with that identity has been discovered.
    UnknownDevice,
}

/// The TerraLink packet type of a Configuration frame.
pub const CONFIGURATION_PACKET_TYPE: u8 = 0x07;

/// A Configuration (packet type [`CONFIGURATION_PACKET_TYPE`]) that the hub sends
/// over the radio once a claim is applied: it tells the node, still listening at
/// the address it was last seen at, the routing address it has been given.
#[derive(Debug, Clone, PartialEq, Eq)]
pub struct ConfigurationRequest {
    /// The claimed node's identity.
    pub identity: String,
    /// Where to send the Configuration: the node's address before the claim.
    pub dest_addr: u16,
    /// The routing address the claim gives the node.
    pub assigned_addr: u16,
}

/// Applies a claim from the cloud or the admin: the discovered node becomes claimed
/// at the given routing address, and the Configuration to send it is returned; an
/// unknown identity is refused.
pub fn apply_claim(registry: &mut DeviceRegistry, identity: &str, routing_addr: u16) -> (r: Result<
    ConfigurationRequest,
    ClaimError,
>)
    ensures
        old(registry)@.contains_key(identity@) <==> r is Ok,
        r is Ok ==> final(registry)@ == old(registry)@.insert(
            identity@,
            claimed_record(old(registry)@[identity@], routing_addr),
        ),
        r matches Ok(req) ==> {
            &&& req.identity@ == identity@
            &&& req.dest_addr == old(registry)@[identity@].routing_addr
            &&& req.assigned_addr == routing_addr
        },
        r is Err ==> (r matches Err(e) && e == ClaimError::UnknownDevice) && final(registry)@
            == old(registry)@,
{
    let dest_addr = match registry.get(identity) {
        Some(rec) => rec.routing_addr,
        None => {
            return Err(ClaimError::UnknownDevice);
        },
    };
    let found = registry.mark_claimed(identity, routing_addr);
    assert(found);
    Ok(ConfigurationRequest { identity: String::from_str(identity), dest_addr, assigned_addr: routing_addr })
}

/// Discovery, then claim: a discovered node is pending; claiming its identity
/// succeeds, makes it claimed at the given routing address, and takes it out of
/// the pending ones.
pub proof fn lemma_discovery_then_claim(
    m: Map<Seq<char>, DeviceRecordView>,
    src_addr: u16,
    sequence: u16,
    payload: Seq<u8>,
    routing_addr: u16,
)
    ensures
        ({
            let rec = discovery_record(src_addr, sequence, payload);
            let id = rec.identity;
            let m1 = m.insert(id, rec);
            let m2 = m1.insert(id, claimed_record(m1[id], routing_addr));
            &&& crate::registry::pending_only(m1).contains_key(id)
            &&& m1.contains_key(id)
            &&& m2[id].claim == ClaimState::Claimed
            &&& m2[id].routing_addr == routing_addr
            &&& !crate::registry::pending_only(m2).contains_key(id)
        }),
{
}

/// A Discovery payload made of a length byte and the UTF-8 encoding of an identity
/// names that identity, whatever its length up to 255 bytes and whatever follows it.
pub proof fn lemma_identity_round_trip(identity: Seq<char>, rest: Seq<u8>)
    requires
        encode_utf8(identity).len() <= 255,
    ensures
        announced_identity(seq![encode_utf8(identity).len() as u8] + encode_utf8(identity) + rest)
            == Some(identity),
{
    let bytes = encode_utf8(identity);
    let payload = seq![bytes.len() as u8] + bytes + rest;
    assert(payload[0] == bytes.len());
    assert(payload.subrange(1, 1 + bytes.len() as int) =~= bytes);
    encode_utf8_valid_utf8(identity);
    encode_utf8_decode_utf8(identity);
}

/// The bytes after the announced identity do not change what a payload names.
pub proof fn lemma_identity_ignores_trailer(payload: Seq<u8>, rest: Seq<u8>)
    requires
        payload.len() >= 1,
        payload.len() >= 1 + payload[0],
    ensures
        announced_identity(payload + rest) == announced_identity(payload),
{
    assert((payload + rest)[0] == payload[0]);
    assert((payload + rest).subrange(1, 1 + payload[0]) =~= payload.subrange(1, 1 + payload[0]));
}

/// A payload names no identity when it is empty or shorter than its length byte says.
pub proof fn lemma_short_payload_names_none(payload: Seq<u8>)
    requires
        payload.len() == 0 || payload.len() < 1 + payload[0],
    ensures
        announced_identity(payload) is None,
{
}

/// The fallback identity is `unknown-` followed by four upper-case hexadecimal
/// digits that read back as the sender's address; so different addresses never
/// share a fallback identity.
pub proof fn lemma_fallback_names_address(src_addr: u16, other: u16)
    ensures
        fallback_identity(src_addr).len() == 12,
        fallback_identity(src_addr).subrange(0, 8) == "unknown-"@,
        all_digits_below(fallback_identity(src_addr).subrange(8, 12), 16),
        digits_value(fallback_identity(src_addr).subrange(8, 12), 16) == src_addr,
        fallback_identity(src_addr) == fallback_identity(other) ==> src_addr == other,
{
    reveal_strlit("unknown-");
    lemma_hex4_reads_back(src_addr);
    lemma_hex4_reads_back(other);
    let f = fallback_identity(src_addr);
    assert(f.subrange(0, 8) =~= "unknown-"@);
    assert(f.subrange(8, 12) =~= hex4(src_addr));
    if f == fallback_identity(other) {
        assert(fallback_identity(other).subrange(8, 12) =~= hex4(other));
    }
}

} // verus!
