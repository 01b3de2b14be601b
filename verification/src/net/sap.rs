//! SAP over the network: announcing the own stream and collecting those of
//! others.

use super::multicast::MulticastConfig;
use crate::sap;
use crate::sap::{PacketModel, SapError, SapPacket, SAP_PORT};
use crate::sdp;
use crate::sdp::{AudioSession, SessionModel};
use crate::text;
use crate::utf8;
use vstd::prelude::*;

verus! {

/// The well-known group of SAP, as bytes.
pub const SAP_GROUP: [u8; 4] = [239, 255, 255, 255];

/// Multicast settings of SAP for an interface.
pub fn sap_config(interface: [u8; 4]) -> (c: MulticastConfig)
    ensures
        c.group == SAP_GROUP,
        c.port == SAP_PORT,
        c.interface == interface,
        c.ttl == 32,
{
    MulticastConfig::new(SAP_GROUP, SAP_PORT).with_interface(interface)
}

/// FNV-1a with 32 bits.
pub open spec fn fnv32(b: Seq<u8>) -> u32
    decreases b.len(),
{
    if b.len() == 0 {
        0x811c_9dc5
    } else {
        (fnv32(b.drop_last()) ^ (b.last() as u32)).wrapping_mul(0x0100_0193)
    }
}

/// FNV-1a folded to 16 bits: the upper half combined with the lower.
pub open spec fn folded(b: Seq<u8>) -> u16 {
    ((fnv32(b) / 0x1_0000) as u16) ^ ((fnv32(b) % 0x1_0000) as u16)
}

/// A small hash for the message id of SAP: FNV-1a, folded to 16 bits.
pub fn fnv16(b: &[u8]) -> (h: u16)
    ensures
        h == folded(b@),
{
    let mut h: u32 = 0x811c_9dc5;
    let mut i: usize = 0;
    assert(b@.take(0) =~= Seq::<u8>::empty());
    while i < b.len()
        invariant
            i <= b@.len(),
            h == fnv32(b@.take(i as int)),
        decreases b@.len() - i,
    {
        assert(b@.take(i + 1).drop_last() =~= b@.take(i as int));
        h = (h ^ (b[i] as u32)).wrapping_mul(0x0100_0193);
        i = i + 1;
    }
    assert(b@.take(b@.len() as int) =~= b@);
    ((h / 0x1_0000) as u16) ^ ((h % 0x1_0000) as u16)
}

/// What is sent for a session: its description, as an announcement or a
/// deletion. The message id is a hash of the description, so that receivers
/// recognise a stream over repeated announcements, and a change of it.
pub open spec fn notice(source: Seq<u8>, sdp: Seq<char>, announce: bool) -> PacketModel {
    PacketModel {
        announce,
        msg_id_hash: folded(vstd::utf8::encode_utf8(sdp)),
        source,
        payload_type: Some("application/sdp"@),
        payload: vstd::utf8::encode_utf8(sdp),
    }
}

/// Announces a session.
#[derive(Debug)]
pub struct SapAnnouncer {
    source: [u8; 4],
    msg_id_hash: u16,
    sdp: String,
}

impl SapAnnouncer {
    /// The own address.
    pub closed spec fn source_addr(&self) -> Seq<u8> {
        self.source@
    }

    /// The description that is announced.
    pub closed spec fn description(&self) -> Seq<char> {
        self.sdp@
    }

    /// The message id belongs to the description.
    pub closed spec fn wf(&self) -> bool {
        self.msg_id_hash == folded(vstd::utf8::encode_utf8(self.sdp@))
    }

    /// `source_ip` is the own address.
    pub fn new(source_ip: [u8; 4], session: &AudioSession) -> (a: Self)
        ensures
            a.wf(),
            a.source_addr() == source_ip@,
            a.description() == text::joined(session@.sdp_lines()),
    {
        let sdp: String = session.to_sdp();
        let msg_id_hash: u16 = fnv16(sdp.as_str().as_bytes());
        SapAnnouncer { source: source_ip, msg_id_hash, sdp }
    }

    /// The message id, which identifies the stream.
    pub fn msg_id_hash(&self) -> (h: u16)
        requires
            self.wf(),
        ensures
            h == folded(vstd::utf8::encode_utf8(self.description())),
    {
        self.msg_id_hash
    }

    /// The datagram for an announcement or a deletion.
    fn datagram(&self, announce: bool) -> (b: Vec<u8>)
        requires
            self.wf(),
        ensures
            b@ == notice(self.source_addr(), self.description(), announce).wire(),
    {
        let packet = SapPacket {
            announce,
            msg_id_hash: self.msg_id_hash,
            source: self.source,
            payload_type: Some("application/sdp"),
            payload: self.sdp.as_str().as_bytes(),
        };
        packet.to_bytes()
    }

    /// The datagram that announces the session.
    pub fn announce(&self) -> (b: Vec<u8>)
        requires
            self.wf(),
        ensures
            b@ == notice(self.source_addr(), self.description(), true).wire(),
    {
        self.datagram(true)
    }

    /// The datagram that withdraws the session.
    pub fn delete(&self) -> (b: Vec<u8>)
        requires
            self.wf(),
        ensures
            b@ == notice(self.source_addr(), self.description(), false).wire(),
    {
        self.datagram(false)
    }
}

/// A received SAP packet.
#[derive(Debug)]
pub struct SapEvent {
    /// Announcement, or else deletion.
    pub announce: bool,
    /// Message id (the instance of the stream).
    pub msg_id_hash: u16,
    /// Sender by the SAP header.
    pub source: [u8; 4],
    /// Size of the datagram in bytes.
    pub bytes: usize,
    /// The session; `None` where the payload could not be read.
    pub session: Option<AudioSession>,
}

/// The session that an option holds.
pub open spec fn session_view(s: Option<AudioSession>) -> Option<SessionModel> {
    match s {
        Some(a) => Some(a@),
        None => None,
    }
}

/// The session of a payload, `None` where it cannot be read.
pub open spec fn session_in(payload: Seq<char>) -> Option<SessionModel> {
    match sdp::parsed(payload) {
        Ok(m) => Some(m),
        Err(_) => None,
    }
}

/// The event of a packet whose payload reads as `payload`.
pub fn event_of(p: &SapPacket<'_>, payload: &str, bytes: usize) -> (e: SapEvent)
    ensures
        e.announce == p.announce,
        e.msg_id_hash == p.msg_id_hash,
        e.source == p.source,
        e.bytes == bytes,
        session_view(e.session) == session_in(payload@),
{
    let session: Option<AudioSession> = match AudioSession::parse(payload) {
        Ok(s) => Some(s),
        Err(_) => None,
    };
    SapEvent { announce: p.announce, msg_id_hash: p.msg_id_hash, source: p.source, bytes, session }
}

/// Takes in a datagram. A payload that cannot be read does not make the event
/// invalid: it then has no session.
pub fn receive(datagram: &[u8]) -> (r: Result<SapEvent, SapError>)
    ensures
        match sap::parsed(datagram@) {
            Ok(m) => r matches Ok(e) && {
                &&& e.announce == m.announce
                &&& e.msg_id_hash == m.msg_id_hash
                &&& e.source@ == m.source
                &&& e.bytes == datagram@.len()
                &&& session_view(e.session) == session_in(utf8::lossy_text(m.payload))
                &&& vstd::utf8::valid_utf8(m.payload) ==> session_view(e.session) == session_in(
                    vstd::utf8::decode_utf8(m.payload),
                )
            },
            Err(e) => r matches Err(got) && got == e,
        },
{
    match SapPacket::parse(datagram) {
        Ok(p) => {
            let payload: String = utf8::lossy(p.payload);
            proof {
                if vstd::utf8::valid_utf8(p.payload@) {
                    vstd::utf8::encode_utf8_decode_utf8(payload@);
                }
            }
            Ok(event_of(&p, &payload, datagram.len()))
        },
        Err(e) => Err(e),
    }
}

/// The MIME type of a description can stand before it.
proof fn lemma_sdp_mime()
    ensures
        sap::mime_like(vstd::utf8::encode_utf8("application/sdp"@)),
        forall|i: int|
            0 <= i < vstd::utf8::encode_utf8("application/sdp"@).len()
                ==> #[trigger] vstd::utf8::encode_utf8("application/sdp"@)[i] != 0,
{
    reveal_strlit("application/sdp");
    reveal_strlit("application/");
    let t = "application/sdp"@;
    let p = "application/"@;
    assert(vstd::utf8::is_ascii_chars(t));
    assert(vstd::utf8::is_ascii_chars(p));
    vstd::utf8::is_ascii_chars_encode_utf8(t);
    vstd::utf8::is_ascii_chars_encode_utf8(p);
    let e = vstd::utf8::encode_utf8(t);
    assert(e.take(12) =~= vstd::utf8::encode_utf8(p));
    assert forall|i: int| 0 <= i < e.len() implies #[trigger] e[i] != 0 by {
        assert(t[i] as u32 != 0);
    }
}

/// What is announced arrives: the datagram of a session is read as that session,
/// with its address, and as an announcement or a deletion as it was sent.
pub proof fn announced_session_is_received(source: Seq<u8>, s: SessionModel, announce: bool)
    requires
        source.len() == 4,
        sdp::laws::fits_lines(s),
    ensures
        ({
            let sdp = text::joined(s.sdp_lines());
            let packet = notice(source, sdp, announce);
            &&& sap::parsed(packet.wire()) == Ok::<PacketModel, SapError>(packet)
            &&& vstd::utf8::valid_utf8(packet.payload)
            &&& session_in(vstd::utf8::decode_utf8(packet.payload)) == Some(s)
        }),
{
    let sdp = text::joined(s.sdp_lines());
    let packet = notice(source, sdp, announce);
    lemma_sdp_mime();
    sap::packet_write_parse(packet);
    vstd::utf8::encode_utf8_valid_utf8(sdp);
    vstd::utf8::encode_utf8_decode_utf8(sdp);
    sdp::laws::built_session_parses_back(s);
}

/// The hash is FNV-1a with 32 bits, its halves combined: it takes in one byte
/// after the other, first by an exclusive or and then by a product with the
/// prime.
pub proof fn hash_takes_in_byte_after_byte(b: Seq<u8>, x: u8)
    ensures
        fnv32(Seq::empty()) == 0x811c_9dc5,
        fnv32(b.push(x)) == ((fnv32(b) ^ (x as u32)) * 0x100_0193) % 0x1_0000_0000,
        folded(b) == (fnv32(b) >> 16) ^ (fnv32(b) & 0xffff),
{
    assert(b.push(x).drop_last() =~= b);
    let h = fnv32(b);
    assert((((h / 0x1_0000) as u16) ^ ((h % 0x1_0000) as u16)) == ((h >> 16) ^ (h & 0xffff)))
        by (bit_vector);
}

/// An announcement and a deletion of a session differ in one bit: both carry the
/// address of the sender, the same message id and the description behind its
/// type.
pub proof fn notice_carries_the_description(source: Seq<u8>, sdp: Seq<char>, announce: bool)
    requires
        source.len() == 4,
    ensures
        ({
            let b = notice(source, sdp, announce).wire();
            &&& (b[0] & 0x04 == 0) == announce
            &&& b.skip(1) == notice(source, sdp, !announce).wire().skip(1)
            &&& b.subrange(4, 8) == source
            &&& b[2] * 0x100 + b[3] == folded(vstd::utf8::encode_utf8(sdp))
            &&& b.skip(8) == vstd::utf8::encode_utf8("application/sdp"@) + seq![0u8]
                + vstd::utf8::encode_utf8(sdp)
        }),
{
    let p = notice(source, sdp, announce);
    let q = notice(source, sdp, !announce);
    sap::packet_stands_where_it_should(p);
    assert(0x20u8 & 0x04 == 0 && 0x24u8 & 0x04 != 0) by (bit_vector);
    assert(p.wire().skip(1) =~= q.wire().skip(1));
}

/// SAP goes to its well-known group and port.
pub proof fn sap_has_its_own_group_and_port()
    ensures
        crate::ipv4::dotted(SAP_GROUP@) == sap::SAP_MULTICAST@,
        sap::SAP_MULTICAST@ == "239.255.255.255"@,
        SAP_PORT == 9875,
{
    reveal_strlit("239.255.255.255");
    reveal_strlit(".");
    reveal_with_fuel(text::decimal, 4);
    let g = SAP_GROUP@;
    assert(g[0] == 239 && g[1] == 255 && g[2] == 255 && g[3] == 255);
    assert(text::decimal(239) =~= seq!['2', '3', '9']);
    assert(text::decimal(255) =~= seq!['2', '5', '5']);
    assert(crate::ipv4::dotted(g) =~= "239.255.255.255"@);
}

} // verus!
