//! SAP, the Session Announcement Protocol (RFC 2974).
//!
//! Devices without NMOS announce their streams by SAP; the payload is an SDP
//! description. This module builds and parses the SAP header and parts it from
//! the payload.
//!
//! Header (IPv4, without authentication and encryption):
//! ```text
//! |V=1|A|R|T|E|C| auth_len (0) | msg_id_hash | originating source (IPv4) |
//! ```

use crate::bytes;
use crate::utf8;
use vstd::prelude::*;
use vstd::slice::slice_subrange;
use vstd::utf8::encode_utf8;

verus! {

/// Length of the smallest SAP header (IPv4).
pub const SAP_HEADER_LEN: usize = 8;

/// Well-known port of SAP.
pub const SAP_PORT: u16 = 9875;

/// Well-known multicast group of SAP, in the global scope.
pub const SAP_MULTICAST: &'static str = "239.255.255.255";

/// What can be wrong with a SAP packet.
#[derive(Debug, Clone, Copy, PartialEq, Eq, Structural)]
pub enum SapError {
    TooShort,
    BadVersion,
    /// Announcements with authentication data, encrypted ones and those of IPv6
    /// are not supported.
    Unsupported,
}

/// What a SAP packet says.
#[verifier::ext_equal]
pub struct PacketModel {
    pub announce: bool,
    pub msg_id_hash: u16,
    pub source: Seq<u8>,
    pub payload_type: Option<Seq<char>>,
    pub payload: Seq<u8>,
}

/// A SAP packet.
#[derive(Debug, Clone, PartialEq, Eq)]
pub struct SapPacket<'a> {
    /// Announcement of a new or changed session, or else its deletion.
    pub announce: bool,
    /// Identifies an instance of a session.
    pub msg_id_hash: u16,
    /// Source address (IPv4, as in the header).
    pub source: [u8; 4],
    /// MIME type of the payload, mostly `application/sdp`.
    pub payload_type: Option<&'a str>,
    /// The payload: the SDP description.
    pub payload: &'a [u8],
}

impl<'a> View for SapPacket<'a> {
    type V = PacketModel;

    open spec fn view(&self) -> PacketModel {
        PacketModel {
            announce: self.announce,
            msg_id_hash: self.msg_id_hash,
            source: self.source@,
            payload_type: match self.payload_type {
                Some(t) => Some(t@),
                None => None,
            },
            payload: self.payload@,
        }
    }
}

/// Whether the bytes begin like a MIME type, `application/`.
pub open spec fn mime_like(b: Seq<u8>) -> bool {
    let p = encode_utf8("application/"@);
    p.len() <= b.len() && b.take(p.len() as int) == p
}

/// Position of the first zero byte, the length where there is none.
pub open spec fn first_zero(b: Seq<u8>) -> int
    decreases b.len(),
{
    if b.len() == 0 || b[0] == 0 {
        0
    } else {
        1 + first_zero(b.drop_first())
    }
}

/// The type and the payload in what follows the header: a type is there where a
/// zero byte ends something that begins like one.
pub open spec fn type_and_payload(rest: Seq<u8>) -> (Option<Seq<char>>, Seq<u8>) {
    let nul = first_zero(rest);
    if nul < rest.len() && mime_like(rest.take(nul)) {
        (utf8::checked_text(rest.take(nul)), rest.skip(nul + 1))
    } else {
        (None, rest)
    }
}

/// What parsing the bytes gives.
pub open spec fn parsed(b: Seq<u8>) -> Result<PacketModel, SapError> {
    if b.len() < SAP_HEADER_LEN {
        Err(SapError::TooShort)
    } else if b[0] / 32 != 1 {
        Err(SapError::BadVersion)
    } else if b[1] != 0 || (b[0] / 16) % 2 == 1 || (b[0] / 2) % 2 == 1 {
        Err(SapError::Unsupported)
    } else {
        let (payload_type, payload) = type_and_payload(b.skip(SAP_HEADER_LEN as int));
        Ok(
            PacketModel {
                announce: (b[0] / 4) % 2 == 0,
                msg_id_hash: bytes::u16_at(b, 2),
                source: b.subrange(4, 8),
                payload_type,
                payload,
            },
        )
    }
}

impl PacketModel {
    /// The bytes of the packet.
    pub open spec fn wire(self) -> Seq<u8> {
        let flags: u8 = if self.announce {
            0x20
        } else {
            0x24
        };
        seq![flags, 0u8] + bytes::be16(self.msg_id_hash) + self.source + self.type_bytes()
            + self.payload
    }

    /// The type, ended by a zero byte, where there is one.
    pub open spec fn type_bytes(self) -> Seq<u8> {
        match self.payload_type {
            Some(t) => encode_utf8(t).push(0u8),
            None => Seq::empty(),
        }
    }
}

/// Position of the first zero byte.
fn find_zero(b: &[u8]) -> (i: usize)
    ensures
        i <= b@.len(),
        i == first_zero(b@),
{
    let mut i: usize = 0;
    while i < b.len() && b[i] != 0
        invariant
            i <= b@.len(),
            forall|k: int| 0 <= k < i ==> b@[k] != 0,
        decreases b@.len() - i,
    {
        i = i + 1;
    }
    proof {
        lemma_first_zero(b@, i as int);
    }
    i
}

/// Where the first zero byte is.
proof fn lemma_first_zero(b: Seq<u8>, n: int)
    requires
        0 <= n <= b.len(),
        forall|k: int| 0 <= k < n ==> b[k] != 0,
        n < b.len() ==> b[n] == 0,
    ensures
        first_zero(b) == n,
    decreases b.len(),
{
    if n > 0 {
        lemma_first_zero(b.drop_first(), n - 1);
    }
}

/// Rough test: do the bytes begin with `application/`, and not with `v=0`?
pub fn looks_like_mime(b: &[u8]) -> (r: bool)
    ensures
        r == mime_like(b@),
{
    let p: &[u8] = "application/".as_bytes();
    if b.len() < p.len() {
        return false;
    }
    assert(b@.subrange(0, p@.len() as int) =~= b@.take(p@.len() as int));
    bytes::same_bytes(slice_subrange(b, 0, p.len()), p)
}

impl<'a> SapPacket<'a> {
    /// The bytes of header and payload.
    pub fn to_bytes(&self) -> (out: Vec<u8>)
        ensures
            out@ == self@.wire(),
    {
        let mut out: Vec<u8> = Vec::new();
        let flags: u8 = if self.announce {
            0x20
        } else {
            0x24
        };
        bytes::push_bytes(&mut out, &[flags, 0]);
        bytes::push_u16(&mut out, self.msg_id_hash);
        bytes::push_bytes(&mut out, &self.source);
        match self.payload_type {
            Some(t) => {
                bytes::push_bytes(&mut out, t.as_bytes());
                out.push(0);
            },
            None => {},
        }
        bytes::push_bytes(&mut out, self.payload);
        assert(out@ =~= self@.wire());
        out
    }

    /// Parses header and payload. Packets with authentication data, encrypted
    /// ones and those of IPv6 are [`SapError::Unsupported`].
    pub fn parse(buf: &'a [u8]) -> (r: Result<SapPacket<'a>, SapError>)
        ensures
            match parsed(buf@) {
                Ok(m) => r matches Ok(p) && p@ == m,
                Err(e) => r == Err::<SapPacket<'a>, _>(e),
            },
    {
        if buf.len() < SAP_HEADER_LEN {
            return Err(SapError::TooShort);
        }
        let flags: u8 = buf[0];
        if flags / 32 != 1 {
            return Err(SapError::BadVersion);
        }
        if buf[1] != 0 || (flags / 16) % 2 == 1 || (flags / 2) % 2 == 1 {
            return Err(SapError::Unsupported);
        }
        let announce: bool = (flags / 4) % 2 == 0;
        let msg_id_hash: u16 = bytes::get_u16(buf, 2);
        let source: [u8; 4] = [buf[4], buf[5], buf[6], buf[7]];
        assert(source@ =~= buf@.subrange(4, 8));
        let rest: &'a [u8] = slice_subrange(buf, SAP_HEADER_LEN, buf.len());
        assert(rest@ =~= buf@.skip(SAP_HEADER_LEN as int));
        let nul: usize = find_zero(rest);
        if nul < rest.len() {
            let head: &'a [u8] = slice_subrange(rest, 0, nul);
            assert(head@ =~= rest@.take(nul as int));
            if looks_like_mime(head) {
                let payload: &'a [u8] = slice_subrange(rest, nul + 1, rest.len());
                assert(payload@ =~= rest@.skip(nul + 1));
                let payload_type: Option<&'a str> = utf8::checked(head);
                proof {
                    if let Some(t) = payload_type {
                        vstd::utf8::encode_utf8_decode_utf8(t@);
                    }
                }
                return Ok(SapPacket { announce, msg_id_hash, source, payload_type, payload });
            }
        }
        Ok(SapPacket { announce, msg_id_hash, source, payload_type: None, payload: rest })
    }
}

/// Whether what follows the header can be told apart again: a type begins like
/// one and holds no zero byte, and a payload without a type does not look like
/// one.
pub open spec fn separable(p: PacketModel) -> bool {
    match p.payload_type {
        Some(t) => mime_like(encode_utf8(t)) && forall|i: int|
            0 <= i < encode_utf8(t).len() ==> #[trigger] encode_utf8(t)[i] != 0,
        None => {
            let nul = first_zero(p.payload);
            !(nul < p.payload.len() && mime_like(p.payload.take(nul)))
        },
    }
}

/// A packet that was written is parsed back as it was.
pub proof fn packet_write_parse(p: PacketModel)
    requires
        p.source.len() == 4,
        separable(p),
    ensures
        parsed(p.wire()) == Ok::<PacketModel, SapError>(p),
{
    let b = p.wire();
    assert(b.subrange(2, 4) =~= bytes::be16(p.msg_id_hash));
    bytes::lemma_u16_roundtrip(b, 2, p.msg_id_hash);
    assert(b.subrange(4, 8) =~= p.source);
    let rest = b.skip(8);
    assert(rest =~= p.type_bytes() + p.payload);
    match p.payload_type {
        Some(t) => {
            let e = encode_utf8(t);
            let n = e.len() as int;
            assert forall|k: int| 0 <= k < n implies rest[k] != 0 by {
                assert(rest[k] == e[k]);
            }
            assert(rest[n] == 0);
            lemma_first_zero(rest, n);
            assert(rest.take(n) =~= e);
            assert(rest.skip(n + 1) =~= p.payload);
            vstd::utf8::encode_utf8_valid_utf8(t);
            vstd::utf8::encode_utf8_decode_utf8(t);
        },
        None => {
            assert(rest =~= p.payload);
        },
    }
}

/// A packet stands in its bytes as SAP has it: version 1, with one bit to tell a
/// deletion; no authentication data; the message id, the first byte in front; the
/// source; and then the type, ended by a zero byte, and the payload.
pub proof fn packet_stands_where_it_should(p: PacketModel)
    requires
        p.source.len() == 4,
    ensures
        p.wire()[0] == (if p.announce {
            0x20u8
        } else {
            0x24
        }),
        p.wire()[1] == 0,
        p.wire()[2] * 0x100 + p.wire()[3] == p.msg_id_hash,
        p.wire().subrange(4, 8) == p.source,
        p.wire().skip(8) == (match p.payload_type {
            Some(t) => encode_utf8(t) + seq![0u8] + p.payload,
            None => p.payload,
        }),
{
    assert(p.wire().subrange(4, 8) =~= p.source);
    if let Some(t) = p.payload_type {
        assert(p.wire().skip(8) =~= encode_utf8(t) + seq![0u8] + p.payload);
    } else {
        assert(p.wire().skip(8) =~= p.payload);
    }
}

/// A packet is read just where its eight bytes are there, its version is 1, and
/// it is of IPv4, not encrypted and without authentication data; and then its
/// fields are read from where they stand.
pub proof fn packet_is_read_from_where_it_stands(b: Seq<u8>)
    ensures
        parsed(b) == Err::<PacketModel, SapError>(SapError::TooShort) <==> b.len() < 8,
        parsed(b) == Err::<PacketModel, SapError>(SapError::BadVersion) <==> b.len() >= 8 && b[0]
            & 0xe0 != 0x20,
        parsed(b) is Ok <==> b.len() >= 8 && b[0] & 0xe0 == 0x20 && b[0] & 0x12 == 0 && b[1] == 0,
        parsed(b) matches Ok(p) ==> {
            &&& p.announce == (b[0] & 0x04 == 0)
            &&& p.msg_id_hash == b[2] * 0x100 + b[3]
            &&& p.source == b.subrange(4, 8)
            &&& p.payload_type is None ==> p.payload == b.skip(8) || exists|k: int|
                8 <= k < b.len() && b[k] == 0 && p.payload == #[trigger] b.skip(k + 1)
        },
{
    let x = b[0];
    assert((x / 32 == 1) == (x & 0xe0 == 0x20)) by (bit_vector);
    assert(((x / 16) % 2 == 1 || (x / 2) % 2 == 1) == (x & 0x12 != 0)) by (bit_vector);
    assert(((x / 4) % 2 == 0) == (x & 0x04 == 0)) by (bit_vector);
    if b.len() >= 8 {
        let rest = b.skip(8);
        let nul = first_zero(rest);
        lemma_zero_there(rest);
        if nul < rest.len() {
            assert(b[8 + nul] == 0);
            assert(rest.skip(nul + 1) =~= b.skip(8 + nul + 1));
        }
    }
}

/// What the first zero byte is.
proof fn lemma_zero_there(b: Seq<u8>)
    ensures
        0 <= first_zero(b) <= b.len(),
        first_zero(b) < b.len() ==> b[first_zero(b)] == 0,
    decreases b.len(),
{
    if b.len() > 0 && b[0] != 0 {
        lemma_zero_there(b.drop_first());
    }
}

/// A type is recognised by its front, `application/`, whatever follows it: what
/// stands before the first zero byte is then the type, and what stands behind it
/// the payload.
pub proof fn type_is_recognised_by_its_front(p: PacketModel, t: Seq<char>, rest: Seq<char>)
    requires
        p.source.len() == 4,
        p.payload_type == Some(t),
        t == "application/"@ + rest,
        forall|i: int| 0 <= i < encode_utf8(t).len() ==> #[trigger] encode_utf8(t)[i] != 0,
    ensures
        parsed(p.wire()) == Ok::<PacketModel, SapError>(p),
{
    let front = "application/"@;
    utf8::lemma_encode_concat(front, rest);
    let b = encode_utf8(t);
    assert(b.take(encode_utf8(front).len() as int) =~= encode_utf8(front));
    packet_write_parse(p);
}

} // verus!
