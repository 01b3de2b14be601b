//! The PTP wire format (IEEE 1588-2008): parsing and building of the messages
//! that the node needs. A common header of 34 bytes is followed by the body of
//! the message.

use super::{ClockDataset, ClockIdentity};
use crate::bytes;
use vstd::prelude::*;

verus! {

/// Length of the common PTP header.
pub const PTP_HEADER_LEN: usize = 34;

/// PTP message types (the low nibble of byte 0).
#[derive(Debug, Clone, Copy, PartialEq, Eq, Structural)]
pub enum MessageType {
    Sync,
    DelayReq,
    FollowUp,
    DelayResp,
    Announce,
    Signaling,
    Management,
    /// Everything else (Pdelay and the like), the raw value.
    Other(u8),
}

impl MessageType {
    /// The type that the low nibble of `v` stands for.
    pub open spec fn of(v: u8) -> MessageType {
        let n = v % 16;
        if n == 0x0 {
            MessageType::Sync
        } else if n == 0x1 {
            MessageType::DelayReq
        } else if n == 0x8 {
            MessageType::FollowUp
        } else if n == 0x9 {
            MessageType::DelayResp
        } else if n == 0xB {
            MessageType::Announce
        } else if n == 0xC {
            MessageType::Signaling
        } else if n == 0xD {
            MessageType::Management
        } else {
            MessageType::Other(n)
        }
    }

    /// The nibble of this type.
    pub open spec fn nibble(self) -> u8 {
        match self {
            MessageType::Sync => 0x0,
            MessageType::DelayReq => 0x1,
            MessageType::FollowUp => 0x8,
            MessageType::DelayResp => 0x9,
            MessageType::Announce => 0xB,
            MessageType::Signaling => 0xC,
            MessageType::Management => 0xD,
            MessageType::Other(v) => v % 16,
        }
    }

    /// Whether a value of this type can come from the wire: `Other` holds none
    /// of the named types.
    pub open spec fn canonical(self) -> bool {
        MessageType::of(self.nibble()) == self
    }

    pub fn from_u8(v: u8) -> (t: Self)
        ensures
            t == Self::of(v),
    {
        let n: u8 = v % 16;
        if n == 0x0 {
            MessageType::Sync
        } else if n == 0x1 {
            MessageType::DelayReq
        } else if n == 0x8 {
            MessageType::FollowUp
        } else if n == 0x9 {
            MessageType::DelayResp
        } else if n == 0xB {
            MessageType::Announce
        } else if n == 0xC {
            MessageType::Signaling
        } else if n == 0xD {
            MessageType::Management
        } else {
            MessageType::Other(n)
        }
    }

    pub fn to_u8(self) -> (v: u8)
        ensures
            v == self.nibble(),
    {
        match self {
            MessageType::Sync => 0x0,
            MessageType::DelayReq => 0x1,
            MessageType::FollowUp => 0x8,
            MessageType::DelayResp => 0x9,
            MessageType::Announce => 0xB,
            MessageType::Signaling => 0xC,
            MessageType::Management => 0xD,
            MessageType::Other(v) => v % 16,
        }
    }
}

/// What can be wrong with a PTP message.
#[derive(Debug, Clone, Copy, PartialEq, Eq, Structural)]
pub enum PtpError {
    TooShort,
    /// Not the expected message type.
    WrongType,
    /// The version field is not 2.
    BadVersion,
}

/// A PTP timestamp: 48 bits of seconds and 32 bits of nanoseconds.
#[derive(Debug, Clone, Copy, PartialEq, Eq, Structural)]
pub struct PtpTimestamp {
    pub seconds: u64,
    pub nanos: u32,
}

impl Default for PtpTimestamp {
    fn default() -> (t: Self)
        ensures
            t.seconds == 0,
            t.nanos == 0,
    {
        PtpTimestamp { seconds: 0, nanos: 0 }
    }
}

impl PtpTimestamp {
    /// Length on the wire.
    pub const LEN: usize = 10;

    /// The ten bytes on the wire.
    pub open spec fn wire(self) -> Seq<u8> {
        bytes::be48(self.seconds) + bytes::be32(self.nanos)
    }

    /// The timestamp whose ten bytes start at `i`.
    pub open spec fn at(b: Seq<u8>, i: int) -> PtpTimestamp {
        PtpTimestamp { seconds: bytes::u48_at(b, i), nanos: bytes::u32_at(b, i + 6) }
    }

    /// The whole time in nanoseconds.
    pub open spec fn total(self) -> nat {
        (self.seconds * 1_000_000_000 + self.nanos) as nat
    }

    /// The timestamp of `total` nanoseconds; negative times count as 0.
    pub open spec fn of_nanos(total: i128) -> PtpTimestamp {
        let t: int = if total < 0 {
            0
        } else {
            total as int
        };
        PtpTimestamp {
            seconds: ((t / 1_000_000_000) % 0x1_0000_0000_0000_0000) as u64,
            nanos: (t % 1_000_000_000) as u32,
        }
    }

    /// The whole time in nanoseconds.
    pub fn total_nanos(&self) -> (n: u128)
        ensures
            n == self.total(),
    {
        self.seconds as u128 * 1_000_000_000 + self.nanos as u128
    }

    /// A timestamp from a number of nanoseconds (negative becomes 0).
    pub fn from_nanos(total: i128) -> (t: Self)
        ensures
            t == Self::of_nanos(total),
    {
        let total: u128 = if total < 0 {
            0
        } else {
            total as u128
        };
        PtpTimestamp {
            seconds: ((total / 1_000_000_000) % 0x1_0000_0000_0000_0000) as u64,
            nanos: (total % 1_000_000_000) as u32,
        }
    }

    /// Parses 10 bytes: 6 of seconds and 4 of nanoseconds, big-endian.
    pub fn parse(b: &[u8]) -> (r: Result<Self, PtpError>)
        ensures
            r == (if b@.len() < 10 {
                Err::<Self, _>(PtpError::TooShort)
            } else {
                Ok(Self::at(b@, 0))
            }),
    {
        if b.len() < Self::LEN {
            return Err(PtpError::TooShort);
        }
        Ok(Self::read_at(b, 0))
    }

    /// Reads the ten bytes that start at `i`.
    fn read_at(b: &[u8], i: usize) -> (t: Self)
        requires
            i + 10 <= b.len(),
        ensures
            t == Self::at(b@, i as int),
    {
        PtpTimestamp { seconds: bytes::get_u48(b, i), nanos: bytes::get_u32(b, i + 6) }
    }

    /// Writes the ten bytes over those that start at `i`.
    fn write_at(&self, out: &mut [u8], i: usize)
        requires
            i + 10 <= old(out).len(),
        ensures
            final(out)@ == bytes::overlay(old(out)@, i as int, self.wire()),
    {
        bytes::set_u48(out, i, self.seconds);
        bytes::set_u32(out, i + 6, self.nanos);
        assert(out@ =~= bytes::overlay(old(out)@, i as int, self.wire()));
    }

    /// Writes 10 bytes to the start of `out`.
    pub fn write(&self, out: &mut [u8]) -> (r: Result<(), PtpError>)
        ensures
            old(out)@.len() < 10 ==> r == Err::<(), _>(PtpError::TooShort),
            old(out)@.len() < 10 ==> final(out)@ == old(out)@,
            old(out)@.len() >= 10 ==> r == Ok::<_, PtpError>(()) && final(out)@ == self.wire()
                + old(out)@.skip(10),
    {
        if out.len() < Self::LEN {
            return Err(PtpError::TooShort);
        }
        self.write_at(out, 0);
        assert(out@ =~= self.wire() + old(out)@.skip(10));
        Ok(())
    }
}

/// The eight bytes that start at `i`.
pub open spec fn identity_at(b: Seq<u8>, i: int) -> ClockIdentity {
    [b[i], b[i + 1], b[i + 2], b[i + 3], b[i + 4], b[i + 5], b[i + 6], b[i + 7]]
}

/// Reads the eight bytes that start at `i`.
fn read_identity(b: &[u8], i: usize) -> (id: ClockIdentity)
    requires
        i + 8 <= b.len(),
    ensures
        id == identity_at(b@, i as int),
{
    [b[i], b[i + 1], b[i + 2], b[i + 3], b[i + 4], b[i + 5], b[i + 6], b[i + 7]]
}

/// Reading back an identity that was written.
proof fn lemma_identity_roundtrip(b: Seq<u8>, i: int, id: ClockIdentity)
    requires
        0 <= i,
        i + 8 <= b.len(),
        b.subrange(i, i + 8) == id@,
    ensures
        identity_at(b, i) == id,
{
    let got = identity_at(b, i);
    assert forall|k: int| 0 <= k < 8 implies got@[k] == id@[k] by {
        assert(id@[k] == b.subrange(i, i + 8)[k]);
    }
    assert(got =~= id);
}

/// Port identity: clock identity and port number.
#[derive(Debug, Clone, Copy, PartialEq, Eq)]
pub struct PortIdentity {
    pub clock_identity: ClockIdentity,
    pub port: u16,
}

/// The fields of the common PTP header that the node uses.
#[derive(Debug, Clone, Copy, PartialEq, Eq)]
pub struct PtpHeader {
    pub message_type: MessageType,
    pub version: u8,
    pub message_length: u16,
    pub domain: u8,
    pub flags: u16,
    pub correction: i64,
    pub source_port: PortIdentity,
    pub sequence_id: u16,
    pub control: u8,
    pub log_message_interval: i8,
}

impl PtpHeader {
    /// The 34 bytes on the wire; transportSpecific and minorVersion are 0 and
    /// the version is 2.
    #[verifier::opaque]
    pub open spec fn wire(self) -> Seq<u8> {
        seq![self.message_type.nibble(), 2u8] + bytes::be16(self.message_length) + seq![
            self.domain,
            0u8,
        ] + bytes::be16(self.flags) + bytes::be64(bytes::bits64(self.correction)) + seq![
            0u8,
            0u8,
            0u8,
            0u8,
        ] + self.source_port.clock_identity@ + bytes::be16(self.source_port.port) + bytes::be16(
            self.sequence_id,
        ) + seq![self.control, bytes::bits8(self.log_message_interval)]
    }

    /// The header in the first 34 bytes of `b`.
    pub open spec fn of(b: Seq<u8>) -> PtpHeader {
        PtpHeader {
            message_type: MessageType::of(b[0]),
            version: b[1] % 16,
            message_length: bytes::u16_at(b, 2),
            domain: b[4],
            flags: bytes::u16_at(b, 6),
            correction: bytes::signed64(bytes::u64_at(b, 8)),
            source_port: PortIdentity {
                clock_identity: identity_at(b, 20),
                port: bytes::u16_at(b, 28),
            },
            sequence_id: bytes::u16_at(b, 30),
            control: b[32],
            log_message_interval: bytes::signed8(b[33]),
        }
    }

    /// What parsing the header of `b` gives.
    pub open spec fn parsed(b: Seq<u8>) -> Result<PtpHeader, PtpError> {
        if b.len() < PTP_HEADER_LEN {
            Err(PtpError::TooShort)
        } else if b[1] % 16 != 2 {
            Err(PtpError::BadVersion)
        } else {
            Ok(Self::of(b))
        }
    }

    /// Parses the 34-byte header.
    pub fn parse(b: &[u8]) -> (r: Result<Self, PtpError>)
        ensures
            r == Self::parsed(b@),
    {
        if b.len() < PTP_HEADER_LEN {
            return Err(PtpError::TooShort);
        }
        let version: u8 = b[1] % 16;
        if version != 2 {
            return Err(PtpError::BadVersion);
        }
        Ok(
            PtpHeader {
                message_type: MessageType::from_u8(b[0]),
                version,
                message_length: bytes::get_u16(b, 2),
                domain: b[4],
                flags: bytes::get_u16(b, 6),
                correction: bytes::to_signed64(bytes::get_u64(b, 8)),
                source_port: PortIdentity {
                    clock_identity: read_identity(b, 20),
                    port: bytes::get_u16(b, 28),
                },
                sequence_id: bytes::get_u16(b, 30),
                control: b[32],
                log_message_interval: bytes::to_signed8(b[33]),
            },
        )
    }

    /// Writes the 34-byte header to the start of `out`.
    pub fn write(&self, out: &mut [u8]) -> (r: Result<(), PtpError>)
        ensures
            old(out)@.len() < PTP_HEADER_LEN ==> r == Err::<(), _>(PtpError::TooShort),
            old(out)@.len() < PTP_HEADER_LEN ==> final(out)@ == old(out)@,
            old(out)@.len() >= PTP_HEADER_LEN ==> r == Ok::<_, PtpError>(()) && final(out)@
                == self.wire() + old(out)@.skip(PTP_HEADER_LEN as int),
    {
        if out.len() < PTP_HEADER_LEN {
            return Err(PtpError::TooShort);
        }
        let mut head: Vec<u8> = Vec::new();
        bytes::push_bytes(&mut head, &[self.message_type.to_u8(), 2]);
        bytes::push_u16(&mut head, self.message_length);
        bytes::push_bytes(&mut head, &[self.domain, 0]);
        bytes::push_u16(&mut head, self.flags);
        bytes::push_u64(&mut head, bytes::to_bits64(self.correction));
        bytes::push_bytes(&mut head, &[0, 0, 0, 0]);
        bytes::push_bytes(&mut head, &self.source_port.clock_identity);
        bytes::push_u16(&mut head, self.source_port.port);
        bytes::push_u16(&mut head, self.sequence_id);
        bytes::push_bytes(
            &mut head,
            &[self.control, bytes::to_bits8(self.log_message_interval)],
        );
        proof {
            lemma_header_len(*self);
            reveal(PtpHeader::wire);
            assert(head@ =~= self.wire());
        }
        bytes::set_bytes(out, 0, head.as_slice());
        assert(out@ =~= self.wire() + old(out)@.skip(PTP_HEADER_LEN as int));
        Ok(())
    }
}

/// The header takes 34 bytes.
proof fn lemma_header_len(h: PtpHeader)
    ensures
        h.wire().len() == 34,
{
    reveal(PtpHeader::wire);
}

/// Which field stands where in the 34 bytes.
proof fn lemma_header_layout(h: PtpHeader, rest: Seq<u8>)
    ensures
        ({
            let b = h.wire() + rest;
            &&& b.len() == 34 + rest.len()
            &&& b[0] == h.message_type.nibble()
            &&& b[1] == 2
            &&& b.subrange(2, 4) == bytes::be16(h.message_length)
            &&& b[4] == h.domain
            &&& b.subrange(6, 8) == bytes::be16(h.flags)
            &&& b.subrange(8, 16) == bytes::be64(bytes::bits64(h.correction))
            &&& b.subrange(20, 28) == h.source_port.clock_identity@
            &&& b.subrange(28, 30) == bytes::be16(h.source_port.port)
            &&& b.subrange(30, 32) == bytes::be16(h.sequence_id)
            &&& b[32] == h.control
            &&& b[33] == bytes::bits8(h.log_message_interval)
        }),
{
    reveal(PtpHeader::wire);
    let b = h.wire() + rest;
    assert(b.subrange(2, 4) =~= bytes::be16(h.message_length));
    assert(b.subrange(6, 8) =~= bytes::be16(h.flags));
    assert(b.subrange(8, 16) =~= bytes::be64(bytes::bits64(h.correction)));
    assert(b.subrange(20, 28) =~= h.source_port.clock_identity@);
    assert(b.subrange(28, 30) =~= bytes::be16(h.source_port.port));
    assert(b.subrange(30, 32) =~= bytes::be16(h.sequence_id));
}

/// A header that was written is parsed back as it was. The version on the wire
/// is 2.
pub proof fn header_write_parse(h: PtpHeader, rest: Seq<u8>)
    requires
        h.version == 2,
        h.message_type.canonical(),
    ensures
        PtpHeader::parsed(h.wire() + rest) == Ok::<PtpHeader, PtpError>(h),
{
    let b = h.wire() + rest;
    lemma_header_layout(h, rest);
    bytes::lemma_u16_roundtrip(b, 2, h.message_length);
    bytes::lemma_u16_roundtrip(b, 6, h.flags);
    bytes::lemma_u64_roundtrip(b, 8, bytes::bits64(h.correction));
    lemma_identity_roundtrip(b, 20, h.source_port.clock_identity);
    bytes::lemma_u16_roundtrip(b, 28, h.source_port.port);
    bytes::lemma_u16_roundtrip(b, 30, h.sequence_id);
}

/// An **Announce** message: the header and the fields of the best master clock
/// algorithm.
#[derive(Debug, Clone, Copy, PartialEq, Eq)]
pub struct Announce {
    pub header: PtpHeader,
    pub origin_timestamp: PtpTimestamp,
    pub current_utc_offset: i16,
    pub gm_priority1: u8,
    pub gm_clock_class: u8,
    pub gm_clock_accuracy: u8,
    pub gm_offset_scaled_log_variance: u16,
    pub gm_priority2: u8,
    pub gm_identity: ClockIdentity,
    pub steps_removed: u16,
    pub time_source: u8,
}

impl Announce {
    /// Length of the message in bytes.
    pub const LEN: usize = 64;

    /// The header as it is sent: type, length and control field of an Announce.
    pub open spec fn sent_header(self) -> PtpHeader {
        PtpHeader {
            message_type: MessageType::Announce,
            message_length: 64,
            control: 0x05,
            ..self.header
        }
    }

    /// The 64 bytes on the wire.
    pub open spec fn wire(self) -> Seq<u8> {
        self.sent_header().wire() + self.origin_timestamp.wire() + bytes::be16(
            bytes::bits16(self.current_utc_offset),
        ) + seq![0u8, self.gm_priority1, self.gm_clock_class, self.gm_clock_accuracy]
            + bytes::be16(self.gm_offset_scaled_log_variance) + seq![self.gm_priority2]
            + self.gm_identity@ + bytes::be16(self.steps_removed) + seq![self.time_source]
    }

    /// The message in the first 64 bytes of `b`.
    pub open spec fn of(b: Seq<u8>) -> Announce {
        Announce {
            header: PtpHeader::of(b),
            origin_timestamp: PtpTimestamp::at(b, 34),
            current_utc_offset: bytes::signed16(bytes::u16_at(b, 44)),
            gm_priority1: b[47],
            gm_clock_class: b[48],
            gm_clock_accuracy: b[49],
            gm_offset_scaled_log_variance: bytes::u16_at(b, 50),
            gm_priority2: b[52],
            gm_identity: identity_at(b, 53),
            steps_removed: bytes::u16_at(b, 61),
            time_source: b[63],
        }
    }

    /// What parsing `b` as an Announce gives.
    pub open spec fn parsed(b: Seq<u8>) -> Result<Announce, PtpError> {
        match PtpHeader::parsed(b) {
            Err(e) => Err(e),
            Ok(h) => if h.message_type != MessageType::Announce {
                Err(PtpError::WrongType)
            } else if b.len() < 64 {
                Err(PtpError::TooShort)
            } else {
                Ok(Self::of(b))
            },
        }
    }

    /// The dataset that the message announces.
    pub open spec fn dataset(self) -> ClockDataset {
        ClockDataset {
            priority1: self.gm_priority1,
            clock_class: self.gm_clock_class,
            clock_accuracy: self.gm_clock_accuracy,
            offset_scaled_log_variance: self.gm_offset_scaled_log_variance,
            priority2: self.gm_priority2,
            clock_identity: self.gm_identity,
            steps_removed: self.steps_removed,
        }
    }

    /// Parses a whole Announce message (header and body).
    pub fn parse(b: &[u8]) -> (r: Result<Self, PtpError>)
        ensures
            r == Self::parsed(b@),
    {
        let header = match PtpHeader::parse(b) {
            Ok(h) => h,
            Err(e) => {
                return Err(e);
            },
        };
        match header.message_type {
            MessageType::Announce => {},
            _ => {
                return Err(PtpError::WrongType);
            },
        }
        if b.len() < Self::LEN {
            return Err(PtpError::TooShort);
        }
        Ok(
            Announce {
                header,
                origin_timestamp: PtpTimestamp::read_at(b, 34),
                current_utc_offset: bytes::to_signed16(bytes::get_u16(b, 44)),
                gm_priority1: b[47],
                gm_clock_class: b[48],
                gm_clock_accuracy: b[49],
                gm_offset_scaled_log_variance: bytes::get_u16(b, 50),
                gm_priority2: b[52],
                gm_identity: read_identity(b, 53),
                steps_removed: bytes::get_u16(b, 61),
                time_source: b[63],
            },
        )
    }

    /// Writes the message to the first 64 bytes of `out`, with type, length and
    /// control field set as an Announce has them.
    #[verifier::rlimit(40)]
    pub fn write(&self, out: &mut [u8]) -> (r: Result<(), PtpError>)
        ensures
            old(out)@.len() < 64 ==> r == Err::<(), _>(PtpError::TooShort),
            old(out)@.len() < 64 ==> final(out)@ == old(out)@,
            old(out)@.len() >= 64 ==> r == Ok::<_, PtpError>(()) && final(out)@ == self.wire()
                + old(out)@.skip(64),
    {
        if out.len() < Self::LEN {
            return Err(PtpError::TooShort);
        }
        let mut header: PtpHeader = self.header;
        header.message_type = MessageType::Announce;
        header.message_length = 64;
        header.control = 0x05;
        proof {
            lemma_header_len(header);
        }
        header.write(out)?;
        assert(header == self.sent_header());
        self.origin_timestamp.write_at(out, 34);
        bytes::set_u16(out, 44, bytes::to_bits16(self.current_utc_offset));
        out[46] = 0;
        out[47] = self.gm_priority1;
        out[48] = self.gm_clock_class;
        out[49] = self.gm_clock_accuracy;
        bytes::set_u16(out, 50, self.gm_offset_scaled_log_variance);
        out[52] = self.gm_priority2;
        bytes::set_bytes(out, 53, &self.gm_identity);
        bytes::set_u16(out, 61, self.steps_removed);
        out[63] = self.time_source;
        assert(out@ =~= self.wire() + old(out)@.skip(64));
        Ok(())
    }

    /// The dataset of the announced clock, for [`ClockDataset::compare`].
    pub fn to_clock_dataset(&self) -> (d: ClockDataset)
        ensures
            d == self.dataset(),
    {
        ClockDataset {
            priority1: self.gm_priority1,
            clock_class: self.gm_clock_class,
            clock_accuracy: self.gm_clock_accuracy,
            offset_scaled_log_variance: self.gm_offset_scaled_log_variance,
            priority2: self.gm_priority2,
            clock_identity: self.gm_identity,
            steps_removed: self.steps_removed,
        }
    }
}

/// A Sync or Follow_Up message: both carry exactly one timestamp.
#[derive(Debug, Clone, Copy, PartialEq, Eq)]
pub struct TimestampedMsg {
    pub header: PtpHeader,
    /// originTimestamp (Sync) or preciseOriginTimestamp (Follow_Up).
    pub timestamp: PtpTimestamp,
}

impl TimestampedMsg {
    /// Length of the message: header and timestamp.
    pub const LEN: usize = 44;

    /// The header as it is sent: length and control field by message type.
    pub open spec fn sent_header(self) -> PtpHeader {
        PtpHeader {
            message_length: 44,
            control: if self.header.message_type == MessageType::FollowUp {
                0x02
            } else {
                0x00
            },
            ..self.header
        }
    }

    /// The 44 bytes on the wire.
    pub open spec fn wire(self) -> Seq<u8> {
        self.sent_header().wire() + self.timestamp.wire()
    }

    /// The message in the first 44 bytes of `b`.
    pub open spec fn of(b: Seq<u8>) -> TimestampedMsg {
        TimestampedMsg { header: PtpHeader::of(b), timestamp: PtpTimestamp::at(b, 34) }
    }

    /// What parsing `b` as a Sync or Follow_Up gives.
    pub open spec fn parsed(b: Seq<u8>) -> Result<TimestampedMsg, PtpError> {
        match PtpHeader::parsed(b) {
            Err(e) => Err(e),
            Ok(h) => if h.message_type != MessageType::Sync && h.message_type
                != MessageType::FollowUp {
                Err(PtpError::WrongType)
            } else if b.len() < 44 {
                Err(PtpError::TooShort)
            } else {
                Ok(Self::of(b))
            },
        }
    }

    /// Parses a Sync or Follow_Up message.
    pub fn parse(b: &[u8]) -> (r: Result<Self, PtpError>)
        ensures
            r == Self::parsed(b@),
    {
        let header = match PtpHeader::parse(b) {
            Ok(h) => h,
            Err(e) => {
                return Err(e);
            },
        };
        match header.message_type {
            MessageType::Sync => {},
            MessageType::FollowUp => {},
            _ => {
                return Err(PtpError::WrongType);
            },
        }
        if b.len() < Self::LEN {
            return Err(PtpError::TooShort);
        }
        Ok(TimestampedMsg { header, timestamp: PtpTimestamp::read_at(b, 34) })
    }

    /// Writes a **Sync** or **Follow_Up** message, with length and control field
    /// set by the message type.
    pub fn write(&self, out: &mut [u8]) -> (r: Result<(), PtpError>)
        ensures
            old(out)@.len() < 44 ==> r == Err::<(), _>(PtpError::TooShort),
            old(out)@.len() >= 44 && self.header.message_type != MessageType::Sync
                && self.header.message_type != MessageType::FollowUp ==> r == Err::<(), _>(
                PtpError::WrongType,
            ),
            r is Err ==> final(out)@ == old(out)@,
            old(out)@.len() >= 44 && (self.header.message_type == MessageType::Sync
                || self.header.message_type == MessageType::FollowUp) ==> r == Ok::<_, PtpError>(())
                && final(out)@ == self.wire() + old(out)@.skip(44),
    {
        if out.len() < Self::LEN {
            return Err(PtpError::TooShort);
        }
        let mut header: PtpHeader = self.header;
        header.message_length = 44;
        header.control = match header.message_type {
            MessageType::Sync => 0x00,
            MessageType::FollowUp => 0x02,
            _ => {
                return Err(PtpError::WrongType);
            },
        };
        assert(header == self.sent_header());
        proof {
            lemma_header_len(header);
        }
        header.write(out)?;
        self.timestamp.write_at(out, 34);
        assert(out@ =~= self.wire() + old(out)@.skip(44));
        Ok(())
    }
}

/// A **Delay_Resp** message: the master stamps the receipt of a Delay_Req and
/// answers with that time and the port identity that asked.
#[derive(Debug, Clone, Copy, PartialEq, Eq)]
pub struct DelayResp {
    pub header: PtpHeader,
    /// When the master received the Delay_Req.
    pub receive_timestamp: PtpTimestamp,
    /// The port whose Delay_Req is answered.
    pub requesting_port: PortIdentity,
}

impl DelayResp {
    /// Length of the message in bytes.
    pub const LEN: usize = 54;

    /// The header as it is sent: type, length and control field of a Delay_Resp.
    pub open spec fn sent_header(self) -> PtpHeader {
        PtpHeader {
            message_type: MessageType::DelayResp,
            message_length: 54,
            control: 0x03,
            ..self.header
        }
    }

    /// The 54 bytes on the wire.
    pub open spec fn wire(self) -> Seq<u8> {
        self.sent_header().wire() + self.receive_timestamp.wire()
            + self.requesting_port.clock_identity@ + bytes::be16(self.requesting_port.port)
    }

    /// The message in the first 54 bytes of `b`.
    pub open spec fn of(b: Seq<u8>) -> DelayResp {
        DelayResp {
            header: PtpHeader::of(b),
            receive_timestamp: PtpTimestamp::at(b, 34),
            requesting_port: PortIdentity {
                clock_identity: identity_at(b, 44),
                port: bytes::u16_at(b, 52),
            },
        }
    }

    /// What parsing `b` as a Delay_Resp gives.
    pub open spec fn parsed(b: Seq<u8>) -> Result<DelayResp, PtpError> {
        match PtpHeader::parsed(b) {
            Err(e) => Err(e),
            Ok(h) => if h.message_type != MessageType::DelayResp {
                Err(PtpError::WrongType)
            } else if b.len() < 54 {
                Err(PtpError::TooShort)
            } else {
                Ok(Self::of(b))
            },
        }
    }

    /// Parses a Delay_Resp message.
    pub fn parse(b: &[u8]) -> (r: Result<Self, PtpError>)
        ensures
            r == Self::parsed(b@),
    {
        let header = match PtpHeader::parse(b) {
            Ok(h) => h,
            Err(e) => {
                return Err(e);
            },
        };
        match header.message_type {
            MessageType::DelayResp => {},
            _ => {
                return Err(PtpError::WrongType);
            },
        }
        if b.len() < Self::LEN {
            return Err(PtpError::TooShort);
        }
        Ok(
            DelayResp {
                header,
                receive_timestamp: PtpTimestamp::read_at(b, 34),
                requesting_port: PortIdentity {
                    clock_identity: read_identity(b, 44),
                    port: bytes::get_u16(b, 52),
                },
            },
        )
    }

    /// Writes a **Delay_Resp**, the answer of a master to a Delay_Req.
    pub fn write(&self, out: &mut [u8]) -> (r: Result<(), PtpError>)
        ensures
            old(out)@.len() < 54 ==> r == Err::<(), _>(PtpError::TooShort),
            old(out)@.len() < 54 ==> final(out)@ == old(out)@,
            old(out)@.len() >= 54 ==> r == Ok::<_, PtpError>(()) && final(out)@ == self.wire()
                + old(out)@.skip(54),
    {
        if out.len() < Self::LEN {
            return Err(PtpError::TooShort);
        }
        let mut header: PtpHeader = self.header;
        header.message_type = MessageType::DelayResp;
        header.message_length = 54;
        header.control = 0x03;
        assert(header == self.sent_header());
        proof {
            lemma_header_len(header);
        }
        header.write(out)?;
        self.receive_timestamp.write_at(out, 34);
        bytes::set_bytes(out, 44, &self.requesting_port.clock_identity);
        bytes::set_u16(out, 52, self.requesting_port.port);
        assert(out@ =~= self.wire() + old(out)@.skip(54));
        Ok(())
    }
}

/// The header of a Delay_Req.
pub open spec fn delay_req_header(source: PortIdentity, sequence_id: u16, domain: u8) -> PtpHeader {
    PtpHeader {
        message_type: MessageType::DelayReq,
        version: 2,
        message_length: 44,
        domain,
        flags: 0,
        correction: 0,
        source_port: source,
        sequence_id,
        control: 0x01,
        log_message_interval: 0x7f,
    }
}

/// Builds a **Delay_Req** message. Its origin timestamp is 0: what counts is the
/// local send time, which the caller keeps. There is no error.
pub fn build_delay_req(source: PortIdentity, sequence_id: u16, domain: u8) -> (r: Result<
    [u8; 44],
    PtpError,
>)
    ensures
        r matches Ok(b) && b@ == delay_req_header(source, sequence_id, domain).wire() + Seq::new(
            10,
            |k: int| 0u8,
        ),
{
    let header = PtpHeader {
        message_type: MessageType::DelayReq,
        version: 2,
        message_length: 44,
        domain,
        flags: 0,
        correction: 0,
        source_port: source,
        sequence_id,
        control: 0x01,
        log_message_interval: 0x7f,
    };
    let mut buf: [u8; 44] = [0; 44];
    proof {
        lemma_header_len(header);
    }
    header.write(&mut buf)?;
    assert(buf@ =~= delay_req_header(source, sequence_id, domain).wire() + Seq::new(
        10,
        |k: int| 0u8,
    ));
    Ok(buf)
}

/// A timestamp that was written is read back as it was, where the seconds take
/// no more than the 48 bits of the wire format.
pub proof fn timestamp_write_read(t: PtpTimestamp, b: Seq<u8>, i: int)
    requires
        t.seconds < 0x1_0000_0000_0000,
        0 <= i,
        i + 10 <= b.len(),
        b.subrange(i, i + 10) == t.wire(),
    ensures
        PtpTimestamp::at(b, i) == t,
{
    assert(b.subrange(i, i + 6) =~= b.subrange(i, i + 10).subrange(0, 6));
    assert(b.subrange(i, i + 10).subrange(0, 6) =~= bytes::be48(t.seconds));
    assert(b.subrange(i + 6, i + 10) =~= b.subrange(i, i + 10).subrange(6, 10));
    assert(b.subrange(i, i + 10).subrange(6, 10) =~= bytes::be32(t.nanos));
    bytes::lemma_u48_roundtrip(b, i, t.seconds);
    bytes::lemma_u32_roundtrip(b, i + 6, t.nanos);
}

/// A time of at least 0 whose seconds fit 64 bits is the total of its timestamp.
pub proof fn timestamp_of_nanos_total(total: i128)
    requires
        0 <= total < 0x1_0000_0000_0000_0000 * 1_000_000_000,
    ensures
        PtpTimestamp::of_nanos(total).total() == total,
        PtpTimestamp::of_nanos(total).nanos < 1_000_000_000,
{
}

/// Which field stands where in the body of an Announce.
#[verifier::spinoff_prover]
proof fn lemma_announce_layout(a: Announce, rest: Seq<u8>)
    ensures
        ({
            let b = a.wire() + rest;
            &&& b.len() == 64 + rest.len()
            &&& b == a.sent_header().wire() + b.skip(34)
            &&& b.subrange(34, 44) == a.origin_timestamp.wire()
            &&& b.subrange(44, 46) == bytes::be16(bytes::bits16(a.current_utc_offset))
            &&& b[47] == a.gm_priority1
            &&& b[48] == a.gm_clock_class
            &&& b[49] == a.gm_clock_accuracy
            &&& b.subrange(50, 52) == bytes::be16(a.gm_offset_scaled_log_variance)
            &&& b[52] == a.gm_priority2
            &&& b.subrange(53, 61) == a.gm_identity@
            &&& b.subrange(61, 63) == bytes::be16(a.steps_removed)
            &&& b[63] == a.time_source
        }),
{
    let b = a.wire() + rest;
    lemma_header_len(a.sent_header());
    assert(b =~= a.sent_header().wire() + b.skip(34));
    assert(b.subrange(34, 44) =~= a.origin_timestamp.wire());
    assert(b.subrange(44, 46) =~= bytes::be16(bytes::bits16(a.current_utc_offset)));
    assert(b.subrange(50, 52) =~= bytes::be16(a.gm_offset_scaled_log_variance));
    assert(b.subrange(53, 61) =~= a.gm_identity@);
    assert(b.subrange(61, 63) =~= bytes::be16(a.steps_removed));
}

/// An Announce that was written is parsed back with all its fields; the header
/// comes back with the type, length and control field of an Announce.
#[verifier::spinoff_prover]
pub proof fn announce_write_parse(a: Announce, rest: Seq<u8>)
    requires
        a.header.version == 2,
        a.origin_timestamp.seconds < 0x1_0000_0000_0000,
    ensures
        Announce::parsed(a.wire() + rest) == Ok::<Announce, PtpError>(
            (Announce { header: a.sent_header(), ..a }),
        ),
{
    let b = a.wire() + rest;
    lemma_announce_layout(a, rest);
    header_write_parse(a.sent_header(), b.skip(34));
    timestamp_write_read(a.origin_timestamp, b, 34);
    bytes::lemma_u16_roundtrip(b, 44, bytes::bits16(a.current_utc_offset));
    bytes::lemma_u16_roundtrip(b, 50, a.gm_offset_scaled_log_variance);
    lemma_identity_roundtrip(b, 53, a.gm_identity);
    bytes::lemma_u16_roundtrip(b, 61, a.steps_removed);
}

/// A Sync or Follow_Up that was written is parsed back; the header comes back
/// with the length and control field of its type.
pub proof fn timestamped_write_parse(m: TimestampedMsg, rest: Seq<u8>)
    requires
        m.header.version == 2,
        m.header.message_type == MessageType::Sync || m.header.message_type
            == MessageType::FollowUp,
        m.timestamp.seconds < 0x1_0000_0000_0000,
    ensures
        TimestampedMsg::parsed(m.wire() + rest) == Ok::<TimestampedMsg, PtpError>(
            (TimestampedMsg { header: m.sent_header(), ..m }),
        ),
{
    let b = m.wire() + rest;
    let h = m.sent_header();
    lemma_header_len(h);
    assert(b =~= h.wire() + b.skip(34));
    header_write_parse(h, b.skip(34));
    assert(b.subrange(34, 44) =~= m.timestamp.wire());
    timestamp_write_read(m.timestamp, b, 34);
}

/// A Delay_Resp that was written is parsed back; the header comes back with the
/// type, length and control field of a Delay_Resp.
pub proof fn delay_resp_write_parse(m: DelayResp, rest: Seq<u8>)
    requires
        m.header.version == 2,
        m.receive_timestamp.seconds < 0x1_0000_0000_0000,
    ensures
        DelayResp::parsed(m.wire() + rest) == Ok::<DelayResp, PtpError>(
            (DelayResp { header: m.sent_header(), ..m }),
        ),
{
    let b = m.wire() + rest;
    let h = m.sent_header();
    lemma_header_len(h);
    assert(b =~= h.wire() + b.skip(34));
    header_write_parse(h, b.skip(34));
    assert(b.subrange(34, 44) =~= m.receive_timestamp.wire());
    timestamp_write_read(m.receive_timestamp, b, 34);
    assert(b.subrange(44, 52) =~= m.requesting_port.clock_identity@);
    lemma_identity_roundtrip(b, 44, m.requesting_port.clock_identity);
    assert(b.subrange(52, 54) =~= bytes::be16(m.requesting_port.port));
    bytes::lemma_u16_roundtrip(b, 52, m.requesting_port.port);
}

} // verus!
