//! RTP (RFC 3550) as AES67 uses it: the header and the L24/L16 payload.
//!
//! The parser is tolerant: it skips a CSRC list and an extension header.

use crate::bytes;
use crate::profile::Encoding;
use vstd::prelude::*;

verus! {

/// Length of the fixed part of the RTP header, in bytes.
pub const RTP_HEADER_MIN_LEN: usize = 12;

/// RTP version 2.
pub const RTP_VERSION: u8 = 2;

/// What can be wrong with an RTP packet.
#[derive(Debug, Clone, Copy, PartialEq, Eq, Structural)]
pub enum RtpError {
    /// The buffer is shorter than the header, or than the bytes to be written.
    TooShort,
    /// The version field is not 2.
    BadVersion,
    /// The payload length is no multiple of the bytes per sample.
    RaggedPayload,
}

impl RtpError {
    /// The message for the log.
    pub fn message(&self) -> (s: &'static str)
        ensures
            s@ == match *self {
                RtpError::TooShort => "RTP-Puffer zu kurz"@,
                RtpError::BadVersion => "RTP-Version != 2"@,
                RtpError::RaggedPayload =>
                    "Payload-Laenge nicht durch Frame-Groesse teilbar"@,
            },
    {
        match self {
            RtpError::TooShort => "RTP-Puffer zu kurz",
            RtpError::BadVersion => "RTP-Version != 2",
            RtpError::RaggedPayload => "Payload-Laenge nicht durch Frame-Groesse teilbar",
        }
    }
}

/// The fields of the RTP header that AES67 needs.
#[derive(Debug, Clone, Copy, PartialEq, Eq, Structural)]
pub struct RtpHeader {
    pub marker: bool,
    pub payload_type: u8,
    pub sequence: u16,
    /// Media clock in sample ticks (at 48 kHz: 48 more per packet of 1 ms).
    pub timestamp: u32,
    pub ssrc: u32,
}

/// Whether the first header byte announces an extension header.
pub open spec fn has_extension(first: u8) -> bool {
    (first / 16) % 2 == 1
}

/// Where the extension header starts, if there is one, and else the payload.
pub open spec fn after_csrc(first: u8) -> int {
    RTP_HEADER_MIN_LEN + (first % 16) * 4
}

/// Where the payload of the packet `b` starts; meaningful where the bytes up to
/// the extension length are there.
pub open spec fn payload_offset(b: Seq<u8>) -> int {
    let base = after_csrc(b[0]);
    if has_extension(b[0]) {
        base + 4 + bytes::u16_at(b, base + 2) * 4
    } else {
        base
    }
}

/// The header that stands in the first 12 bytes of `b`.
pub open spec fn header_in(b: Seq<u8>) -> RtpHeader {
    RtpHeader {
        marker: b[1] >= 128,
        payload_type: b[1] % 128,
        sequence: bytes::u16_at(b, 2),
        timestamp: bytes::u32_at(b, 4),
        ssrc: bytes::u32_at(b, 8),
    }
}

/// What parsing the bytes `b` gives.
pub open spec fn parsed(b: Seq<u8>) -> Result<(RtpHeader, int), RtpError> {
    if b.len() < RTP_HEADER_MIN_LEN {
        Err(RtpError::TooShort)
    } else if b[0] / 64 != RTP_VERSION {
        Err(RtpError::BadVersion)
    } else if has_extension(b[0]) && b.len() < after_csrc(b[0]) + 4 {
        Err(RtpError::TooShort)
    } else if b.len() < payload_offset(b) {
        Err(RtpError::TooShort)
    } else {
        Ok((header_in(b), payload_offset(b)))
    }
}

impl RtpHeader {
    /// The 12 bytes of the header: version 2, no padding, no extension, no CSRC.
    pub open spec fn wire(self) -> Seq<u8> {
        seq![
            128u8,
            ((if self.marker { 128int } else { 0 }) + self.payload_type % 128) as u8,
        ] + bytes::be16(self.sequence) + bytes::be32(self.timestamp) + bytes::be32(self.ssrc)
    }

    /// Writes the 12 bytes of the fixed header to the start of `out` and gives
    /// the number of bytes written.
    pub fn write(&self, out: &mut [u8]) -> (r: Result<usize, RtpError>)
        ensures
            old(out)@.len() < RTP_HEADER_MIN_LEN ==> r == Err::<usize, _>(RtpError::TooShort)
                && final(out)@ == old(out)@,
            old(out)@.len() >= RTP_HEADER_MIN_LEN ==> r == Ok::<_, RtpError>(RTP_HEADER_MIN_LEN)
                && final(out)@ == self.wire() + old(out)@.skip(RTP_HEADER_MIN_LEN as int),
    {
        if out.len() < RTP_HEADER_MIN_LEN {
            return Err(RtpError::TooShort);
        }
        let mark: u8 = if self.marker {
            128
        } else {
            0
        };
        out[0] = RTP_VERSION * 64;
        out[1] = mark + self.payload_type % 128;
        bytes::set_u16(out, 2, self.sequence);
        bytes::set_u32(out, 4, self.timestamp);
        bytes::set_u32(out, 8, self.ssrc);
        assert(out@ =~= self.wire() + old(out)@.skip(RTP_HEADER_MIN_LEN as int));
        Ok(RTP_HEADER_MIN_LEN)
    }

    /// Parses the header at the start of `buf` and gives it together with the
    /// offset of the payload. Skips a CSRC list and an extension header.
    pub fn parse(buf: &[u8]) -> (r: Result<(RtpHeader, usize), RtpError>)
        ensures
            match parsed(buf@) {
                Ok((h, offset)) => r matches Ok(got) && got.0 == h && got.1 == offset && offset
                    <= buf@.len(),
                Err(e) => r == Err::<(RtpHeader, usize), _>(e),
            },
    {
        if buf.len() < RTP_HEADER_MIN_LEN {
            return Err(RtpError::TooShort);
        }
        if buf[0] / 64 != RTP_VERSION {
            return Err(RtpError::BadVersion);
        }
        let has_ext: bool = (buf[0] / 16) % 2 == 1;
        let csrc_count: usize = (buf[0] % 16) as usize;
        let header = RtpHeader {
            marker: buf[1] >= 128,
            payload_type: buf[1] % 128,
            sequence: bytes::get_u16(buf, 2),
            timestamp: bytes::get_u32(buf, 4),
            ssrc: bytes::get_u32(buf, 8),
        };
        let mut offset: usize = RTP_HEADER_MIN_LEN + csrc_count * 4;
        if has_ext {
            if buf.len() < offset + 4 {
                return Err(RtpError::TooShort);
            }
            let ext_words: usize = bytes::get_u16(buf, offset + 2) as usize;
            offset = offset + 4 + ext_words * 4;
        }
        if buf.len() < offset {
            return Err(RtpError::TooShort);
        }
        Ok((header, offset))
    }
}

/// Byte `j` of the big-endian two's complement form of the sample `s`.
pub open spec fn sample_byte(s: i32, j: int) -> u8 {
    bytes::be32(bytes::bits32(s))[j]
}

/// The interleaved samples as big-endian PCM: the top 24 or 16 bits of each.
pub open spec fn pcm(samples: Seq<i32>, enc: Encoding) -> Seq<u8> {
    match enc {
        Encoding::L24 => Seq::new(samples.len() * 3, |k: int| sample_byte(samples[k / 3], k % 3)),
        Encoding::L16 => Seq::new(samples.len() * 2, |k: int| sample_byte(samples[k / 2], k % 2)),
    }
}

/// The sample whose bytes start at `i`: left-aligned, the missing low bytes 0.
pub open spec fn sample_at(b: Seq<u8>, i: int, enc: Encoding) -> i32 {
    match enc {
        Encoding::L24 => bytes::signed32(
            bytes::u32_at(seq![b[i], b[i + 1], b[i + 2], 0u8], 0),
        ),
        Encoding::L16 => bytes::signed32(bytes::u32_at(seq![b[i], b[i + 1], 0u8, 0u8], 0)),
    }
}

/// The samples of a payload whose length is a multiple of the sample width.
pub open spec fn samples_in(payload: Seq<u8>, enc: Encoding) -> Seq<i32> {
    match enc {
        Encoding::L24 => Seq::new(
            payload.len() / 3,
            |i: int| sample_at(payload, i * 3, Encoding::L24),
        ),
        Encoding::L16 => Seq::new(
            payload.len() / 2,
            |i: int| sample_at(payload, i * 2, Encoding::L16),
        ),
    }
}

/// Encodes interleaved samples (one `i32` per channel and frame, the signal in
/// the upper bits) as big-endian PCM at the start of `out` and gives the number
/// of bytes written.
pub fn encode_payload(samples: &[i32], enc: Encoding, out: &mut [u8]) -> (r: Result<
    usize,
    RtpError,
>)
    ensures
        old(out)@.len() < samples@.len() * enc.width() ==> r == Err::<usize, _>(RtpError::TooShort)
            && final(out)@ == old(out)@,
        old(out)@.len() >= samples@.len() * enc.width() ==> {
            &&& r matches Ok(n) && n == samples@.len() * enc.width()
            &&& final(out)@ == pcm(samples@, enc) + old(out)@.skip(
                (samples@.len() * enc.width()) as int,
            )
        },
{
    let width: usize = enc.bytes_per_sample();
    assert(out.len() / width < samples.len() <==> out.len() < samples.len() * width)
        by (nonlinear_arith)
        requires
            width > 0,
    ;
    if out.len() / width < samples.len() {
        return Err(RtpError::TooShort);
    }
    let n: usize = samples.len();
    let mut i: usize = 0;
    match enc {
        Encoding::L24 => {
            while i < n
                invariant
                    n == samples@.len(),
                    i <= n,
                    n * 3 <= out@.len(),
                    out.len() == old(out)@.len(),
                    forall|k: int| 0 <= k < i * 3 ==> out@[k] == #[trigger] pcm(samples@, enc)[k],
                    forall|k: int| i * 3 <= k < out@.len() ==> out@[k] == old(out)@[k],
                    enc == Encoding::L24,
                decreases n - i,
            {
                let u: u32 = bytes::to_bits32(samples[i]);
                out[i * 3] = (u / 0x100_0000) as u8;
                out[i * 3 + 1] = ((u / 0x1_0000) % 0x100) as u8;
                out[i * 3 + 2] = ((u / 0x100) % 0x100) as u8;
                i = i + 1;
            }
            assert(out@ =~= pcm(samples@, enc) + old(out)@.skip(n * 3));
            Ok(n * 3)
        },
        Encoding::L16 => {
            while i < n
                invariant
                    n == samples@.len(),
                    i <= n,
                    n * 2 <= out@.len(),
                    out.len() == old(out)@.len(),
                    forall|k: int| 0 <= k < i * 2 ==> out@[k] == #[trigger] pcm(samples@, enc)[k],
                    forall|k: int| i * 2 <= k < out@.len() ==> out@[k] == old(out)@[k],
                    enc == Encoding::L16,
                decreases n - i,
            {
                let u: u32 = bytes::to_bits32(samples[i]);
                out[i * 2] = (u / 0x100_0000) as u8;
                out[i * 2 + 1] = ((u / 0x1_0000) % 0x100) as u8;
                i = i + 1;
            }
            assert(out@ =~= pcm(samples@, enc) + old(out)@.skip(n * 2));
            Ok(n * 2)
        },
    }
}

/// Decodes big-endian PCM to left-aligned samples, which replace what `out`
/// held, and gives their number.
pub fn decode_payload(payload: &[u8], enc: Encoding, out: &mut Vec<i32>) -> (r: Result<
    usize,
    RtpError,
>)
    ensures
        payload@.len() % enc.width() != 0 ==> r == Err::<usize, _>(RtpError::RaggedPayload)
            && final(out)@ == old(out)@,
        payload@.len() % enc.width() == 0 ==> {
            &&& r matches Ok(n) && n == payload@.len() / enc.width()
            &&& final(out)@ == samples_in(payload@, enc)
        },
{
    let width: usize = enc.bytes_per_sample();
    if payload.len() % width != 0 {
        return Err(RtpError::RaggedPayload);
    }
    let n: usize = payload.len() / width;
    out.clear();
    out.reserve(n);
    let mut i: usize = 0;
    while i < n
        invariant
            i <= n,
            width == enc.width(),
            n == payload@.len() / enc.width(),
            payload@.len() % enc.width() == 0,
            payload.len() == payload@.len(),
            out@ == samples_in(payload@, enc).take(i as int),
        decreases n - i,
    {
        let v: i32 = match enc {
            Encoding::L24 => {
                let b: [u8; 4] = [payload[i * 3], payload[i * 3 + 1], payload[i * 3 + 2], 0];
                assert(b@ =~= seq![
                    payload@[i * 3],
                    payload@[i * 3 + 1],
                    payload@[i * 3 + 2],
                    0u8,
                ]);
                bytes::to_signed32(bytes::get_u32(&b, 0))
            },
            Encoding::L16 => {
                let b: [u8; 4] = [payload[i * 2], payload[i * 2 + 1], 0, 0];
                assert(b@ =~= seq![payload@[i * 2], payload@[i * 2 + 1], 0u8, 0u8]);
                bytes::to_signed32(bytes::get_u32(&b, 0))
            },
        };
        out.push(v);
        i = i + 1;
        assert(out@ =~= samples_in(payload@, enc).take(i as int));
    }
    assert(out@ =~= samples_in(payload@, enc));
    Ok(n)
}

/// A header that was written is parsed back as it was, and the payload starts
/// right behind it. A payload type takes 7 bits.
pub proof fn header_write_parse(h: RtpHeader, rest: Seq<u8>)
    requires
        h.payload_type < 128,
    ensures
        parsed(h.wire() + rest) == Ok::<(RtpHeader, int), RtpError>(
            (h, RTP_HEADER_MIN_LEN as int),
        ),
{
    let b = h.wire() + rest;
    assert(b.subrange(2, 4) =~= bytes::be16(h.sequence));
    assert(b.subrange(4, 8) =~= bytes::be32(h.timestamp));
    assert(b.subrange(8, 12) =~= bytes::be32(h.ssrc));
    bytes::lemma_u16_roundtrip(b, 2, h.sequence);
    bytes::lemma_u32_roundtrip(b, 4, h.timestamp);
    bytes::lemma_u32_roundtrip(b, 8, h.ssrc);
}

/// The value `s` with the bits cleared that the encoding does not carry.
pub open spec fn carried(s: i32, enc: Encoding) -> int {
    match enc {
        Encoding::L24 => s as int - (s as int) % 0x100,
        Encoding::L16 => s as int - (s as int) % 0x1_0000,
    }
}

/// The leading bytes of a number, and what they leave out.
proof fn lemma_leading_bytes(u: int)
    requires
        0 <= u < 0x1_0000_0000,
    ensures
        u / 0x100_0000 * 0x100_0000 + (u / 0x1_0000) % 0x100 * 0x1_0000 == u - u % 0x1_0000,
        u / 0x100_0000 * 0x100_0000 + (u / 0x1_0000) % 0x100 * 0x1_0000 + (u / 0x100) % 0x100
            * 0x100 == u - u % 0x100,
{
    vstd::arithmetic::div_mod::lemma_div_denominator(u, 0x100, 0x100);
    vstd::arithmetic::div_mod::lemma_div_denominator(u, 0x1_0000, 0x100);
    let a = u / 0x100;
    let b = u / 0x1_0000;
    let c = u / 0x100_0000;
    assert(b == a / 0x100);
    assert(c == b / 0x100);
    assert(u == a * 0x100 + u % 0x100);
    assert(a == b * 0x100 + a % 0x100);
    assert(b == c * 0x100 + b % 0x100);
    assert(u == b * 0x1_0000 + u % 0x1_0000);
}

/// Two's complement and the bits that are not carried.
proof fn lemma_carried_bits(s: i32, m: int)
    requires
        m == 0x100 || m == 0x1_0000,
    ensures
        ({
            let u = bytes::bits32(s) as int;
            bytes::signed32((u - u % m) as u32) == s as int - (s as int) % m
        }),
{
    let u = bytes::bits32(s) as int;
    if s < 0 {
        assert(u % m == (s as int) % m);
    }
}

/// One sample: its leading bytes, read back, are the bits that are carried.
proof fn lemma_sample_roundtrip(s: i32, b: Seq<u8>, i: int, enc: Encoding)
    requires
        b[i] == sample_byte(s, 0),
        b[i + 1] == sample_byte(s, 1),
        enc == Encoding::L24 ==> b[i + 2] == sample_byte(s, 2),
    ensures
        sample_at(b, i, enc) == carried(s, enc),
{
    let u = bytes::bits32(s) as int;
    lemma_leading_bytes(u);
    match enc {
        Encoding::L24 => {
            let q = seq![b[i], b[i + 1], b[i + 2], 0u8];
            assert(bytes::u32_at(q, 0) == u - u % 0x100);
            lemma_carried_bits(s, 0x100);
        },
        Encoding::L16 => {
            let q = seq![b[i], b[i + 1], 0u8, 0u8];
            assert(bytes::u32_at(q, 0) == u - u % 0x1_0000);
            lemma_carried_bits(s, 0x1_0000);
        },
    }
}

/// Encoding and decoding keeps the top 24 or 16 bits of every sample and clears
/// the rest, so left-aligned samples come back as they were.
pub proof fn payload_roundtrip(samples: Seq<i32>, enc: Encoding)
    ensures
        pcm(samples, enc).len() == samples.len() * enc.width(),
        samples_in(pcm(samples, enc), enc).len() == samples.len(),
        forall|i: int|
            0 <= i < samples.len() ==> #[trigger] samples_in(pcm(samples, enc), enc)[i] == carried(
                samples[i],
                enc,
            ),
        (forall|i: int| 0 <= i < samples.len() ==> carried(#[trigger] samples[i], enc) == samples[i])
            ==> samples_in(pcm(samples, enc), enc) == samples,
{
    let b = pcm(samples, enc);
    let back = samples_in(b, enc);
    assert forall|i: int| 0 <= i < samples.len() implies #[trigger] back[i] == carried(
        samples[i],
        enc,
    ) by {
        match enc {
            Encoding::L24 => {
                assert(b[i * 3] == sample_byte(samples[i], 0));
                assert(b[i * 3 + 1] == sample_byte(samples[i], 1));
                assert(b[i * 3 + 2] == sample_byte(samples[i], 2));
                lemma_sample_roundtrip(samples[i], b, i * 3, enc);
            },
            Encoding::L16 => {
                assert(b[i * 2] == sample_byte(samples[i], 0));
                assert(b[i * 2 + 1] == sample_byte(samples[i], 1));
                lemma_sample_roundtrip(samples[i], b, i * 2, enc);
            },
        }
    }
    if forall|i: int| 0 <= i < samples.len() ==> carried(#[trigger] samples[i], enc) == samples[i] {
        assert(back =~= samples);
    }
}

/// The fields of a header stand where RTP has them: the marker in the top bit of
/// the second byte and the payload type below it, then the sequence number, the
/// timestamp and the source, each with its first byte in front.
pub proof fn header_stands_where_it_should(b: Seq<u8>)
    ensures
        header_in(b).marker == (b[1] & 0x80 != 0),
        header_in(b).payload_type == b[1] & 0x7f,
        header_in(b).sequence == b[2] * 0x100 + b[3],
        header_in(b).timestamp == b[4] * 0x100_0000 + b[5] * 0x1_0000 + b[6] * 0x100 + b[7],
        header_in(b).ssrc == b[8] * 0x100_0000 + b[9] * 0x1_0000 + b[10] * 0x100 + b[11],
{
    let x = b[1];
    assert((x >= 128) == (x & 0x80 != 0)) by (bit_vector);
    assert(x % 128 == x & 0x7f) by (bit_vector);
}

/// A header is written as twelve bytes, of version 2 and with nothing behind it.
pub proof fn header_takes_twelve_bytes(h: RtpHeader)
    ensures
        h.wire().len() == 12,
        h.wire()[0] == 0x80,
{
}

/// A packet is read just where it is of version 2 and its header is there in
/// full: twelve bytes, four for each contributing source, and the extension with
/// the words that it counts. The payload is what stands behind all of that.
pub proof fn payload_stands_behind_the_header(b: Seq<u8>)
    ensures
        ({
            let sources = 12 + 4 * (b[0] & 0x0f);
            let end = if b[0] & 0x10 == 0 {
                sources as int
            } else {
                sources + 4 + 4 * (b[sources + 2] * 0x100 + b[sources + 3])
            };
            &&& parsed(b) is Ok <==> b.len() >= 12 && b[0] & 0xc0 == 0x80 && b.len() >= end && (
            b[0] & 0x10 == 0 || b.len() >= sources + 4)
            &&& parsed(b) matches Ok((h, offset)) ==> offset == end && h == header_in(b)
            &&& parsed(b) == Err::<(RtpHeader, int), RtpError>(RtpError::BadVersion) <==> b.len()
                >= 12 && b[0] & 0xc0 != 0x80
            &&& parsed(b) is Err ==> parsed(b) == Err::<(RtpHeader, int), RtpError>(
                RtpError::BadVersion,
            ) || parsed(b) == Err::<(RtpHeader, int), RtpError>(RtpError::TooShort)
        }),
{
    let x = b[0];
    assert((x / 64 == 2) == (x & 0xc0 == 0x80)) by (bit_vector);
    assert(((x / 16) % 2 == 1) == (x & 0x10 != 0)) by (bit_vector);
    assert(x % 16 == x & 0x0f) by (bit_vector);
}

/// A sample of 24 bits is the signed number that its three bytes write, the first
/// one in front, in the upper bits of a word; one of 16 bits that of its two.
/// The samples stand one behind the other.
pub proof fn samples_are_signed_numbers(payload: Seq<u8>, i: int)
    requires
        0 <= i,
    ensures
        samples_in(payload, Encoding::L24).len() == payload.len() / 3,
        samples_in(payload, Encoding::L16).len() == payload.len() / 2,
        3 * i + 3 <= payload.len() ==> samples_in(payload, Encoding::L24)[i] == 0x100 * (payload[3
            * i] * 0x1_0000 + payload[3 * i + 1] * 0x100 + payload[3 * i + 2] - (if payload[3 * i]
            >= 128 {
            0x100_0000int
        } else {
            0
        })),
        2 * i + 2 <= payload.len() ==> samples_in(payload, Encoding::L16)[i] == 0x1_0000 * (
        payload[2 * i] * 0x100 + payload[2 * i + 1] - (if payload[2 * i] >= 128 {
            0x1_0000int
        } else {
            0
        })),
{
}

/// What is carried of a sample is the sample without its lowest bits, never more
/// than the sample itself: 24 or 16 bits are left.
pub proof fn lowest_bits_are_not_carried(s: i32)
    ensures
        carried(s, Encoding::L24) <= s < carried(s, Encoding::L24) + 0x100,
        carried(s, Encoding::L24) % 0x100 == 0,
        carried(s, Encoding::L16) <= s < carried(s, Encoding::L16) + 0x1_0000,
        carried(s, Encoding::L16) % 0x1_0000 == 0,
{
}

} // verus!
