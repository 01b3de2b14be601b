//! The stream profile: sample rate, channel count, packet time and encoding.

use vstd::prelude::*;

verus! {

/// Largest channel count that fits one standard Ethernet frame (1500 bytes):
/// 64 channels at 125 microseconds are 1152 payload bytes.
pub const MAX_CHANNELS: u8 = 64;

/// Payload encoding. `L24` is the base of AES67 Level A, `L16` is optional.
#[derive(Debug, Clone, Copy, PartialEq, Eq, Structural)]
pub enum Encoding {
    /// 24-bit linear PCM, big-endian, interleaved.
    L24,
    /// 16-bit linear PCM, big-endian, interleaved.
    L16,
}

impl Encoding {
    /// Bytes that one sample of one channel takes on the wire.
    pub open spec fn width(self) -> nat {
        match self {
            Encoding::L24 => 3,
            Encoding::L16 => 2,
        }
    }

    /// Name in an SDP `rtpmap` line.
    pub open spec fn name(self) -> Seq<char> {
        match self {
            Encoding::L24 => "L24"@,
            Encoding::L16 => "L16"@,
        }
    }

    /// Bytes per sample (one channel, one frame).
    pub fn bytes_per_sample(self) -> (n: usize)
        ensures
            n == self.width(),
    {
        match self {
            Encoding::L24 => 3,
            Encoding::L16 => 2,
        }
    }

    /// Name for the SDP `rtpmap` line, such as `L24`.
    pub fn rtpmap_name(self) -> (s: &'static str)
        ensures
            s@ == self.name(),
    {
        match self {
            Encoding::L24 => "L24",
            Encoding::L16 => "L16",
        }
    }
}

/// The profile of one stream. The common target is the mandatory base of AES67,
/// which is ST 2110-30 Level A.
#[derive(Debug, Clone, Copy, PartialEq, Eq, Structural)]
pub struct StreamProfile {
    /// Sample rate in Hz (Level A: 48000).
    pub sample_rate: u32,
    /// Channels per stream (Level A: at most 8).
    pub channels: u8,
    /// Packet time in microseconds (Level A: 1000).
    pub ptime_us: u32,
    /// Payload encoding.
    pub encoding: Encoding,
}

/// Packet time, in microseconds, for a channel count: the longest of the four
/// steps at which a packet still fits a standard frame.
pub open spec fn packet_time_us(channels: u8) -> u32 {
    if channels <= 8 {
        1_000
    } else if channels <= 16 {
        500
    } else if channels <= 32 {
        250
    } else {
        125
    }
}

impl StreamProfile {
    /// Frames (sample tuples over all channels) in `ptime_us` microseconds, as
    /// a 32-bit count.
    pub open spec fn frames(self) -> nat {
        ((self.sample_rate * self.ptime_us / 1_000_000) % 0x1_0000_0000) as nat
    }

    /// Samples, over all channels, of one packet.
    pub open spec fn samples(self) -> nat {
        self.frames() * (self.channels as nat)
    }

    /// Payload bytes of one full packet.
    pub open spec fn payload(self) -> nat {
        self.samples() * self.encoding.width()
    }

    /// Level A of AES67 and ST 2110-30: 48 kHz, L24, one millisecond.
    pub open spec fn spec_level_a(channels: u8) -> StreamProfile {
        StreamProfile { sample_rate: 48_000, channels, ptime_us: 1_000, encoding: Encoding::L24 }
    }

    /// 48 kHz, L24, with the packet time that suits the channel count, which is
    /// capped at [`MAX_CHANNELS`].
    pub open spec fn spec_aes67(channels: u8) -> StreamProfile {
        StreamProfile {
            sample_rate: 48_000,
            channels: if channels > MAX_CHANNELS {
                MAX_CHANNELS
            } else {
                channels
            },
            ptime_us: packet_time_us(channels),
            encoding: Encoding::L24,
        }
    }

    /// AES67 / ST 2110-30 **Level A**: 48 kHz, L24, 1 ms packet time.
    pub fn level_a(channels: u8) -> (p: Self)
        ensures
            p == Self::spec_level_a(channels),
    {
        StreamProfile { sample_rate: 48_000, channels, ptime_us: 1_000, encoding: Encoding::L24 }
    }

    /// Picks the **packet time by channel count** so that an RTP packet always
    /// fits a standard Ethernet frame:
    ///
    /// | channels | ptime  | frames |
    /// |----------|--------|--------|
    /// | ≤ 8      | 1 ms   | 48     |
    /// | ≤ 16     | 500 µs | 24     |
    /// | ≤ 32     | 250 µs | 12     |
    /// | ≤ 64     | 125 µs | 6      |
    ///
    /// Channel counts over [`MAX_CHANNELS`] are capped at it.
    pub fn aes67(channels: u8) -> (p: Self)
        ensures
            p == Self::spec_aes67(channels),
    {
        let ptime_us: u32 = if channels <= 8 {
            1_000
        } else if channels <= 16 {
            500
        } else if channels <= 32 {
            250
        } else {
            125
        };
        let channels: u8 = if channels > MAX_CHANNELS {
            MAX_CHANNELS
        } else {
            channels
        };
        StreamProfile { sample_rate: 48_000, channels, ptime_us, encoding: Encoding::L24 }
    }

    /// Frames per RTP packet, from sample rate and packet time. Level A: 48.
    pub fn frames_per_packet(&self) -> (n: u32)
        ensures
            n == self.frames(),
    {
        assert(self.sample_rate * self.ptime_us <= 0xffff_ffff * 0xffff_ffff) by (nonlinear_arith)
            requires
                self.sample_rate <= 0xffff_ffff,
                self.ptime_us <= 0xffff_ffff,
        ;
        let all: u64 = self.sample_rate as u64 * self.ptime_us as u64 / 1_000_000;
        (all % 0x1_0000_0000) as u32
    }

    /// Payload size of a full RTP packet in bytes.
    pub fn payload_bytes(&self) -> (n: usize)
        requires
            self.payload() <= usize::MAX,
        ensures
            n == self.payload(),
    {
        let frames: u32 = self.frames_per_packet();
        let width: usize = self.encoding.bytes_per_sample();
        let ghost f = self.frames();
        let ghost c = self.channels as nat;
        let ghost w = self.encoding.width();
        assert(f <= (f * c) * w || c == 0) by (nonlinear_arith)
            requires
                w >= 1,
        ;
        assert(f * c <= (f * c) * w) by (nonlinear_arith)
            requires
                w >= 1,
        ;
        if self.channels == 0 {
            return 0;
        }
        frames as usize * self.channels as usize * width
    }
}

/// Frames and payload of the four steps of `aes67`.
proof fn lemma_aes67_payload(channels: u8)
    ensures
        ({
            let p = StreamProfile::spec_aes67(channels);
            &&& p.payload() == p.frames() * p.channels * 3
            &&& channels <= 8 ==> p.frames() == 48
            &&& 8 < channels <= 16 ==> p.frames() == 24
            &&& 16 < channels <= 32 ==> p.frames() == 12
            &&& 32 < channels ==> p.frames() == 6
        }),
{
    let p = StreamProfile::spec_aes67(channels);
    assert(48_000 * p.ptime_us == p.sample_rate * p.ptime_us);
}

/// Every profile that `aes67` picks fits a standard frame: at most 1152 payload
/// bytes, whatever the channel count asked for.
pub proof fn aes67_fits_standard_frame(channels: u8)
    ensures
        StreamProfile::spec_aes67(channels).payload() <= 1152,
        StreamProfile::spec_aes67(channels).channels <= MAX_CHANNELS,
{
    lemma_aes67_payload(channels);
}

/// At 8, 16, 32 and 64 channels, the upper end of each step, a packet is filled
/// to exactly 1152 payload bytes.
pub proof fn aes67_steps_fill_the_frame(channels: u8)
    requires
        channels == 8 || channels == 16 || channels == 32 || channels == 64,
    ensures
        StreamProfile::spec_aes67(channels).payload() == 1152,
        StreamProfile::spec_aes67(channels).channels == channels,
{
    lemma_aes67_payload(channels);
}

/// Up to 8 channels `aes67` is Level A.
pub proof fn aes67_is_level_a_up_to_eight(channels: u8)
    requires
        channels <= 8,
    ensures
        StreamProfile::spec_aes67(channels) == StreamProfile::spec_level_a(channels),
{
}

/// A packet holds as many whole frames as its time takes at the sample rate.
pub proof fn packet_holds_the_frames_of_its_time(p: StreamProfile)
    requires
        p.sample_rate * p.ptime_us < 0x1_0000_0000 * 1_000_000,
    ensures
        p.frames() * 1_000_000 <= p.sample_rate * p.ptime_us,
        p.sample_rate * p.ptime_us < (p.frames() + 1) * 1_000_000,
        p.payload() == p.frames() * p.channels * p.encoding.width(),
        Encoding::L24.width() * 8 == 24,
        Encoding::L16.width() * 8 == 16,
{
    let x = p.sample_rate * p.ptime_us;
    assert(x >= 0) by (nonlinear_arith)
        requires
            x == p.sample_rate * p.ptime_us,
    ;
    assert(x / 1_000_000 < 0x1_0000_0000);
}

/// A stream keeps its channels, up to 64 of them, and runs at 48 kHz with 24
/// bits. Its packet time is the longest of 1 ms, half, a quarter and an eighth of
/// it at which a packet takes no more than 1152 bytes.
pub proof fn packet_time_is_the_longest_that_fits(channels: u8)
    ensures
        ({
            let p = StreamProfile::spec_aes67(channels);
            &&& p.channels == vstd::math::min(channels as int, 64)
            &&& p.sample_rate == 48_000
            &&& p.encoding == Encoding::L24
            &&& p.ptime_us == 1_000 || p.ptime_us == 500 || p.ptime_us == 250 || p.ptime_us == 125
            &&& 48_000 * p.ptime_us / 1_000_000 * p.channels * 3 <= 1152
            &&& p.ptime_us < 1_000 ==> 48_000 * (2 * p.ptime_us) / 1_000_000 * p.channels * 3
                > 1152
        }),
{
    let c = StreamProfile::spec_aes67(channels).channels as int;
    assert(48int * c * 3 == 144 * c);
    assert(24int * c * 3 == 72 * c);
    assert(12int * c * 3 == 36 * c);
    assert(6int * c * 3 == 18 * c);
}

/// Level A is 48 kHz, 24 bits and one millisecond, 48 frames, for any number of
/// channels.
pub proof fn level_a_is_one_millisecond(channels: u8)
    ensures
        ({
            let p = StreamProfile::spec_level_a(channels);
            &&& p.channels == channels
            &&& p.sample_rate == 48_000
            &&& p.ptime_us == 1_000
            &&& p.encoding == Encoding::L24
            &&& p.frames() == 48
        }),
{
}

} // verus!
