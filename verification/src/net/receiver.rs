//! The RTP receiver: RTP packets to interleaved samples.

use super::sender::SenderModel;
use crate::profile::StreamProfile;
use crate::rtp;
use crate::rtp::{RtpError, RtpHeader};
use vstd::prelude::*;
use vstd::slice::slice_subrange;

verus! {

/// A decoded RTP packet.
#[derive(Debug, PartialEq, Eq)]
pub struct ReceivedPacket {
    pub header: RtpHeader,
    /// Interleaved samples, left-aligned.
    pub samples: Vec<i32>,
}

impl ReceivedPacket {
    /// Number of frames (sample tuples over all channels) in the packet.
    pub fn frames(&self, channels: u8) -> (n: usize)
        ensures
            n == (if channels == 0 {
                0
            } else {
                self.samples@.len() as int / channels as int
            }),
    {
        if channels == 0 {
            0
        } else {
            self.samples.len() / channels as usize
        }
    }
}

/// What a datagram decodes to: header and samples.
pub open spec fn decoded(b: Seq<u8>, profile: StreamProfile) -> Result<
    (RtpHeader, Seq<i32>),
    RtpError,
> {
    match rtp::parsed(b) {
        Err(e) => Err(e),
        Ok((header, offset)) => {
            let payload = b.skip(offset);
            if payload.len() % profile.encoding.width() != 0 {
                Err(RtpError::RaggedPayload)
            } else {
                Ok((header, rtp::samples_in(payload, profile.encoding)))
            }
        },
    }
}

/// The receiver of a stream with a known profile.
#[derive(Debug, Clone, Copy)]
pub struct RtpReceiver {
    pub profile: StreamProfile,
}

impl RtpReceiver {
    pub fn new(profile: StreamProfile) -> (r: Self)
        ensures
            r.profile == profile,
    {
        RtpReceiver { profile }
    }

    /// Size of the receive buffer.
    pub open spec fn room(&self) -> int {
        if self.profile.payload() + 524 > 2048 {
            self.profile.payload() as int + 524
        } else {
            2048
        }
    }

    /// Size of the receive buffer: a full packet and 512 bytes for other
    /// senders, and never less than 2048.
    pub fn buffer_len(&self) -> (n: usize)
        requires
            self.profile.payload() + 524 <= usize::MAX,
        ensures
            n == (if self.profile.payload() + 524 > 2048 {
                self.profile.payload() + 524
            } else {
                2048
            }),
            n == self.room(),
    {
        let cap: usize = rtp::RTP_HEADER_MIN_LEN + self.profile.payload_bytes() + 512;
        if cap > 2048 {
            cap
        } else {
            2048
        }
    }

    /// Decodes a datagram. A bad header or a ragged payload is an error.
    pub fn decode(&self, datagram: &[u8]) -> (r: Result<ReceivedPacket, RtpError>)
        ensures
            match decoded(datagram@, self.profile) {
                Ok((h, s)) => r matches Ok(p) && p.header == h && p.samples@ == s,
                Err(e) => r matches Err(got) && got == e,
            },
    {
        let (header, offset): (RtpHeader, usize) = match RtpHeader::parse(datagram) {
            Ok(p) => p,
            Err(e) => {
                return Err(e);
            },
        };
        let payload: &[u8] = slice_subrange(datagram, offset, datagram.len());
        assert(payload@ =~= datagram@.skip(offset as int));
        let mut samples: Vec<i32> = Vec::new();
        match rtp::decode_payload(payload, self.profile.encoding, &mut samples) {
            Ok(_) => Ok(ReceivedPacket { header, samples }),
            Err(e) => Err(e),
        }
    }
}

/// What was sent arrives: a packet decodes to the header that the sender gave
/// it, and left-aligned samples come back as they were.
#[verifier::spinoff_prover]
#[verifier::rlimit(40)]
pub proof fn sent_packet_is_received(s: SenderModel, chunk: Seq<i32>)
    requires
        s.payload_type < 128,
        forall|i: int|
            0 <= i < chunk.len() ==> rtp::carried(#[trigger] chunk[i], s.profile.encoding)
                == chunk[i],
    ensures
        decoded(s.packet(chunk), s.profile) == Ok::<(RtpHeader, Seq<i32>), RtpError>(
            (s.header(), chunk),
        ),
{
    let pcm = rtp::pcm(chunk, s.profile.encoding);
    rtp::header_write_parse(s.header(), pcm);
    rtp::payload_roundtrip(chunk, s.profile.encoding);
    assert(s.packet(chunk).skip(12) =~= pcm);
    match s.profile.encoding {
        crate::profile::Encoding::L24 => {
            assert(pcm.len() == chunk.len() * 3);
        },
        crate::profile::Encoding::L16 => {
            assert(pcm.len() == chunk.len() * 2);
        },
    }
}

/// A packet is decoded just where its header is read and its payload is a whole
/// number of samples; then every byte of the payload belongs to one of them.
pub proof fn payload_is_a_whole_number_of_samples(b: Seq<u8>, profile: StreamProfile)
    ensures
        decoded(b, profile) matches Ok((h, s)) ==> (rtp::parsed(b) matches Ok((g, offset)) && h == g
            && s.len() * profile.encoding.width() == b.len() - offset),
        rtp::parsed(b) matches Ok((g, offset)) ==> (decoded(b, profile) is Ok <==> (b.len()
            - offset) % profile.encoding.width() as int == 0),
        rtp::parsed(b) is Ok && decoded(b, profile) is Err ==> decoded(b, profile) == Err::<
            (RtpHeader, Seq<i32>),
            RtpError,
        >(RtpError::RaggedPayload),
        rtp::parsed(b) matches Err(e) ==> decoded(b, profile) == Err::<
            (RtpHeader, Seq<i32>),
            RtpError,
        >(e),
{
    rtp::payload_stands_behind_the_header(b);
}

/// There is room for a full packet with its header of 12 bytes and 512 bytes more,
/// for 2048 bytes in any case, and for no more than the larger of the two.
pub proof fn full_packet_fits_the_buffer(r: RtpReceiver)
    ensures
        r.room() == vstd::math::max(2048, 12 + r.profile.payload() as int + 512),
{
}

} // verus!
