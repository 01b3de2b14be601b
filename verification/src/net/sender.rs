//! The RTP sender: interleaved samples to RTP packets.
//!
//! A block of samples is cut into packets (Level A: 48 frames, 1 ms). Sequence
//! number and media clock move on with every packet that was sent.

use crate::bytes;
use crate::profile::StreamProfile;
use crate::rtp;
use crate::rtp::RtpHeader;
use vstd::prelude::*;
use vstd::slice::slice_subrange;

verus! {

/// The block is no whole number of packets.
#[derive(Debug, Clone, Copy, PartialEq, Eq, Structural)]
pub struct RaggedBlock;

impl RaggedBlock {
    /// The message for the log.
    pub fn message(&self) -> (s: &'static str)
        ensures
            s@ == "Blocklaenge ist kein Vielfaches der Paketgroesse"@,
    {
        "Blocklaenge ist kein Vielfaches der Paketgroesse"
    }
}

/// The state of the sender of one stream.
#[derive(Debug, Clone, Copy)]
pub struct RtpSender {
    profile: StreamProfile,
    payload_type: u8,
    ssrc: u32,
    sequence: u16,
    timestamp: u32,
}

/// What the sender goes by.
pub struct SenderModel {
    pub profile: StreamProfile,
    pub payload_type: u8,
    pub ssrc: u32,
    pub sequence: u16,
    pub timestamp: u32,
}

impl SenderModel {
    /// The header of the next packet.
    pub open spec fn header(self) -> RtpHeader {
        RtpHeader {
            marker: false,
            payload_type: self.payload_type,
            sequence: self.sequence,
            timestamp: self.timestamp,
            ssrc: self.ssrc,
        }
    }

    /// The bytes of the next packet, which carries `chunk`.
    pub open spec fn packet(self, chunk: Seq<i32>) -> Seq<u8> {
        self.header().wire() + rtp::pcm(chunk, self.profile.encoding)
    }

    /// After `n` packets were sent.
    pub open spec fn after(self, n: nat) -> SenderModel {
        SenderModel {
            sequence: ((self.sequence + n) % 0x1_0000) as u16,
            timestamp: ((self.timestamp + n * self.profile.frames()) % 0x1_0000_0000) as u32,
            ..self
        }
    }

    /// Whether a block of `len` samples is a whole number of packets.
    pub open spec fn whole(self, len: nat) -> bool {
        self.profile.samples() > 0 && len % self.profile.samples() == 0
    }

    /// Part number `i` of a block, as long as one packet.
    pub open spec fn chunk(self, block: Seq<i32>, i: int) -> Seq<i32> {
        let n = self.profile.samples() as int;
        block.subrange(i * n, i * n + n)
    }
}

impl View for RtpSender {
    type V = SenderModel;

    closed spec fn view(&self) -> SenderModel {
        SenderModel {
            profile: self.profile,
            payload_type: self.payload_type,
            ssrc: self.ssrc,
            sequence: self.sequence,
            timestamp: self.timestamp,
        }
    }
}

impl RtpSender {
    /// `ssrc` identifies the source; `timestamp_start` is where the media clock
    /// starts.
    pub fn new(profile: StreamProfile, payload_type: u8, ssrc: u32, timestamp_start: u32) -> (s:
        Self)
        ensures
            s@ == (SenderModel {
                profile,
                payload_type,
                ssrc,
                sequence: 0,
                timestamp: timestamp_start,
            }),
    {
        RtpSender { profile, payload_type, ssrc, sequence: 0, timestamp: timestamp_start }
    }

    /// Sequence number of the next packet.
    pub fn sequence(&self) -> (n: u16)
        ensures
            n == self@.sequence,
    {
        self.sequence
    }

    /// Media clock of the next packet.
    pub fn timestamp(&self) -> (n: u32)
        ensures
            n == self@.timestamp,
    {
        self.timestamp
    }

    /// Samples of a full packet: frames times channels.
    pub fn samples_per_packet(&self) -> (n: usize)
        requires
            self@.profile.samples() <= usize::MAX,
        ensures
            n == self@.profile.samples(),
    {
        let frames: u32 = self.profile.frames_per_packet();
        frames as usize * self.profile.channels as usize
    }

    /// How many packets a block makes. Its length has to be a multiple of the
    /// packet size.
    pub fn packets_in(&self, samples: &[i32]) -> (r: Result<usize, RaggedBlock>)
        requires
            self@.profile.samples() <= usize::MAX,
        ensures
            r is Ok <==> self@.whole(samples@.len()),
            r matches Ok(n) ==> n == samples@.len() / self@.profile.samples(),
    {
        let per_pkt: usize = self.samples_per_packet();
        if per_pkt == 0 || samples.len() % per_pkt != 0 {
            return Err(RaggedBlock);
        }
        Ok(samples.len() / per_pkt)
    }

    /// Part number `i` of a block, as long as one packet.
    pub fn chunk<'a>(&self, samples: &'a [i32], i: usize) -> (r: &'a [i32])
        requires
            self@.whole(samples@.len()),
            i < samples@.len() / self@.profile.samples(),
        ensures
            r@ == self@.chunk(samples@, i as int),
    {
        let ghost n = self@.profile.samples() as int;
        let ghost len = samples@.len() as int;
        assert(samples.len() == len);
        assert(n <= len && i * n + n <= len) by (nonlinear_arith)
            requires
                n > 0,
                0 <= i < len / n,
        ;
        assert(0 <= i * n) by (nonlinear_arith)
            requires
                0 <= i,
                n > 0,
        ;
        let per_pkt: usize = self.samples_per_packet();
        slice_subrange(samples, i * per_pkt, i * per_pkt + per_pkt)
    }

    /// The next packet, carrying `chunk`.
    pub fn packet(&self, chunk: &[i32]) -> (p: Vec<u8>)
        requires
            chunk@.len() * 3 <= usize::MAX,
        ensures
            p@ == self@.packet(chunk@),
    {
        let header = RtpHeader {
            marker: false,
            payload_type: self.payload_type,
            sequence: self.sequence,
            timestamp: self.timestamp,
            ssrc: self.ssrc,
        };
        let mut head: [u8; 12] = [0; 12];
        let _ = header.write(&mut head);
        assert(head@ =~= header.wire());
        let width: usize = self.profile.encoding.bytes_per_sample();
        let mut body: Vec<u8> = zero_bytes(chunk.len() * width);
        let _ = rtp::encode_payload(chunk, self.profile.encoding, body.as_mut_slice());
        proof {
            let rest = Seq::new((chunk@.len() * width) as nat, |i: int| 0u8).skip(
                (chunk@.len() * width) as int,
            );
            assert(rest =~= Seq::empty());
            assert(body@ =~= rtp::pcm(chunk@, self.profile.encoding));
        }
        let mut p: Vec<u8> = bytes::copy_bytes(&head);
        bytes::push_bytes(&mut p, body.as_slice());
        p
    }

    /// A packet was sent: the sequence number moves on by one, the media clock
    /// by the frames of a packet.
    pub fn advance(&mut self)
        ensures
            final(self)@ == old(self)@.after(1),
    {
        self.sequence = self.sequence.wrapping_add(1);
        self.timestamp = self.timestamp.wrapping_add(self.profile.frames_per_packet());
    }
}

/// `n` zero bytes.
fn zero_bytes(n: usize) -> (v: Vec<u8>)
    ensures
        v@ == Seq::new(n as nat, |i: int| 0u8),
{
    let mut v: Vec<u8> = Vec::new();
    while v.len() < n
        invariant
            v@.len() <= n,
            forall|i: int| 0 <= i < v@.len() ==> v@[i] == 0,
        decreases n - v@.len(),
    {
        v.push(0);
    }
    assert(v@ =~= Seq::new(n as nat, |i: int| 0u8));
    v
}

/// Sending packets one by one moves sequence number and media clock on as
/// sending them at once does.
pub proof fn packets_add_up(s: SenderModel, m: nat, n: nat)
    ensures
        s.after(m).after(n) == s.after(m + n),
{
    let f = s.profile.frames();
    let a = (s.timestamp + m * f) as int;
    let b = (n * f) as int;
    assert(m * f + n * f == (m + n) * f) by (nonlinear_arith);
    vstd::arithmetic::div_mod::lemma_add_mod_noop_right(b, a, 0x1_0000_0000);
    vstd::arithmetic::div_mod::lemma_add_mod_noop_right(n as int, s.sequence + m, 0x1_0000);
}

/// The packets of a stream follow each other: the next one has the next sequence
/// number, and its media clock is ahead by the frames of one packet. Everything
/// else stays.
pub proof fn next_packet_follows(s: SenderModel)
    ensures
        s.after(1).header().sequence == (s.header().sequence + 1) % 0x1_0000,
        s.after(1).header().timestamp == (s.header().timestamp + s.profile.frames())
            % 0x1_0000_0000,
        s.after(1).header().ssrc == s.header().ssrc,
        s.after(1).header().payload_type == s.header().payload_type,
        s.after(1).profile == s.profile,
        s.header().sequence == s.sequence,
        s.header().timestamp == s.timestamp,
        s.header().ssrc == s.ssrc,
        s.header().payload_type == s.payload_type,
        !s.header().marker,
{
}

/// The parts of a block are all of it: every sample stands in one of them, in its
/// order.
pub proof fn block_is_its_parts(s: SenderModel, block: Seq<i32>, k: int)
    requires
        s.whole(block.len()),
        0 <= k < block.len(),
    ensures
        ({
            let n = s.profile.frames() * s.profile.channels;
            &&& n > 0
            &&& s.chunk(block, k / n).len() == n
            &&& s.chunk(block, k / n)[k % n] == block[k]
            &&& k / n < block.len() as int / n
        }),
{
    let n = s.profile.samples() as int;
    let len = block.len() as int;
    vstd::arithmetic::div_mod::lemma_fundamental_div_mod(k, n);
    vstd::arithmetic::div_mod::lemma_fundamental_div_mod(len, n);
    vstd::arithmetic::div_mod::lemma_mod_bound(k, n);
    let q = k / n;
    let m = len / n;
    assert(0 <= q && q * n + n <= m * n) by (nonlinear_arith)
        requires
            n > 0,
            0 <= k < len,
            k == n * q + k % n,
            0 <= k % n < n,
            len == n * m,
            q == k / n,
    ;
    assert(q < m) by (nonlinear_arith)
        requires
            n > 0,
            q * n + n <= m * n,
    ;
    assert(n * q == q * n) by (nonlinear_arith);
    assert(n * m == m * n) by (nonlinear_arith);
}

/// A block is a whole number of packets just where it is some number of them.
pub proof fn whole_block_is_a_number_of_packets(s: SenderModel, m: nat)
    requires
        s.profile.frames() * s.profile.channels > 0,
    ensures
        s.whole(m * (s.profile.frames() * (s.profile.channels as nat))),
        forall|r: nat|
            0 < r < s.profile.frames() * s.profile.channels ==> !#[trigger] s.whole(
                m * (s.profile.frames() * (s.profile.channels as nat)) + r,
            ),
{
    let n = s.profile.samples() as int;
    vstd::arithmetic::div_mod::lemma_mod_multiples_basic(m as int, n);
    assert forall|r: nat| 0 < r < n implies !#[trigger] s.whole(
        m * (s.profile.frames() * (s.profile.channels as nat)) + r,
    ) by {
        vstd::arithmetic::div_mod::lemma_mod_multiples_vanish(m as int, r as int, n);
        vstd::arithmetic::div_mod::lemma_small_mod(r, n as nat);
        assert(n * (m as int) == (m as int) * n) by (nonlinear_arith);
    }
}

} // verus!
