//! The media loop of an endpoint: from the capture side of a backend to RTP
//! packets, and from RTP packets to the playback side. The caller keeps the
//! packet clock and does the sending and receiving.

use crate::audio::{AudioBackend, AudioBlock, AudioError};
use crate::clock::TimeSource;
use crate::net::receiver::{decoded, RtpReceiver};
use crate::net::sender::{RaggedBlock, RtpSender, SenderModel};
use crate::profile::StreamProfile;
use crate::rtp::{RtpError, RtpHeader};
use vstd::prelude::*;

verus! {

/// The sending stream: one packet from the backend in every packet interval.
pub struct TxStream<B: AudioBackend + ?Sized> {
    backend: Box<B>,
    sender: RtpSender,
    frames_per_packet: usize,
    ptime_us: u32,
    packets_sent: u64,
}

impl<B: AudioBackend + ?Sized> TxStream<B> {
    /// The state of the packets.
    pub closed spec fn rtp(&self) -> SenderModel {
        self.sender@
    }

    /// Packets sent so far, counted with 64 bits.
    pub closed spec fn sent(&self) -> u64 {
        self.packets_sent
    }

    /// The backend.
    pub closed spec fn device(&self) -> Box<B> {
        self.backend
    }

    /// The frames asked for are those of a packet, and a block of them fits in
    /// memory.
    pub closed spec fn wf(&self) -> bool {
        &&& self.frames_per_packet == self.rtp().profile.frames()
        &&& self.ptime_us == self.rtp().profile.ptime_us
        &&& self.rtp().profile.frames() * 255 <= usize::MAX
    }

    /// A stream whose media clock starts at the current time of `clock`.
    pub fn new<C: TimeSource + ?Sized>(
        backend: Box<B>,
        profile: StreamProfile,
        payload_type: u8,
        ssrc: u32,
        clock: &C,
    ) -> (t: Self)
        requires
            profile.frames() * 255 <= usize::MAX,
        ensures
            t.wf(),
            t.sent() == 0,
            t.device() == backend,
            exists|nanos: u64| #[trigger]
                clock.shows(nanos) && t.rtp() == (SenderModel {
                    profile,
                    payload_type,
                    ssrc,
                    sequence: 0,
                    timestamp: crate::clock::media_ticks(nanos, profile.sample_rate),
                }),
    {
        let start: u32 = clock.rtp_timestamp(profile.sample_rate);
        let sender: RtpSender = RtpSender::new(profile, payload_type, ssrc, start);
        TxStream {
            backend,
            sender,
            frames_per_packet: profile.frames_per_packet() as usize,
            ptime_us: profile.ptime_us,
            packets_sent: 0,
        }
    }

    /// Packet interval in microseconds.
    pub fn ptime_us(&self) -> (us: u32)
        requires
            self.wf(),
        ensures
            us == self.rtp().profile.ptime_us,
    {
        self.ptime_us
    }

    /// Number of packets sent so far.
    pub fn packets_sent(&self) -> (n: u64)
        ensures
            n == self.sent(),
    {
        self.packets_sent
    }

    /// Reads the frames of one packet from the backend, once.
    pub fn capture(&mut self) -> (r: Result<AudioBlock, AudioError>)
        requires
            old(self).wf(),
        ensures
            old(self).device().captures(
                old(self).rtp().profile.frames() as usize,
                r,
                final(self).device().state(),
            ),
            final(self).wf(),
            final(self).rtp() == old(self).rtp(),
            final(self).sent() == old(self).sent(),
    {
        self.backend.read_capture(self.frames_per_packet)
    }

    /// How many packets a captured block makes; it has to be a whole number.
    pub fn packets_in(&self, block: &[i32]) -> (r: Result<usize, RaggedBlock>)
        requires
            self.wf(),
        ensures
            r is Ok <==> self.rtp().whole(block@.len()),
            r matches Ok(n) ==> n == block@.len() / self.rtp().profile.samples(),
    {
        proof {
            let f = self.rtp().profile.frames();
            let c = self.rtp().profile.channels as nat;
            assert(f * c <= f * 255) by (nonlinear_arith)
                requires
                    c <= 255,
            ;
        }
        self.sender.packets_in(block)
    }

    /// Packet number `i` of a block. The packets are sent in order, and each is
    /// noted by [`TxStream::packet_sent`] before the next is built.
    pub fn packet(&self, block: &[i32], i: usize) -> (p: Vec<u8>)
        requires
            self.wf(),
            self.rtp().whole(block@.len()),
            i < block@.len() / self.rtp().profile.samples(),
            block@.len() * 3 <= usize::MAX,
        ensures
            p@ == self.rtp().packet(self.rtp().chunk(block@, i as int)),
    {
        let chunk: &[i32] = self.sender.chunk(block, i);
        proof {
            let n = self.rtp().profile.samples() as int;
            let len = block@.len() as int;
            assert(n <= len) by (nonlinear_arith)
                requires
                    n > 0,
                    0 <= i < len / n,
            ;
            assert(i * n + n <= len && 0 <= i * n) by (nonlinear_arith)
                requires
                    n > 0,
                    0 <= i < len / n,
            ;
            assert(chunk@.len() == n);
        }
        self.sender.packet(chunk)
    }

    /// A packet was sent: sequence number, media clock and count move on.
    pub fn packet_sent(&mut self)
        requires
            old(self).wf(),
        ensures
            final(self).wf(),
            final(self).rtp() == old(self).rtp().after(1),
            final(self).sent() == (old(self).sent() + 1) % 0x1_0000_0000_0000_0000,
            final(self).device() == old(self).device(),
    {
        self.sender.advance();
        self.packets_sent = self.packets_sent.wrapping_add(1);
    }
}

/// What the loop of a stream has come upon.
#[derive(Debug, Clone, Copy, PartialEq, Eq, Structural)]
pub enum RunEvent {
    /// There is work: the packet interval has passed, or a datagram has come.
    Ready,
    /// The work failed.
    Failed,
    /// The shutdown signal has changed; whether it now says to stop.
    Signal(bool),
    /// Nobody is left to give the signal.
    SignalLost,
}

/// What the loop of a stream does next.
#[derive(Debug, Clone, Copy, PartialEq, Eq, Structural)]
pub enum RunStep {
    /// Waits for the next event.
    Wait,
    /// Moves one block, or one packet.
    Pump,
    /// Ends as told.
    Stop,
    /// Ends with the error.
    Fail,
}

/// The next step of the loop of a stream.
pub open spec fn next_run_step(event: RunEvent) -> RunStep {
    match event {
        RunEvent::Ready => RunStep::Pump,
        RunEvent::Failed => RunStep::Fail,
        RunEvent::Signal(stop) => if stop {
            RunStep::Stop
        } else {
            RunStep::Wait
        },
        RunEvent::SignalLost => RunStep::Stop,
    }
}

/// The next step of the loop of a stream: it pumps when there is work, ends at
/// the first error, and ends when it is told to or when nobody can tell it any
/// more.
pub fn run_step(event: RunEvent) -> (step: RunStep)
    ensures
        step == match event {
            RunEvent::Ready => RunStep::Pump,
            RunEvent::Failed => RunStep::Fail,
            RunEvent::Signal(stop) => if stop {
                RunStep::Stop
            } else {
                RunStep::Wait
            },
            RunEvent::SignalLost => RunStep::Stop,
        },
        step == next_run_step(event),
{
    match event {
        RunEvent::Ready => RunStep::Pump,
        RunEvent::Failed => RunStep::Fail,
        RunEvent::Signal(stop) => if stop {
            RunStep::Stop
        } else {
            RunStep::Wait
        },
        RunEvent::SignalLost => RunStep::Stop,
    }
}

/// What can go wrong with a received packet.
#[derive(Debug)]
pub enum RxError {
    /// The packet could not be decoded.
    Rtp(RtpError),
    /// The backend did not take the samples.
    Audio(AudioError),
}

/// The receiving stream: hands the samples of received packets to the backend.
pub struct RxStream<B: AudioBackend + ?Sized> {
    receiver: RtpReceiver,
    backend: Box<B>,
    packets_recv: u64,
}

impl<B: AudioBackend + ?Sized> RxStream<B> {
    /// Profile of the received packets.
    pub closed spec fn profile(&self) -> StreamProfile {
        self.receiver.profile
    }

    /// The backend.
    pub closed spec fn device(&self) -> Box<B> {
        self.backend
    }

    /// Packets handed over so far, counted with 64 bits.
    pub closed spec fn received(&self) -> u64 {
        self.packets_recv
    }

    pub fn new(receiver: RtpReceiver, backend: Box<B>) -> (r: Self)
        ensures
            r.profile() == receiver.profile,
            r.device() == backend,
            r.received() == 0,
    {
        RxStream { receiver, backend, packets_recv: 0 }
    }

    /// Number of packets received and played so far.
    pub fn packets_recv(&self) -> (n: u64)
        ensures
            n == self.received(),
    {
        self.packets_recv
    }

    /// Takes in a datagram: decodes it, plays it once and counts it. A datagram that
    /// cannot be decoded reaches neither the backend nor the counter.
    pub fn take(&mut self, datagram: &[u8]) -> (r: Result<RtpHeader, RxError>)
        ensures
            final(self).profile() == old(self).profile(),
            match decoded(datagram@, old(self).profile()) {
                Ok((header, samples)) => match r {
                    Ok(h) => {
                        &&& h == header
                        &&& old(self).device().plays(samples, Ok(()), final(self).device().state())
                        &&& final(self).received() == (old(self).received() + 1)
                            % 0x1_0000_0000_0000_0000
                    },
                    Err(e) => {
                        &&& e matches RxError::Audio(why)
                        &&& old(self).device().plays(samples, Err(why), final(self).device().state())
                        &&& final(self).received() == old(self).received()
                    },
                },
                Err(e) => r == Err::<RtpHeader, _>(RxError::Rtp(e)) && *final(self) == *old(self),
            },
    {
        match self.receiver.decode(datagram) {
            Ok(packet) => {
                let outcome: Result<(), AudioError> = self.backend.write_playback(
                    packet.samples.as_slice(),
                );
                match outcome {
                    Ok(done) => {
                        assert(done == ());
                    },
                    Err(e) => {
                        return Err(RxError::Audio(e));
                    },
                }
                self.packets_recv = self.packets_recv.wrapping_add(1);
                Ok(packet.header)
            },
            Err(e) => Err(RxError::Rtp(e)),
        }
    }
}

/// A stream ends with an error just where its work failed, and without one just
/// where it is told to end or nobody can tell it any more. It works where there is
/// work, and waits otherwise.
pub proof fn stream_runs_until_it_is_told_to_end(event: RunEvent)
    ensures
        next_run_step(event) == RunStep::Fail <==> event == RunEvent::Failed,
        next_run_step(event) == RunStep::Stop <==> event == RunEvent::SignalLost || event
            == RunEvent::Signal(true),
        next_run_step(event) == RunStep::Pump <==> event == RunEvent::Ready,
        next_run_step(event) == RunStep::Wait <==> event == RunEvent::Signal(false),
{
}

} // verus!
