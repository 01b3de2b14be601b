//! Sender and receiver of RTP packets, and the streams on top of them.

use std::sync::{Arc, Mutex};
use taktwerk::audio::{AudioBackend, AudioBlock, AudioError, NullBackend};
use taktwerk::clock::{FixedTimeSource, TimeSource};
use taktwerk::endpoint::{run_step, RunEvent, RunStep, RxError, RxStream, TxStream};
use taktwerk::net::{MulticastConfig, RtpReceiver, RtpSender};
use taktwerk::rtp::RtpError;
use taktwerk::StreamProfile;

/// The datagrams of a block, in order; the sender moves on by them.
fn send_block(tx: &mut RtpSender, block: &[i32]) -> Option<Vec<Vec<u8>>> {
    let n = tx.packets_in(block).ok()?;
    let mut out = Vec::new();
    for i in 0..n {
        out.push(tx.packet(tx.chunk(block, i)));
        tx.advance();
    }
    Some(out)
}

#[test]
fn config_builder_and_dest() {
    let cfg = MulticastConfig::new([239, 69, 83, 67], 5004)
        .with_ttl(8)
        .with_interface([127, 0, 0, 1]);
    assert_eq!(cfg.ttl, 8);
    assert_eq!(cfg.interface, [127, 0, 0, 1]);
    assert_eq!(cfg.dest(), ([239, 69, 83, 67], 5004));
}

#[test]
fn sender_is_tied_to_a_concrete_interface_only() {
    let cfg = MulticastConfig::new([239, 69, 83, 67], 5004);
    assert_eq!(cfg.egress(), None);
    assert_eq!(cfg.with_interface([10, 0, 0, 1]).egress(), Some([10, 0, 0, 1]));
}

#[test]
fn loopback_roundtrip_l24() {
    let profile = StreamProfile::level_a(2);
    let rx = RtpReceiver::new(profile);
    let mut tx = RtpSender::new(profile, 97, 0x1234_5678, 1000);

    let per_pkt = profile.frames_per_packet() as usize * profile.channels as usize;
    let block: Vec<i32> = (0..per_pkt as i32).map(|i| (i << 8) & !0xff).collect();

    let sent = send_block(&mut tx, &block).unwrap();
    assert_eq!(sent.len(), 1);
    assert!(sent[0].len() <= rx.buffer_len());

    let pkt = rx.decode(&sent[0]).unwrap();
    assert_eq!(pkt.header.payload_type, 97);
    assert_eq!(pkt.header.sequence, 0);
    assert_eq!(pkt.header.timestamp, 1000);
    assert_eq!(pkt.header.ssrc, 0x1234_5678);
    assert_eq!(
        pkt.frames(profile.channels),
        profile.frames_per_packet() as usize
    );
    assert_eq!(pkt.samples, block);

    assert_eq!(tx.sequence(), 1);
    assert_eq!(tx.timestamp(), 1000 + profile.frames_per_packet());
}

#[test]
fn multi_packet_sequence_advances() {
    let profile = StreamProfile::level_a(2);
    let rx = RtpReceiver::new(profile);
    let mut tx = RtpSender::new(profile, 96, 1, 0);

    let per_pkt = profile.frames_per_packet() as usize * profile.channels as usize;
    let block = vec![0i32; per_pkt * 3];
    let sent = send_block(&mut tx, &block).unwrap();
    assert_eq!(sent.len(), 3);

    let seqs: Vec<u16> = sent.iter().map(|d| rx.decode(d).unwrap().header.sequence).collect();
    assert_eq!(seqs, vec![0, 1, 2]);
}

#[test]
fn ragged_block_is_rejected() {
    let profile = StreamProfile::level_a(2);
    let tx = RtpSender::new(profile, 96, 1, 0);
    let err = tx.packets_in(&[0, 0, 0, 0, 0]).unwrap_err();
    assert_eq!(err.message(), "Blocklaenge ist kein Vielfaches der Paketgroesse");
}

#[test]
fn counters_of_a_sender_wrap() {
    let profile = StreamProfile::level_a(2);
    let mut tx = RtpSender::new(profile, 96, 1, u32::MAX - 47);
    for _ in 0..0x1_0000 {
        tx.advance();
    }
    assert_eq!(tx.sequence(), 0);
    let mut tx = RtpSender::new(profile, 96, 1, u32::MAX - 47);
    tx.advance();
    assert_eq!(tx.timestamp(), 0);
}

#[test]
fn rx_writes_received_frames_to_backend() {
    let profile = StreamProfile::level_a(2);
    let mut rx = RxStream::new(RtpReceiver::new(profile), Box::new(NullBackend::new(profile)));
    let mut tx = RtpSender::new(profile, 97, 7, 0);
    let per_pkt = profile.frames_per_packet() as usize * profile.channels as usize;
    for d in send_block(&mut tx, &vec![0i32; per_pkt]).unwrap() {
        rx.take(&d).unwrap();
    }
    assert_eq!(rx.packets_recv(), 1);
}

#[test]
fn undecodable_datagram_is_not_counted() {
    let profile = StreamProfile::level_a(2);
    let mut rx = RxStream::new(RtpReceiver::new(profile), Box::new(NullBackend::new(profile)));
    assert!(matches!(rx.take(&[0x80]), Err(RxError::Rtp(RtpError::TooShort))));
    assert_eq!(rx.packets_recv(), 0);
}

#[test]
fn tx_pumps_packets_to_receiver() {
    let profile = StreamProfile::level_a(2);
    let rx = RtpReceiver::new(profile);
    let clock = FixedTimeSource(1_000_000_000); // one second: 48000 ticks
    let mut tx = TxStream::new(Box::new(NullBackend::new(profile)), profile, 97, 0xAA55, &clock);
    assert_eq!(tx.ptime_us(), 1000);

    let mut sent = Vec::new();
    for _ in 0..3 {
        let block = tx.capture().unwrap();
        let n = tx.packets_in(&block).unwrap();
        for i in 0..n {
            sent.push(tx.packet(&block, i));
            tx.packet_sent();
        }
    }
    assert_eq!(tx.packets_sent(), 3);

    let pkt = rx.decode(&sent[0]).unwrap();
    assert_eq!(pkt.header.timestamp, 48_000);
    assert_eq!(
        pkt.frames(profile.channels),
        profile.frames_per_packet() as usize
    );
    assert_eq!(rx.decode(&sent[2]).unwrap().header.timestamp, 48_096);
}

#[test]
fn packets_are_counted_and_not_blocks() {
    let profile = StreamProfile::level_a(2);
    let clock = FixedTimeSource(0);
    let mut tx = TxStream::new(Box::new(NullBackend::new(profile)), profile, 97, 1, &clock);
    let samples = profile.frames_per_packet() as usize * profile.channels as usize;
    // A block without samples makes no packet, and two blocks' worth makes two.
    for (len, sent) in [(0, 0u64), (2 * samples, 2), (0, 2), (samples, 3)] {
        let block = vec![0i32; len];
        for i in 0..tx.packets_in(&block).unwrap() {
            let _ = tx.packet(&block, i);
            tx.packet_sent();
        }
        assert_eq!(tx.packets_sent(), sent);
    }
}

#[test]
fn loop_runs_until_told_or_failed() {
    assert_eq!(run_step(RunEvent::Ready), RunStep::Pump);
    assert_eq!(run_step(RunEvent::Signal(false)), RunStep::Wait);
    assert_eq!(run_step(RunEvent::Signal(true)), RunStep::Stop);
    assert_eq!(run_step(RunEvent::SignalLost), RunStep::Stop);
    assert_eq!(run_step(RunEvent::Failed), RunStep::Fail);
}

/// A device that captures a ramp, and whose playback fails.
struct Broken;

impl AudioBackend for Broken {
    fn name(&self) -> &str {
        "broken"
    }

    fn profile(&self) -> StreamProfile {
        StreamProfile::level_a(2)
    }

    fn read_capture(&mut self, max_frames: usize) -> Result<AudioBlock, AudioError> {
        Ok((0..max_frames as i32 * 2).map(|i| i << 8).collect())
    }

    fn write_playback(&mut self, _samples: &[i32]) -> Result<(), AudioError> {
        Err(AudioError::Unavailable("weg"))
    }
}

/// A clock that shows one value.
struct Stopped;

impl TimeSource for Stopped {
    fn now_nanos(&self) -> u64 {
        2_000_000_000
    }
}

#[test]
fn captured_frames_are_those_of_a_packet() {
    let profile = StreamProfile::level_a(2);
    let device: Box<dyn AudioBackend> = Box::new(Broken);
    let mut tx = TxStream::new(device, profile, 97, 1, &Stopped);
    let block = tx.capture().unwrap();
    assert_eq!(block.len(), 96);
    let p = RtpReceiver::new(profile).decode(&tx.packet(&block, 0)).unwrap();
    assert_eq!(p.header.timestamp, 96_000);
    assert_eq!(p.samples, block);
}

#[test]
fn packet_that_cannot_be_played_is_not_counted() {
    let profile = StreamProfile::level_a(2);
    let tx = RtpSender::new(profile, 97, 7, 0);
    let packet = tx.packet(&[0i32; 96]);
    let mut rx = RxStream::new(RtpReceiver::new(profile), Box::new(Broken));
    match rx.take(&packet) {
        Err(RxError::Audio(e)) => {
            assert_eq!(e.message(), "Audio-Backend nicht verfuegbar: weg")
        }
        other => panic!("must not play: {other:?}"),
    }
    assert_eq!(rx.packets_recv(), 0);
}

/// A device that counts how often it is asked.
#[derive(Clone, Default)]
struct Counting {
    calls: Arc<Mutex<(Vec<usize>, Vec<Vec<i32>>)>>,
}

impl AudioBackend for Counting {
    fn name(&self) -> &str {
        "counting"
    }

    fn profile(&self) -> StreamProfile {
        StreamProfile::level_a(2)
    }

    fn read_capture(&mut self, max_frames: usize) -> Result<AudioBlock, AudioError> {
        self.calls.lock().unwrap().0.push(max_frames);
        Ok(Vec::new())
    }

    fn write_playback(&mut self, samples: &[i32]) -> Result<(), AudioError> {
        self.calls.lock().unwrap().1.push(samples.to_vec());
        Ok(())
    }
}

#[test]
fn backend_is_read_once_for_a_block() {
    let profile = StreamProfile::level_a(2);
    let device = Counting::default();
    let clock = FixedTimeSource(0);
    let mut tx = TxStream::new(Box::new(device.clone()), profile, 97, 1, &clock);
    let block = tx.capture().unwrap();
    assert_eq!(device.calls.lock().unwrap().0, vec![48]);
    assert_eq!(tx.packets_in(&block).unwrap(), 0);
    assert_eq!(tx.packets_sent(), 0);
}

#[test]
fn every_packet_is_played_once() {
    let profile = StreamProfile::level_a(2);
    let device = Counting::default();
    let mut rx = RxStream::new(RtpReceiver::new(profile), Box::new(device.clone()));
    let mut tx = RtpSender::new(profile, 97, 7, 0);
    let ramp: Vec<i32> = (0..2 * 96).map(|i| i << 8).collect();
    for d in send_block(&mut tx, &ramp).unwrap() {
        rx.take(&d).unwrap();
    }
    assert!(rx.take(&[0x80]).is_err());
    let played = device.calls.lock().unwrap().1.clone();
    assert_eq!(played, vec![ramp[..96].to_vec(), ramp[96..].to_vec()]);
}
