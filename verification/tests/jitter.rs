//! The jitter buffer.

use taktwerk::jitter::JitterBuffer;

fn pkt(v: i32, n: usize) -> Vec<i32> {
    vec![v; n]
}

#[test]
fn in_order_passes_through() {
    let mut jb = JitterBuffer::new(4, 4);
    let mut out = Vec::new();
    for seq in 0..5u16 {
        jb.push(seq, pkt(seq as i32 + 1, 4), &mut out);
    }
    assert_eq!(out.len(), 5);
    assert_eq!(out[0][0], 1);
    assert_eq!(out[4][0], 5);
    assert_eq!(jb.stats().emitted, 5);
    assert_eq!(jb.stats().concealed, 0);
}

#[test]
fn reorders_within_depth() {
    let mut jb = JitterBuffer::new(4, 4);
    let mut out = Vec::new();
    // 0, then 2, then 1: they come out as 0, 1, 2
    jb.push(0, pkt(10, 4), &mut out);
    jb.push(2, pkt(12, 4), &mut out); // waits for 1
    assert_eq!(out.len(), 1, "only packet 0 is out, 2 waits");
    jb.push(1, pkt(11, 4), &mut out); // fills the gap: 1 and 2 come out
    assert_eq!(out.len(), 3);
    assert_eq!(out[1][0], 11);
    assert_eq!(out[2][0], 12);
    assert_eq!(jb.stats().concealed, 0);
    assert_eq!(jb.stats().out_of_order, 1);
}

#[test]
fn conceals_lost_packet_beyond_depth() {
    let mut jb = JitterBuffer::new(2, 2); // depth 2
    let mut out = Vec::new();
    jb.push(0, pkt(1, 2), &mut out);
    // 1 stays away; once more than the depth wait, silence takes its place.
    jb.push(2, pkt(3, 2), &mut out);
    jb.push(3, pkt(4, 2), &mut out);
    jb.push(4, pkt(5, 2), &mut out); // 2, 3, 4 wait: silence for 1, then all three
    let vals: Vec<i32> = out.iter().map(|b| b[0]).collect();
    assert_eq!(vals, vec![1, 0, 3, 4, 5]); // 0 is the silence for packet 1
    assert_eq!(jb.stats().concealed, 1);
    assert_eq!(jb.stats().emitted, 4);
}

#[test]
fn drops_duplicates_and_late() {
    let mut jb = JitterBuffer::new(2, 4);
    let mut out = Vec::new();
    jb.push(5, pkt(1, 2), &mut out); // the first packet: starts at 5
    jb.push(5, pkt(9, 2), &mut out); // a duplicate of what is out: late
    jb.push(6, pkt(2, 2), &mut out);
    jb.push(4, pkt(9, 2), &mut out); // older than what comes next: late
    assert_eq!(jb.stats().emitted, 2);
    assert_eq!(jb.stats().late + jb.stats().duplicate, 2);
    let vals: Vec<i32> = out.iter().map(|b| b[0]).collect();
    assert_eq!(vals, vec![1, 2]);
}

#[test]
fn huge_gap_resyncs_instead_of_flooding_silence() {
    let mut jb = JitterBuffer::new(2, 4);
    let mut out = Vec::new();
    jb.push(0, pkt(1, 2), &mut out);
    // The sender starts anew: no 30000 blocks of silence, but a fresh start.
    jb.push(30000, pkt(2, 2), &mut out);
    jb.push(30001, pkt(3, 2), &mut out);
    let vals: Vec<i32> = out.iter().map(|b| b[0]).collect();
    assert_eq!(vals, vec![1, 2, 3], "no flood of silence");
    assert_eq!(jb.stats().resyncs, 1);
    assert_eq!(jb.stats().concealed, 0);
    assert_eq!(jb.stats().out_of_order, 0, "a fresh start is no reordering");
}

#[test]
fn sequence_wraparound_is_handled() {
    let mut jb = JitterBuffer::new(1, 4);
    let mut out = Vec::new();
    jb.push(65534, pkt(1, 1), &mut out);
    jb.push(65535, pkt(2, 1), &mut out);
    jb.push(0, pkt(3, 1), &mut out); // wraps around
    jb.push(1, pkt(4, 1), &mut out);
    let vals: Vec<i32> = out.iter().map(|b| b[0]).collect();
    assert_eq!(vals, vec![1, 2, 3, 4]);
    assert_eq!(jb.stats().concealed, 0);
}

#[test]
fn flush_hands_out_what_waits() {
    let mut jb = JitterBuffer::new(2, 8);
    let mut out = Vec::new();
    jb.push(7, pkt(1, 2), &mut out);
    jb.push(9, pkt(3, 2), &mut out);
    jb.push(11, pkt(5, 2), &mut out);
    assert_eq!(out.len(), 1);
    jb.flush(&mut out);
    let vals: Vec<i32> = out.iter().map(|b| b[0]).collect();
    assert_eq!(vals, vec![1, 0, 3, 0, 5]);
    assert_eq!((jb.stats().emitted, jb.stats().concealed), (3, 2));
    jb.flush(&mut out);
    assert_eq!(out.len(), 5);
}

#[test]
fn flush_of_an_empty_buffer_gives_nothing() {
    let mut jb = JitterBuffer::new(2, 8);
    let mut out = Vec::new();
    jb.flush(&mut out);
    assert!(out.is_empty());
}

#[test]
fn waiting_duplicate_is_counted_as_such() {
    let mut jb = JitterBuffer::new(2, 8);
    let mut out = Vec::new();
    jb.push(0, pkt(1, 2), &mut out);
    jb.push(2, pkt(3, 2), &mut out);
    jb.push(2, pkt(9, 2), &mut out);
    assert_eq!(jb.stats().duplicate, 1);
    jb.push(1, pkt(2, 2), &mut out);
    let vals: Vec<i32> = out.iter().map(|b| b[0]).collect();
    assert_eq!(vals, vec![1, 2, 3]);
}

#[test]
fn every_block_out_is_counted() {
    let mut jb = JitterBuffer::new(1, 3);
    let mut out = Vec::new();
    for seq in [0u16, 3, 1, 9, 10, 11, 12, 4, 13, 20, 21, 22, 23] {
        jb.push(seq, pkt(1, 1), &mut out);
        assert_eq!(out.len() as u64, jb.stats().emitted + jb.stats().concealed);
    }
}

#[test]
fn gap_at_the_limit_is_filled_and_beyond_it_not() {
    let mut jb = JitterBuffer::new(1, 1);
    let mut out = Vec::new();
    jb.push(0, pkt(1, 1), &mut out);
    jb.push(65, pkt(2, 1), &mut out); // 64 ahead of what comes next
    assert_eq!(jb.stats().resyncs, 0);
    let mut jb = JitterBuffer::new(1, 1);
    jb.push(0, pkt(1, 1), &mut out);
    jb.push(66, pkt(2, 1), &mut out);
    assert_eq!(jb.stats().resyncs, 1);
}

#[test]
fn second_flush_changes_nothing() {
    let mut jb = JitterBuffer::new(2, 8);
    let mut out = Vec::new();
    jb.push(7, pkt(1, 2), &mut out);
    jb.push(9, pkt(3, 2), &mut out);
    jb.flush(&mut out);
    let (stats, blocks) = (jb.stats(), out.clone());
    assert_eq!(blocks, vec![pkt(1, 2), pkt(0, 2), pkt(3, 2)]);
    jb.flush(&mut out);
    assert_eq!(jb.stats(), stats);
    assert_eq!(out, blocks);
}

#[test]
fn packets_come_out_at_their_places() {
    let mut jb = JitterBuffer::new(1, 2);
    let mut out = Vec::new();
    let f = 65_530u16;
    // Over the wrap, swapped, doubled and with one missing at place 5.
    let places = [0u16, 2, 1, 1, 4, 3, 4, 6, 8, 7, 2, 9];
    let mut pushed = 0u64;
    for p in places {
        jb.push(f.wrapping_add(p), pkt(p as i32 + 1, 1), &mut out);
        pushed += 1;
        let s = jb.stats();
        assert_eq!(out.len() as u64, s.emitted + s.concealed);
        assert!(pushed - s.emitted - s.late - s.duplicate <= 2);
    }
    jb.flush(&mut out);
    let s = jb.stats();
    assert_eq!(s.resyncs, 0);
    assert_eq!(pushed, s.emitted + s.late + s.duplicate);
    let vals: Vec<i32> = out.iter().map(|b| b[0]).collect();
    assert_eq!(vals, vec![1, 2, 3, 4, 5, 0, 7, 8, 9, 10]);
}
