//! What a jitter buffer gives up, and what it never gives up.

use super::{silent, with_packet};
use crate::jitter::{seq_after, steps, JitterModel};
use vstd::prelude::*;

verus! {

/// A new buffer lets as many packets wait as it was asked for, at least one, and
/// fills gaps with as many samples of silence as it was told. It holds nothing
/// and has counted nothing.
pub proof fn new_buffer_is_as_deep_as_asked(silence_len: nat, depth: nat)
    ensures
        ({
            let m = JitterModel::fresh(silence_len, depth);
            &&& m.depth == vstd::math::max(depth as int, 1)
            &&& m.silence_len == silence_len
            &&& m.next is None
            &&& m.held == Map::<u16, Seq<i32>>::empty()
            &&& m.stats.emitted == 0 && m.stats.concealed == 0 && m.stats.duplicate == 0
            &&& m.stats.late == 0 && m.stats.out_of_order == 0 && m.stats.resyncs == 0
        }),
{
}

/// Sequence numbers have 16 bits and wrap: the place of a packet counted from
/// another one, and the packet at that place, belong together.
pub proof fn places_and_packets_belong_together(a: u16, b: u16, i: int)
    requires
        0 <= i < 0x1_0000,
    ensures
        seq_after(a, i) == (a + i) % 0x1_0000,
        steps(a, seq_after(a, i)) == i,
        seq_after(a, steps(a, b)) == b,
        0 <= steps(a, b) < 0x1_0000,
{
}

/// While nothing is there nothing is taken out.
proof fn lemma_nothing_there(w: JitterModel, n: int)
    requires
        w.next is Some,
        w.in_window(),
        w.held.dom().finite(),
        0 <= n <= 65,
        forall|i: int| 0 <= i < n ==> !w.held.contains_key(#[trigger] seq_after(w.head(), i)),
    ensures
        w.held_after(n) == w.held,
    decreases n,
{
    if n == 0 {
        crate::jitter::lemma_held_after_zero(w);
    } else {
        lemma_nothing_there(w, n - 1);
        crate::jitter::lemma_advance_one(w, n - 1);
        assert(!w.held.contains_key(seq_after(w.head(), n - 1)));
    }
}

/// The first place at which a packet is there.
proof fn lemma_first_there(w: JitterModel, n: int) -> (p: int)
    requires
        0 <= n,
        exists|i: int| 0 <= i < n && w.held.contains_key(#[trigger] seq_after(w.head(), i)),
    ensures
        0 <= p < n,
        w.held.contains_key(seq_after(w.head(), p)),
        forall|i: int| 0 <= i < p ==> !w.held.contains_key(#[trigger] seq_after(w.head(), i)),
    decreases n,
{
    if exists|i: int| 0 <= i < n - 1 && w.held.contains_key(#[trigger] seq_after(w.head(), i)) {
        lemma_first_there(w, n - 1)
    } else {
        let k = choose|i: int|
            0 <= i < n && w.held.contains_key(#[trigger] seq_after(w.head(), i));
        assert(k == n - 1);
        n - 1
    }
}

/// Fewer and fewer packets wait.
proof fn lemma_fewer_wait(w: JitterModel, i: int, j: int)
    requires
        w.held.dom().finite(),
        i <= j,
    ensures
        w.held_after(j).dom().len() <= w.held_after(i).dom().len(),
{
    let a = w.held_after(i).dom();
    let b = w.held_after(j).dom();
    assert(a.subset_of(w.held.dom()));
    vstd::set_lib::lemma_set_subset_finite(w.held.dom(), a);
    assert(b.subset_of(a));
    vstd::set_lib::lemma_len_subset(b, a);
}

/// Whether the blocks are silence for the first `p` places, where nothing is, and
/// then packets: those that wait, or the one that was pushed.
pub open spec fn silence_up_to(
    m: JitterModel,
    seq: u16,
    samples: Seq<i32>,
    out: Seq<Seq<i32>>,
    p: int,
) -> bool {
    let n = m.next->0;
    &&& 1 <= p < out.len()
    &&& forall|i: int|
        0 <= i < p ==> #[trigger] out[i] == silent(m.silence_len) && !m.held.contains_key(
            seq_after(n, i),
        ) && seq_after(n, i) != seq
    &&& forall|i: int|
        p <= i < out.len() ==> packet_there(m, seq, samples, seq_after(n, i), #[trigger] out[i])
}

/// Whether a block is the packet `at`: one that waits, or the one that was pushed.
pub open spec fn packet_there(
    m: JitterModel,
    seq: u16,
    samples: Seq<i32>,
    at: u16,
    block: Seq<i32>,
) -> bool {
    (m.held.contains_key(at) && block == m.held[at]) || (at == seq && block == samples)
}

/// A buffer that is full gives up just what is missing before the first packet
/// that waits, and no more: silence comes out for those places, then that packet
/// and all that wait right behind it; no silence stands behind a packet.
pub proof fn only_what_is_missing_first_is_given_up(
    m: JitterModel,
    seq: u16,
    samples: Seq<i32>,
)
    requires
        m.wf(),
        m.next is Some,
        m.stats.room(),
        0 < steps(m.next->0, seq) <= 64,
        !m.held.contains_key(seq),
        m.held.dom().len() == m.depth,
    ensures
        ({
            let n = m.next->0;
            let (a, out) = m.pushed(seq, samples);
            &&& exists|p: int| #[trigger] silence_up_to(m, seq, samples, out, p)
            &&& !m.held.contains_key(seq_after(n, out.len() as int))
            &&& seq_after(n, out.len() as int) != seq
            &&& a.next == Some(seq_after(n, out.len() as int))
        }),
{
    let w = with_packet(m, seq, samples);
    let head = m.next->0;
    assert(w.head() == head);
    let n = super::lemma_accepted(m, seq, samples);
    assert(m.pushed(seq, samples) == m.accepted(seq, samples));
    let (a, out) = m.pushed(seq, samples);
    crate::jitter::lemma_due_len_exists(w, 0);
    crate::jitter::lemma_due_len(w, w.due_len());
    assert(out.len() == w.due_len());
    assert(out.len() == n);
    assert(w.due_blocks(n));
    assert(w.held.dom() =~= m.held.dom().insert(seq));
    assert(w.held.dom().len() == m.depth + 1);
    crate::jitter::lemma_held_after_zero(w);
    if forall|i: int| 0 <= i < n ==> !w.held.contains_key(#[trigger] seq_after(head, i)) {
        lemma_nothing_there(w, n);
        assert(w.due(n));
    }
    let p = lemma_first_there(w, n);
    assert(seq_after(head, 0) == head);
    assert(!w.held.contains_key(head));
    assert(p >= 1);
    lemma_nothing_there(w, p);
    crate::jitter::lemma_advance_one(w, p);
    assert(w.held_after(p + 1).dom().len() == m.depth);
    assert forall|i: int| p <= i < out.len() implies #[trigger] w.held.contains_key(
        seq_after(head, i),
    ) by {
        if i > p {
            lemma_fewer_wait(w, p + 1, i);
            assert(w.due(i));
        }
    }
    assert forall|i: int| p <= i < out.len() implies packet_there(
        m,
        seq,
        samples,
        seq_after(head, i),
        #[trigger] out[i],
    ) by {
        assert(w.held.contains_key(seq_after(head, i)));
        assert(out[i] == w.held[seq_after(head, i)]);
    }
    assert forall|i: int| 0 <= i < p implies #[trigger] out[i] == silent(m.silence_len)
        && !m.held.contains_key(seq_after(head, i)) && seq_after(head, i) != seq by {
        assert(!w.held.contains_key(seq_after(head, i)));
        assert(out[i] =~= silent(m.silence_len));
    }
    assert(!w.due(n));
    assert(silence_up_to(m, seq, samples, out, p));
}

/// A jump loses nothing that waits: all packets that wait come out first, each at
/// its place, and the packet that jumped comes last; silence stands only where a
/// packet is missing before one that waits.
pub proof fn jump_loses_nothing_that_waits(
    m: JitterModel,
    seq: u16,
    samples: Seq<i32>,
)
    requires
        m.wf(),
        m.next is Some,
        m.stats.room(),
        64 < steps(m.next->0, seq) < 0x8000,
    ensures
        ({
            let n = m.next->0;
            let (a, out) = m.pushed(seq, samples);
            &&& forall|k: u16| #[trigger]
                m.held.contains_key(k) ==> steps(n, k) < out.len() - 1 && out[steps(n, k)]
                    == m.held[k]
            &&& forall|i: int|
                0 <= i < out.len() - 1 && !m.held.contains_key(seq_after(n, i)) ==> #[trigger] out[i]
                    == silent(m.silence_len)
            &&& out.len() > 1 ==> m.held.contains_key(seq_after(n, out.len() - 2))
            &&& out.last() == samples
            &&& a.stats.emitted == m.stats.emitted + m.held.dom().len() + 1
            &&& a.stats.resyncs == m.stats.resyncs + 1
        }),
{
    let n = m.next->0;
    let (empty, rest) = m.flushed();
    super::flush_hands_out_all(m);
    crate::jitter::large_jump_starts_afresh(m, seq, samples);
    crate::jitter::lemma_flushed_is_empty(m);
    let fresh = JitterModel {
        next: Some(seq),
        stats: crate::jitter::JitterStats {
            resyncs: (m.stats.resyncs + 1) as u64,
            ..empty.stats
        },
        ..empty
    };
    crate::jitter::expected_packet_passes_through(fresh, seq, samples);
    assert(fresh.accepted(seq, samples) == fresh.pushed(seq, samples));
    let (a, out) = m.pushed(seq, samples);
    assert(out == rest + seq![samples]);
    assert forall|k: u16| #[trigger] m.held.contains_key(k) implies steps(n, k) < out.len() - 1
        && out[steps(n, k)] == m.held[k] by {
        let i = steps(n, k);
        places_and_packets_belong_together(n, k, 0);
        assert(seq_after(n, i) == k);
        assert(out[i] == rest[i]);
    }
    assert forall|i: int| 0 <= i < out.len() - 1 && !m.held.contains_key(seq_after(n, i)) implies
        #[trigger] out[i] == silent(m.silence_len) by {
        assert(out[i] == rest[i]);
    }
}

} // verus!
