//! What holds of a jitter buffer over all that happens to it.

pub mod limits;

use crate::jitter::{seq_after, steps, JitterModel, JitterStats, RESYNC_GAP};
use vstd::prelude::*;

verus! {

/// One step in the life of a buffer.
pub enum JitterStep {
    /// A packet is pushed.
    Push(u16, Seq<i32>),
    /// The buffer is flushed.
    Flush,
}

impl JitterModel {
    /// The buffer after one step, and the blocks that come out.
    pub open spec fn after(self, step: JitterStep) -> (JitterModel, Seq<Seq<i32>>) {
        match step {
            JitterStep::Push(seq, samples) => self.pushed(seq, samples),
            JitterStep::Flush => self.flushed(),
        }
    }

    /// The buffer after all steps, and all blocks that came out.
    pub open spec fn ran(self, h: Seq<JitterStep>) -> (JitterModel, Seq<Seq<i32>>)
        decreases h.len(),
    {
        if h.len() == 0 {
            (self, Seq::empty())
        } else {
            let (m, out) = self.ran(h.drop_last());
            let (end, more) = m.after(h.last());
            (end, out + more)
        }
    }

    /// Whether the counters have room for one step more: what
    /// [`crate::jitter::JitterBuffer::push`] and
    /// [`crate::jitter::JitterBuffer::flush`] ask for.
    pub open spec fn ready(self, step: JitterStep) -> bool {
        match step {
            JitterStep::Push(_, _) => self.stats.room(),
            JitterStep::Flush => self.stats.emitted <= u64::MAX - 0x1_0000 && self.stats.concealed
                <= u64::MAX - 0x1_0000,
        }
    }

    /// Whether all steps can be made: there is room for each of them.
    pub open spec fn may_run(self, h: Seq<JitterStep>) -> bool
        decreases h.len(),
    {
        h.len() > 0 ==> self.may_run(h.drop_last()) && self.ran(h.drop_last()).0.ready(h.last())
    }

    /// The buffer, started with the packet `seq` if it was not yet.
    pub open spec fn started(self, seq: u16) -> JitterModel {
        if self.next is None {
            JitterModel { next: Some(seq), ..self }
        } else {
            self
        }
    }

    /// Whether the packet `seq` is taken in: it is neither late nor a duplicate.
    pub open spec fn takes(self, seq: u16) -> bool {
        let m = self.started(seq);
        let ahead = steps(m.head(), seq);
        ahead < 0x8000 && (ahead > RESYNC_GAP || !m.held.contains_key(seq))
    }

    /// The packets that were taken in, in the order of their arrival.
    pub open spec fn taken(self, h: Seq<JitterStep>) -> Seq<(u16, Seq<i32>)>
        decreases h.len(),
    {
        if h.len() == 0 {
            Seq::empty()
        } else {
            let before = self.taken(h.drop_last());
            match h.last() {
                JitterStep::Push(seq, samples) => if self.ran(h.drop_last()).0.takes(seq) {
                    before.push((seq, samples))
                } else {
                    before
                },
                JitterStep::Flush => before,
            }
        }
    }
}

/// How many packets were pushed.
pub open spec fn pushes(h: Seq<JitterStep>) -> nat
    decreases h.len(),
{
    if h.len() == 0 {
        0
    } else {
        pushes(h.drop_last()) + if h.last() is Push {
            1nat
        } else {
            0
        }
    }
}

/// The sequence number of the first packet.
pub open spec fn first_seq(h: Seq<JitterStep>) -> Option<u16>
    decreases h.len(),
{
    if h.len() == 0 {
        None
    } else {
        match first_seq(h.drop_last()) {
            Some(f) => Some(f),
            None => match h.last() {
                JitterStep::Push(seq, _) => Some(seq),
                JitterStep::Flush => None,
            },
        }
    }
}

/// A block of silence.
pub open spec fn silent(len: nat) -> Seq<i32> {
    Seq::new(len, |j: int| 0i32)
}

/// Whether a packet `seq` is among these.
pub open spec fn arrived(taken: Seq<(u16, Seq<i32>)>, seq: u16) -> bool {
    exists|i: int| 0 <= i < taken.len() && (#[trigger] taken[i]).0 == seq
}

/// How the counters stand after `n` blocks were handed out.
proof fn lemma_advanced(m: JitterModel, n: int)
    requires
        m.next is Some,
        m.in_window(),
        m.held.dom().finite(),
        0 <= n <= RESYNC_GAP + 1,
        m.stats.emitted <= u64::MAX - 0x100,
        m.stats.concealed <= u64::MAX - 0x100,
    ensures
        ({
            let a = m.advanced(n);
            &&& a.held.dom().finite()
            &&& a.in_window()
            &&& a.next == Some(seq_after(m.head(), n))
            &&& m.stats.emitted <= a.stats.emitted <= m.stats.emitted + n
            &&& m.stats.concealed <= a.stats.concealed <= m.stats.concealed + n
            &&& a.stats.emitted + a.stats.concealed == m.stats.emitted + m.stats.concealed + n
            &&& a.stats.emitted + a.held.dom().len() == m.stats.emitted + m.held.dom().len()
            &&& a.held.contains_key(a.head()) <==> m.held.contains_key(seq_after(m.head(), n))
        }),
{
    crate::jitter::lemma_advance_one(m, n);
    crate::jitter::lemma_advance_window(m, n);
}

/// The buffer with a packet more that waits.
spec fn with_packet(m: JitterModel, seq: u16, samples: Seq<i32>) -> JitterModel {
    let ahead: u64 = if steps(m.head(), seq) > 0 {
        1
    } else {
        0
    };
    JitterModel {
        held: m.held.insert(seq, samples),
        stats: JitterStats { out_of_order: (m.stats.out_of_order + ahead) as u64, ..m.stats },
        ..m
    }
}

/// What taking in a packet does.
proof fn lemma_accepted(m: JitterModel, seq: u16, samples: Seq<i32>) -> (n: int)
    requires
        m.wf(),
        m.next is Some,
        steps(m.head(), seq) <= RESYNC_GAP,
        !m.held.contains_key(seq),
        m.stats.emitted <= u64::MAX - 0x100,
        m.stats.concealed <= u64::MAX - 0x100,
        m.stats.out_of_order < u64::MAX,
    ensures
        ({
            let (a, out) = m.accepted(seq, samples);
            let w = with_packet(m, seq, samples);
            &&& 0 <= n <= RESYNC_GAP + 1
            &&& w.in_window() && w.held.dom().finite()
            &&& a == w.advanced(n)
            &&& out == w.blocks(n)
            &&& a.wf()
            &&& a.stats.emitted + a.held.dom().len() == m.stats.emitted + m.held.dom().len() + 1
            &&& a.stats.emitted + a.stats.concealed == m.stats.emitted + m.stats.concealed + n
            &&& a.stats.concealed <= m.stats.concealed + n
            &&& a.stats.out_of_order <= m.stats.out_of_order + 1
        }),
{
    let w = with_packet(m, seq, samples);
    assert(w.in_window());
    crate::jitter::lemma_due_len_exists(w, 0);
    lemma_advanced(w, w.due_len());
    w.due_len()
}

/// What flushing does.
proof fn lemma_flushed(m: JitterModel) -> (n: int)
    requires
        m.wf(),
        m.stats.emitted <= u64::MAX - 0x100,
        m.stats.concealed <= u64::MAX - 0x100,
    ensures
        ({
            let (a, out) = m.flushed();
            &&& 0 <= n <= RESYNC_GAP + 1
            &&& m.next is Some ==> a == m.advanced(n) && out == m.blocks(n)
            &&& m.next is None ==> a == m && n == 0
            &&& out.len() == n
            &&& a.wf()
            &&& a.held == Map::<u16, Seq<i32>>::empty()
            &&& a.stats == (JitterStats {
                emitted: (m.stats.emitted + m.held.dom().len()) as u64,
                concealed: (m.stats.concealed + n - m.held.dom().len()) as u64,
                ..m.stats
            })
            &&& m.held.dom().len() <= n
            &&& n > 0 ==> m.held.contains_key(seq_after(m.head(), n - 1))
        }),
{
    crate::jitter::lemma_flushed_is_empty(m);
    if m.next is None {
        assert(m.held.dom().len() == 0);
        0
    } else {
        crate::jitter::lemma_all_len_exists(m, 0);
        let n = m.all_len();
        lemma_advanced(m, n);
        crate::jitter::lemma_advance_one(m, n);
        assert(m.held_after(n).dom().len() == 0);
        if n > 0 {
            crate::jitter::lemma_advance_one(m, n - 1);
            assert(m.held_after(n - 1).dom().len() > 0);
        }
        n
    }
}

/// A flush hands out all that waits, in sequence order, with one block of silence
/// for every packet missing before the last one that waits; the counters grow
/// accordingly. Nothing waits afterwards: a second flush hands out nothing and
/// changes nothing.
pub proof fn flush_hands_out_all(m: JitterModel)
    requires
        m.wf(),
        m.stats.emitted <= u64::MAX - 0x1_0000,
        m.stats.concealed <= u64::MAX - 0x1_0000,
    ensures
        ({
            let (a, out) = m.flushed();
            &&& forall|i: int|
                0 <= i < out.len() ==> #[trigger] out[i] == (if m.held.contains_key(
                    seq_after(m.head(), i),
                ) {
                    m.held[seq_after(m.head(), i)]
                } else {
                    silent(m.silence_len)
                })
            &&& forall|k: u16| #[trigger]
                m.held.contains_key(k) ==> steps(m.head(), k) < out.len()
            &&& out.len() > 0 ==> m.held.contains_key(seq_after(m.head(), out.len() - 1))
            &&& a.held == Map::<u16, Seq<i32>>::empty()
            &&& a.stats.emitted == m.stats.emitted + m.held.dom().len()
            &&& a.stats.concealed == m.stats.concealed + out.len() - m.held.dom().len()
            &&& a.stats.duplicate == m.stats.duplicate
            &&& a.stats.late == m.stats.late
            &&& a.stats.out_of_order == m.stats.out_of_order
            &&& a.stats.resyncs == m.stats.resyncs
            &&& a.flushed() == (a, Seq::<Seq<i32>>::empty())
        }),
{
    let n = lemma_flushed(m);
    let (a, out) = m.flushed();
    assert forall|k: u16| #[trigger] m.held.contains_key(k) implies steps(m.head(), k)
        < out.len() by {
        if steps(m.head(), k) >= n {
            assert(m.next is Some);
            assert(a.held == m.held_after(n));
            assert(m.held_after(n).contains_key(k));
        }
    }
    if a.next is Some {
        crate::jitter::lemma_held_after_zero(a);
        assert(a.held_after(0).dom().len() == 0);
        assert(a.all_blocks(0));
        crate::jitter::lemma_all_len(a, 0);
        assert(a.blocks(0) =~= Seq::empty());
        assert(a.advanced(0) =~= a);
    }
}

/// What one step does to the counters.
proof fn lemma_step(m: JitterModel, step: JitterStep)
    requires
        m.wf(),
        m.ready(step),
    ensures
        ({
            let (a, out) = m.after(step);
            &&& a.wf()
            &&& a.depth == m.depth
            &&& a.silence_len == m.silence_len
            &&& out.len() <= 2 * (RESYNC_GAP + 1)
            &&& a.stats.emitted + a.stats.concealed == m.stats.emitted + m.stats.concealed
                + out.len()
            &&& a.stats.emitted + a.stats.late + a.stats.duplicate + a.held.dom().len()
                == m.stats.emitted + m.stats.late + m.stats.duplicate + m.held.dom().len() + (
            if step is Push {
                1int
            } else {
                0
            })
            &&& m.stats.late <= a.stats.late
            &&& m.stats.duplicate <= a.stats.duplicate
            &&& m.stats.emitted <= a.stats.emitted
            &&& a.stats.concealed <= m.stats.concealed + out.len()
            &&& a.stats.out_of_order <= m.stats.out_of_order + 1
            &&& m.stats.resyncs <= a.stats.resyncs <= m.stats.resyncs + 1
        }),
{
    match step {
        JitterStep::Push(seq, samples) => {
            let s = m.started(seq);
            assert(s.wf()) by {
                if m.next is None {
                    assert(s.held =~= Map::empty());
                }
            }
            let ahead = steps(s.head(), seq);
            if ahead < 0x8000 && ahead > RESYNC_GAP {
                let k = lemma_flushed(s);
                let (empty, rest) = s.flushed();
                let fresh = JitterModel {
                    next: Some(seq),
                    stats: JitterStats { resyncs: (s.stats.resyncs + 1) as u64, ..empty.stats },
                    ..empty
                };
                let n = lemma_accepted(fresh, seq, samples);
            } else if ahead <= RESYNC_GAP && !s.held.contains_key(seq) {
                let n = lemma_accepted(s, seq, samples);
            }
        },
        JitterStep::Flush => {
            let n = lemma_flushed(m);
        },
    }
}

/// The counters after a history.
proof fn lemma_counts(silence_len: nat, depth: nat, h: Seq<JitterStep>)
    requires
        JitterModel::fresh(silence_len, depth).may_run(h),
    ensures
        ({
            let m0 = JitterModel::fresh(silence_len, depth);
            let (m, out) = m0.ran(h);
            &&& m.wf()
            &&& m.depth == m0.depth
            &&& m.silence_len == silence_len
            &&& pushes(h) <= h.len()
            &&& out.len() == m.stats.emitted + m.stats.concealed
            &&& pushes(h) == m.stats.emitted + m.stats.late + m.stats.duplicate
                + m.held.dom().len()
            &&& out.len() <= 130 * h.len()
            &&& m.stats.out_of_order <= h.len()
            &&& m.stats.resyncs <= h.len()
        }),
    decreases h.len(),
{
    if h.len() > 0 {
        lemma_counts(silence_len, depth, h.drop_last());
        lemma_step(JitterModel::fresh(silence_len, depth).ran(h.drop_last()).0, h.last());
    }
}

/// The counters never stand in the way: any 2^56 steps, and fewer, can be made.
pub proof fn steps_can_be_made(silence_len: nat, depth: nat, h: Seq<JitterStep>)
    requires
        h.len() <= 0x100_0000_0000_0000,
    ensures
        JitterModel::fresh(silence_len, depth).may_run(h),
    decreases h.len(),
{
    if h.len() > 0 {
        steps_can_be_made(silence_len, depth, h.drop_last());
        lemma_counts(silence_len, depth, h.drop_last());
    }
}

/// Every packet and every block is accounted for, whatever was pushed and
/// flushed, as long as the counters had room: as many blocks came out as were counted real or silent; a packet was
/// handed out, dropped as late, dropped as a duplicate, or waits; and no more wait
/// than the buffer is deep.
pub proof fn every_packet_is_accounted_for(silence_len: nat, depth: nat, h: Seq<JitterStep>)
    requires
        JitterModel::fresh(silence_len, depth).may_run(h),
    ensures
        ({
            let (m, out) = JitterModel::fresh(silence_len, depth).ran(h);
            &&& out.len() == m.stats.emitted + m.stats.concealed
            &&& pushes(h) - m.stats.emitted - m.stats.late - m.stats.duplicate
                == m.held.dom().len()
            &&& 0 <= m.held.dom().len() <= (if depth == 0 {
                1
            } else {
                depth
            })
        }),
{
    lemma_counts(silence_len, depth, h);
}

/// Whether the blocks that came out and the packets that wait are those that were
/// taken in, each at its place counted from the first packet `f`.
spec fn in_sequence(
    f: u16,
    m: JitterModel,
    out: Seq<Seq<i32>>,
    taken: Seq<(u16, Seq<i32>)>,
) -> bool {
    &&& m.next == Some(packet_at(f, out.len() as int))
    &&& forall|i: int|
        0 <= i < taken.len() ==> {
            let (seq, samples) = #[trigger] taken[i];
            let p = place(f, seq);
            &&& p <= out.len() + RESYNC_GAP
            &&& p < out.len() ==> out[p] == samples
            &&& p >= out.len() ==> m.held.contains_key(seq) && m.held[seq] == samples
        }
    &&& forall|k: int|
        0 <= k < out.len() && !arrived(taken, packet_at(f, k)) ==> #[trigger] out[k] == silent(
            m.silence_len,
        )
    &&& forall|q: u16| #[trigger] m.held.contains_key(q) ==> arrived(taken, q)
    &&& forall|i: int, j: int|
        0 <= i < j < taken.len() ==> (#[trigger] taken[i]).0 != (#[trigger] taken[j]).0
}

/// The place of the packet `q`, counted from the packet `f`.
#[verifier::opaque]
spec fn place(f: u16, q: u16) -> int {
    steps(f, q)
}

/// The packet at the place `k`, counted from the packet `f`.
#[verifier::opaque]
spec fn packet_at(f: u16, k: int) -> u16 {
    seq_after(f, k)
}

/// The place of a packet, counted from the first and from the next one expected.
proof fn lemma_place(f: u16, len: int, q: u16)
    requires
        0 <= len,
        len + place(packet_at(f, len), q) < 0x1_0000,
    ensures
        place(f, q) == len + place(packet_at(f, len), q),
        packet_at(f, place(f, q)) == q,
        packet_at(packet_at(f, len), place(f, q) - len) == q,
{
    reveal(place);
    reveal(packet_at);
}

/// The packet at a place, counted from the first and from the next one expected.
proof fn lemma_packet_at(f: u16, len: int, k: int)
    requires
        0 <= len <= k < 0x1_0000,
    ensures
        packet_at(packet_at(f, len), k - len) == packet_at(f, k),
        place(f, packet_at(f, k)) == k,
{
    reveal(place);
    reveal(packet_at);
}

/// What comes out for the next `n` places, and what waits then.
proof fn lemma_blocks(w: JitterModel, n: int)
    requires
        w.next is Some,
        w.in_window(),
        0 <= n <= RESYNC_GAP + 1,
    ensures
        w.blocks(n).len() == n,
        w.advanced(n).next == Some(packet_at(w.head(), n)),
        w.advanced(n).silence_len == w.silence_len,
        forall|i: int|
            0 <= i < n ==> #[trigger] w.blocks(n)[i] == (if w.held.contains_key(
                packet_at(w.head(), i),
            ) {
                w.held[packet_at(w.head(), i)]
            } else {
                silent(w.silence_len)
            }),
        forall|q: u16| #[trigger]
            w.held.contains_key(q) ==> 0 <= place(w.head(), q) <= RESYNC_GAP,
        forall|q: u16| #[trigger]
            w.advanced(n).held.contains_key(q) <==> w.held.contains_key(q) && place(w.head(), q)
                >= n,
        forall|q: u16| #[trigger]
            w.advanced(n).held.contains_key(q) ==> w.advanced(n).held[q] == w.held[q],
{
    reveal(place);
    reveal(packet_at);
}

/// Handing out the next `n` blocks keeps everything in sequence.
proof fn lemma_advance_in_sequence(
    f: u16,
    w: JitterModel,
    n: int,
    out: Seq<Seq<i32>>,
    taken: Seq<(u16, Seq<i32>)>,
)
    requires
        in_sequence(f, w, out, taken),
        w.in_window(),
        w.held.dom().finite(),
        0 <= n <= RESYNC_GAP + 1,
        out.len() + n + RESYNC_GAP < 0x1_0000,
    ensures
        in_sequence(f, w.advanced(n), out + w.blocks(n), taken),
{
    let len = out.len() as int;
    let a = w.advanced(n);
    let all = out + w.blocks(n);
    lemma_blocks(w, n);
    lemma_packet_at(f, len, len + n);
    assert(all.len() == len + n);
    assert forall|i: int| 0 <= i < taken.len() implies {
        let (seq, samples) = #[trigger] taken[i];
        let p = place(f, seq);
        &&& p <= all.len() + RESYNC_GAP
        &&& p < all.len() ==> all[p] == samples
        &&& p >= all.len() ==> a.held.contains_key(seq) && a.held[seq] == samples
    } by {
        let (seq, samples) = taken[i];
        let p = place(f, seq);
        assert(p >= 0) by {
            reveal(place);
        }
        if p >= len {
            assert(w.held.contains_key(seq));
            lemma_place(f, len, seq);
            if p < len + n {
                assert(all[p] == w.blocks(n)[p - len]);
            }
        }
    }
    assert forall|k: int|
        0 <= k < all.len() && !arrived(taken, packet_at(f, k)) implies #[trigger] all[k] == silent(
        a.silence_len,
    ) by {
        if k < len {
            assert(all[k] == out[k]);
        } else {
            assert(all[k] == w.blocks(n)[k - len]);
            lemma_packet_at(f, len, k);
            assert(!w.held.contains_key(packet_at(f, k)));
        }
    }
    assert forall|q: u16| #[trigger] a.held.contains_key(q) implies arrived(taken, q) by {
        assert(w.held.contains_key(q));
    }
}

/// What a history of pushes and flushes without a fresh start keeps.
proof fn lemma_in_sequence(silence_len: nat, depth: nat, h: Seq<JitterStep>)
    requires
        JitterModel::fresh(silence_len, depth).may_run(h),
        ({
            let (m, out) = JitterModel::fresh(silence_len, depth).ran(h);
            m.stats.resyncs == 0 && out.len() + RESYNC_GAP < 0x1_0000
        }),
    ensures
        ({
            let m0 = JitterModel::fresh(silence_len, depth);
            let (m, out) = m0.ran(h);
            match first_seq(h) {
                Some(f) => in_sequence(f, m, out, m0.taken(h)),
                None => m.next is None && out.len() == 0 && m0.taken(h).len() == 0,
            }
        }),
    decreases h.len(),
{
    if h.len() > 0 {
        let m0 = JitterModel::fresh(silence_len, depth);
        let g = h.drop_last();
        let (m, out) = m0.ran(g);
        let taken = m0.taken(g);
        lemma_counts(silence_len, depth, g);
        lemma_step(m, h.last());
        lemma_in_sequence(silence_len, depth, g);
        match h.last() {
            JitterStep::Flush => {
                let n = lemma_flushed(m);
                if m.next is Some {
                    lemma_advance_in_sequence(first_seq(h)->0, m, n, out, taken);
                }
            },
            JitterStep::Push(seq, samples) => {
                lemma_push_in_sequence(m, seq, samples, first_seq(h)->0, out, taken);
                let s = m.started(seq);
                let ahead = steps(s.head(), seq);
                if RESYNC_GAP < ahead < 0x8000 {
                    let k = lemma_flushed(s);
                    let (empty, rest) = s.flushed();
                    let fresh = JitterModel {
                        next: Some(seq),
                        stats: JitterStats {
                            resyncs: (s.stats.resyncs + 1) as u64,
                            ..empty.stats
                        },
                        ..empty
                    };
                    let n = lemma_accepted(fresh, seq, samples);
                }
            },
        }
    }
}

/// A push without a fresh start keeps everything in sequence.
proof fn lemma_push_in_sequence(
    m: JitterModel,
    seq: u16,
    samples: Seq<i32>,
    f: u16,
    out: Seq<Seq<i32>>,
    taken: Seq<(u16, Seq<i32>)>,
)
    requires
        m.wf(),
        m.stats.room(),
        m.next is Some ==> in_sequence(f, m, out, taken),
        m.next is None ==> out.len() == 0 && taken.len() == 0 && f == seq,
        out.len() + m.pushed(seq, samples).1.len() + RESYNC_GAP < 0x1_0000,
    ensures
        ({
            let s = m.started(seq);
            let (a, more) = m.pushed(seq, samples);
            !(RESYNC_GAP < steps(s.head(), seq) < 0x8000) ==> in_sequence(
                f,
                a,
                out + more,
                if m.takes(seq) {
                    taken.push((seq, samples))
                } else {
                    taken
                },
            )
        }),
{
    let s = m.started(seq);
    let ahead = steps(s.head(), seq);
    if m.next is None {
        assert(s.held =~= Map::empty());
        reveal(packet_at);
    }
    assert(in_sequence(f, s, out, taken));
    if ahead <= RESYNC_GAP && !s.held.contains_key(seq) {
        let n = lemma_accepted(s, seq, samples);
        let w = with_packet(s, seq, samples);
        let now = taken.push((seq, samples));
        let len = out.len() as int;
        assert(place(s.head(), seq) == ahead) by {
            reveal(place);
        }
        lemma_place(f, len, seq);
        assert(in_sequence(f, w, out, now)) by {
            assert forall|i: int| 0 <= i < now.len() implies {
                let (q, b) = #[trigger] now[i];
                let p = place(f, q);
                &&& p <= out.len() + RESYNC_GAP
                &&& p < out.len() ==> out[p] == b
                &&& p >= out.len() ==> w.held.contains_key(q) && w.held[q] == b
            } by {
                if i < taken.len() {
                    assert(now[i] == taken[i]);
                }
            }
            assert forall|q: u16| arrived(taken, q) implies #[trigger] arrived(now, q) by {
                let i = choose|i: int| 0 <= i < taken.len() && (#[trigger] taken[i]).0 == q;
                assert(now[i].0 == q);
            }
            assert(now[taken.len() as int].0 == seq);
            assert forall|i: int, j: int| 0 <= i < j < now.len() implies (#[trigger] now[i]).0 != (
            #[trigger] now[j]).0 by {
                assert(now[i] == taken[i]);
                if j < taken.len() {
                    assert(now[j] == taken[j]);
                } else if taken[i].0 == seq {
                    assert(place(f, taken[i].0) >= len);
                }
            }
        }
        lemma_advance_in_sequence(f, w, n, out, now);
    } else if !(RESYNC_GAP < ahead < 0x8000) {
        let a = m.pushed(seq, samples).0;
        assert(out + Seq::<Seq<i32>>::empty() =~= out);
        assert(in_sequence(f, a, out, taken));
    }
}

/// Packets come out in sequence, without a jump and without repeats. Take any
/// pushes and flushes, the first packet having the number `f`, after which the
/// buffer never started afresh and the sequence numbers handed out have not
/// wrapped round: the block `k` is the packet `f + k`, if it was taken in, that
/// is, came neither late nor as a duplicate, and else silence; and no packet was
/// taken in twice.
pub proof fn packets_come_out_in_sequence(
    silence_len: nat,
    depth: nat,
    h: Seq<JitterStep>,
    f: u16,
)
    requires
        JitterModel::fresh(silence_len, depth).may_run(h),
        first_seq(h) == Some(f),
        ({
            let (m, out) = JitterModel::fresh(silence_len, depth).ran(h);
            m.stats.resyncs == 0 && out.len() + RESYNC_GAP < 0x1_0000
        }),
    ensures
        ({
            let m0 = JitterModel::fresh(silence_len, depth);
            let (m, out) = m0.ran(h);
            let taken = m0.taken(h);
            &&& m.next == Some(seq_after(f, out.len() as int))
            &&& forall|k: int, i: int|
                0 <= k < out.len() && 0 <= i < taken.len() && taken[i].0 == seq_after(f, k)
                    ==> #[trigger] out[k] == (#[trigger] taken[i]).1
            &&& forall|k: int|
                0 <= k < out.len() && !arrived(taken, seq_after(f, k)) ==> #[trigger] out[k]
                    == silent(silence_len)
            &&& forall|i: int, j: int|
                0 <= i < j < taken.len() ==> (#[trigger] taken[i]).0 != (#[trigger] taken[j]).0
        }),
{
    lemma_in_sequence(silence_len, depth, h);
    lemma_counts(silence_len, depth, h);
    let m0 = JitterModel::fresh(silence_len, depth);
    let (m, out) = m0.ran(h);
    let taken = m0.taken(h);
    assert(packet_at(f, out.len() as int) == seq_after(f, out.len() as int)) by {
        reveal(packet_at);
    }
    assert forall|k: int| 0 <= k < out.len() implies #[trigger] packet_at(f, k) == seq_after(f, k)
        && place(f, packet_at(f, k)) == k by {
        reveal(packet_at);
        lemma_packet_at(f, 0, k);
    }
    assert forall|k: int, i: int|
        0 <= k < out.len() && 0 <= i < taken.len() && taken[i].0 == seq_after(f, k) implies
        #[trigger] out[k] == (#[trigger] taken[i]).1 by {
        assert(packet_at(f, k) == seq_after(f, k));
    }
    assert forall|k: int|
        0 <= k < out.len() && !arrived(taken, seq_after(f, k)) implies #[trigger] out[k] == silent(
        silence_len,
    ) by {
        assert(packet_at(f, k) == seq_after(f, k));
    }
}

// ---------------------------------------------------------------------------
// Patience
// ---------------------------------------------------------------------------
/// A missing packet is waited for as long as no more than `depth` packets wait
/// behind it: a packet from further ahead, for which there is room, brings out
/// nothing, neither itself nor silence for the missing one. It is kept as it came
/// and counted as out of order.
pub proof fn early_packet_waits(m: JitterModel, seq: u16, samples: Seq<i32>)
    requires
        m.wf(),
        m.next is Some,
        m.stats.room(),
        0 < steps(m.next->0, seq) <= 64,
        !m.held.contains_key(seq),
        m.held.dom().len() + 1 <= m.depth,
    ensures
        m.pushed(seq, samples).1 == Seq::<Seq<i32>>::empty(),
        m.pushed(seq, samples).0 == (JitterModel {
            held: m.held.insert(seq, samples),
            stats: JitterStats { out_of_order: (m.stats.out_of_order + 1) as u64, ..m.stats },
            ..m
        }),
{
    let w = with_packet(m, seq, samples);
    assert(w.in_window());
    crate::jitter::lemma_held_after_zero(w);
    crate::jitter::lemma_advance_one(w, 0);
    assert(seq_after(w.head(), 0) == w.head());
    assert(seq != w.head());
    assert(!w.due(0));
    assert(w.due_blocks(0));
    crate::jitter::lemma_due_len(w, 0);
    assert(w.blocks(0) =~= Seq::empty());
    assert(w.advanced(0) =~= w);
}

/// Nobody waits longer than the depth allows: where `depth` packets wait already,
/// one more from further ahead brings out at least one block, and `depth` or
/// fewer wait afterwards.
pub proof fn full_buffer_gives_up_the_missing(m: JitterModel, seq: u16, samples: Seq<i32>)
    requires
        m.wf(),
        m.next is Some,
        m.stats.room(),
        0 < steps(m.next->0, seq) <= 64,
        !m.held.contains_key(seq),
        m.held.dom().len() == m.depth,
    ensures
        ({
            let (a, out) = m.pushed(seq, samples);
            &&& out.len() >= 1
            &&& out[0] == silent(m.silence_len)
            &&& a.stats.concealed >= m.stats.concealed + 1
            &&& a.held.dom().len() <= m.depth
        }),
{
    let w = with_packet(m, seq, samples);
    let n = lemma_accepted(m, seq, samples);
    crate::jitter::lemma_held_after_zero(w);
    assert(w.due(0));
    assert(w.due_blocks(w.due_len())) by {
        crate::jitter::lemma_due_len_exists(w, 0);
    }
    assert(w.due_len() != 0);
    assert(m.pushed(seq, samples) == m.accepted(seq, samples));
    assert(n == m.pushed(seq, samples).1.len());
    assert(seq_after(w.head(), 0) == w.head());
    crate::jitter::lemma_advance_one(w, 0);
    lemma_advanced(w, 1);
    lemma_one_then_rest(w, n);
}

/// The first block handed out was silence, so silence was counted.
proof fn lemma_one_then_rest(w: JitterModel, n: int)
    requires
        w.next is Some,
        w.in_window(),
        w.held.dom().finite(),
        1 <= n <= RESYNC_GAP + 1,
        !w.held.contains_key(w.head()),
        w.stats.emitted <= u64::MAX - 0x100,
        w.stats.concealed <= u64::MAX - 0x100,
    ensures
        w.advanced(n).stats.concealed >= w.stats.concealed + 1,
    decreases n,
{
    lemma_advanced(w, n);
    assert(seq_after(w.head(), 0) == w.head());
    crate::jitter::lemma_advance_one(w, n - 1);
    if n == 1 {
        crate::jitter::lemma_held_after_zero(w);
        crate::jitter::lemma_advance_one(w, 0);
    } else {
        lemma_one_then_rest(w, n - 1);
        lemma_advanced(w, n - 1);
    }
}

/// The packet that was waited for brings out itself and all that wait right
/// behind it, up to the next one that is missing, and no silence; what waits
/// further ahead goes on waiting.
pub proof fn missing_packet_brings_out_the_rest(m: JitterModel, samples: Seq<i32>)
    requires
        m.wf(),
        m.next is Some,
        m.stats.room(),
    ensures
        ({
            let n = m.next->0;
            let (a, out) = m.pushed(n, samples);
            &&& out.len() >= 1
            &&& out[0] == samples
            &&& forall|i: int|
                1 <= i < out.len() ==> m.held.contains_key(seq_after(n, i)) && #[trigger] out[i]
                    == m.held[seq_after(n, i)]
            &&& !m.held.contains_key(seq_after(n, out.len() as int))
            &&& a.next == Some(seq_after(n, out.len() as int))
            &&& a.stats == (JitterStats {
                emitted: (m.stats.emitted + out.len()) as u64,
                ..m.stats
            })
            &&& forall|q: u16| #[trigger]
                a.held.contains_key(q) <==> m.held.contains_key(q) && steps(n, q) >= out.len()
            &&& forall|q: u16| #[trigger] a.held.contains_key(q) ==> a.held[q] == m.held[q]
        }),
{
    let n = m.next->0;
    let w = with_packet(m, n, samples);
    assert(steps(n, n) == 0);
    let k = lemma_accepted(m, n, samples);
    assert(m.pushed(n, samples) == m.accepted(n, samples));
    crate::jitter::lemma_due_len_exists(w, 0);
    assert(k == m.pushed(n, samples).1.len());
    assert(k == w.due_len());
    assert(w.due_blocks(k));
    assert(seq_after(n, 0) == n);
    assert(w.due(0));
    assert(k >= 1);
    lemma_run(w, k);
    assert forall|i: int| 1 <= i < k implies m.held.contains_key(seq_after(n, i)) by {
        assert(w.held.contains_key(seq_after(n, i)));
        assert(steps(n, seq_after(n, i)) == i);
    }
    assert(!w.held.contains_key(seq_after(n, k)));
    let a = m.pushed(n, samples).0;
    assert forall|q: u16| #[trigger] a.held.contains_key(q) implies m.held.contains_key(q)
        && a.held[q] == m.held[q] by {
        assert(w.held.contains_key(q));
        assert(steps(n, q) >= k);
    }
}

/// While the places are filled, what is due is what is there: after the first
/// block no more than `depth` wait.
proof fn lemma_run(w: JitterModel, k: int)
    requires
        w.next is Some,
        w.in_window(),
        w.held.dom().finite(),
        w.held.dom().len() <= w.depth + 1,
        w.held.contains_key(w.head()),
        1 <= k <= RESYNC_GAP + 1,
        w.stats.emitted <= u64::MAX - 0x100,
        forall|i: int| 0 <= i < k ==> #[trigger] w.due(i),
    ensures
        forall|i: int| 0 <= i < k ==> w.held.contains_key(#[trigger] seq_after(w.head(), i)),
        w.held_after(k).dom().len() == w.held.dom().len() - k,
        w.advanced(k).stats == (JitterStats {
            emitted: (w.stats.emitted + k) as u64,
            ..w.stats
        }),
    decreases k,
{
    assert(seq_after(w.head(), 0) == w.head());
    crate::jitter::lemma_held_after_zero(w);
    crate::jitter::lemma_advance_one(w, k - 1);
    if k == 1 {
        crate::jitter::lemma_advance_one(w, 0);
    } else {
        assert forall|i: int| 0 <= i < k - 1 implies #[trigger] w.due(i) by {}
        lemma_run(w, k - 1);
        assert(w.due(k - 1));
    }
}

/// The packets of `h` pushed one after the other.
pub open spec fn pushes_of(h: Seq<(u16, Seq<i32>)>) -> Seq<JitterStep> {
    h.map_values(|p: (u16, Seq<i32>)| JitterStep::Push(p.0, p.1))
}

/// Reordering within the depth is repaired without loss. Where nothing waits, let
/// up to `depth` packets, each at most the resync gap ahead and none twice,
/// overtake the next one, in any order: nothing comes out while it is missing,
/// nothing is dropped, and once it arrives it comes out first, the others behind
/// it, each at its place up to the next one that is missing, without silence.
pub proof fn overtaken_packet_is_not_lost(
    m: JitterModel,
    h: Seq<(u16, Seq<i32>)>,
    samples: Seq<i32>,
)
    requires
        m.wf(),
        m.next is Some,
        m.held == Map::<u16, Seq<i32>>::empty(),
        h.len() <= m.depth,
        m.stats.room(),
        m.stats.out_of_order + h.len() < u64::MAX,
        forall|i: int|
            0 <= i < h.len() ==> 0 < steps(m.next->0, (#[trigger] h[i]).0) <= 64,
        forall|i: int, j: int| 0 <= i < j < h.len() ==> (#[trigger] h[i]).0 != (#[trigger] h[j]).0,
    ensures
        ({
            let n = m.next->0;
            let (w, none) = m.ran(pushes_of(h));
            let (a, out) = w.pushed(n, samples);
            &&& none == Seq::<Seq<i32>>::empty()
            &&& w.next == m.next
            &&& out.len() >= 1
            &&& out[0] == samples
            &&& forall|i: int, k: int|
                0 <= i < h.len() && 0 <= k < out.len() && h[i].0 == seq_after(n, k)
                    ==> #[trigger] out[k] == (#[trigger] h[i]).1
            &&& forall|i: int|
                0 <= i < h.len() ==> steps(n, (#[trigger] h[i]).0) < out.len()
                    || a.held.contains_key(h[i].0) && a.held[h[i].0] == h[i].1
            &&& forall|k: int|
                1 <= k < out.len() ==> #[trigger] out[k] == w.held[seq_after(n, k)]
                    && arrived(h, seq_after(n, k))
            &&& a.stats.concealed == m.stats.concealed
            &&& a.stats.late == m.stats.late
            &&& a.stats.duplicate == m.stats.duplicate
            &&& a.stats.emitted == m.stats.emitted + out.len()
        }),
{
    let n = m.next->0;
    lemma_overtaken(m, h);
    let w = m.ran(pushes_of(h)).0;
    missing_packet_brings_out_the_rest(w, samples);
    let (a, out) = w.pushed(n, samples);
    assert(out.len() <= 0x1_0000) by {
        lemma_step(w, JitterStep::Push(n, samples));
    }
    assert forall|i: int, k: int|
        0 <= i < h.len() && 0 <= k < out.len() && h[i].0 == seq_after(n, k) implies #[trigger] out[k]
        == (#[trigger] h[i]).1 by {
        assert(w.held.contains_key(h[i].0));
        if k == 0 {
            assert(steps(n, h[i].0) == 0);
        }
    }
    assert forall|i: int| 0 <= i < h.len() implies steps(n, (#[trigger] h[i]).0) < out.len()
        || a.held.contains_key(h[i].0) && a.held[h[i].0] == h[i].1 by {
        assert(w.held.contains_key(h[i].0));
    }
}

/// What waits after packets from ahead were pushed.
proof fn lemma_overtaken(m: JitterModel, h: Seq<(u16, Seq<i32>)>)
    requires
        m.wf(),
        m.next is Some,
        m.held == Map::<u16, Seq<i32>>::empty(),
        h.len() <= m.depth,
        m.stats.room(),
        m.stats.out_of_order + h.len() < u64::MAX,
        forall|i: int|
            0 <= i < h.len() ==> 0 < steps(m.next->0, (#[trigger] h[i]).0) <= 64,
        forall|i: int, j: int| 0 <= i < j < h.len() ==> (#[trigger] h[i]).0 != (#[trigger] h[j]).0,
    ensures
        ({
            let (w, none) = m.ran(pushes_of(h));
            &&& none == Seq::<Seq<i32>>::empty()
            &&& w.wf()
            &&& w.next == m.next
            &&& w.depth == m.depth
            &&& w.held.dom().len() == h.len()
            &&& forall|i: int|
                0 <= i < h.len() ==> w.held.contains_key((#[trigger] h[i]).0) && w.held[h[i].0]
                    == h[i].1
            &&& forall|q: u16| #[trigger] w.held.contains_key(q) ==> arrived(h, q)
            &&& w.stats == (JitterStats {
                out_of_order: (m.stats.out_of_order + h.len()) as u64,
                ..m.stats
            })
        }),
    decreases h.len(),
{
    let all = pushes_of(h);
    if h.len() > 0 {
        let g = h.drop_last();
        assert(all.drop_last() =~= pushes_of(g));
        assert forall|i: int| 0 <= i < g.len() implies 0 < steps(m.next->0, (#[trigger] g[i]).0)
            <= 64 by {
            assert(g[i] == h[i]);
        }
        assert forall|i: int, j: int| 0 <= i < j < g.len() implies (#[trigger] g[i]).0 != (
        #[trigger] g[j]).0 by {
            assert(g[i] == h[i] && g[j] == h[j]);
        }
        lemma_overtaken(m, g);
        let v = m.ran(pushes_of(g)).0;
        let (seq, samples) = h.last();
        assert(!v.held.contains_key(seq)) by {
            if v.held.contains_key(seq) {
                let i = choose|i: int| 0 <= i < g.len() && (#[trigger] g[i]).0 == seq;
                assert(h[i].0 == h[h.len() - 1].0);
            }
        }
        early_packet_waits(v, seq, samples);
        lemma_step(v, JitterStep::Push(seq, samples));
        let w = v.pushed(seq, samples).0;
        assert forall|i: int| 0 <= i < h.len() implies w.held.contains_key((#[trigger] h[i]).0)
            && w.held[h[i].0] == h[i].1 by {
            if i < g.len() {
                assert(g[i] == h[i]);
                assert(h[i].0 != h[h.len() - 1].0);
            }
        }
        assert forall|q: u16| #[trigger] w.held.contains_key(q) implies arrived(h, q) by {
            if q == seq {
                assert(h[h.len() - 1].0 == q);
            } else {
                assert(v.held.contains_key(q));
                let i = choose|i: int| 0 <= i < g.len() && (#[trigger] g[i]).0 == q;
                assert(h[i].0 == q);
            }
        }
    }
}

/// A packet that waits already is not taken in again: the one that came first is
/// kept, and nothing changes but the counter of duplicates.
pub proof fn duplicate_is_dropped(m: JitterModel, seq: u16, samples: Seq<i32>)
    requires
        m.wf(),
        m.held.contains_key(seq),
    ensures
        m.pushed(seq, samples).1 == Seq::<Seq<i32>>::empty(),
        m.pushed(seq, samples).0 == (JitterModel {
            stats: JitterStats { duplicate: (m.stats.duplicate + 1) as u64, ..m.stats },
            ..m
        }),
{
    assert(m.next is Some);
    assert(steps(m.head(), seq) <= RESYNC_GAP);
}

} // verus!
