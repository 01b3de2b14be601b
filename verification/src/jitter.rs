//! The reorder and concealment buffer of a receiver.
//!
//! RTP packets can arrive out of order, twice or not at all. The buffer hands
//! them out in sequence order, holds back a few packets to put them in order,
//! drops duplicates and packets that come too late, and fills real gaps with
//! silence, so that the time line of the playback never jumps. The latency it
//! adds is bounded by `depth` packets.
//!
//! Sequence numbers are 16 bits wide and wrap; they are compared by serial
//! number arithmetic (RFC 1982).

use std::collections::HashMap;
use vstd::prelude::*;

pub mod laws;

verus! {

broadcast use vstd::std_specs::hash::group_hash_axioms;

/// Counters of the jitter buffer.
#[derive(Debug, Default, Clone, Copy, PartialEq, Eq, Structural)]
pub struct JitterStats {
    /// Real packets handed out in sequence.
    pub emitted: u64,
    /// Blocks of silence put in for lost packets.
    pub concealed: u64,
    /// Duplicates dropped.
    pub duplicate: u64,
    /// Packets older than the next one expected, dropped.
    pub late: u64,
    /// Packets that arrived ahead of one still missing.
    pub out_of_order: u64,
    /// Fresh starts after a large jump of the sequence.
    pub resyncs: u64,
}

impl JitterStats {
    /// No counter is near the end of its 64 bits.
    pub open spec fn room(self) -> bool {
        &&& self.emitted <= u64::MAX - 0x1_0000
        &&& self.concealed <= u64::MAX - 0x1_0000
        &&& self.duplicate < u64::MAX
        &&& self.late < u64::MAX
        &&& self.out_of_order < u64::MAX
        &&& self.resyncs < u64::MAX
    }
}

/// Gap, in packets, from which on the buffer starts afresh in place of filling
/// with silence: a sender that restarts with another sequence number would else
/// cause tens of thousands of silent blocks at once.
pub const RESYNC_GAP: u16 = 64;

/// The sequence number `i` after `seq`.
pub open spec fn seq_after(seq: u16, i: int) -> u16 {
    ((seq + i) % 0x1_0000) as u16
}

/// How many steps lead from `from` up to `to`, wrapping.
pub open spec fn steps(from: u16, to: u16) -> int {
    (to - from) % 0x1_0000
}

/// What the buffer holds.
#[verifier::ext_equal]
pub struct JitterModel {
    /// The sequence number to be handed out next; none before the first packet.
    pub next: Option<u16>,
    /// Packets that wait for one before them.
    pub held: Map<u16, Seq<i32>>,
    /// Samples of a block of silence.
    pub silence_len: nat,
    /// Most packets that may wait.
    pub depth: nat,
    pub stats: JitterStats,
}

/// The counters at the start.
pub open spec fn no_counts() -> JitterStats {
    JitterStats {
        emitted: 0,
        concealed: 0,
        duplicate: 0,
        late: 0,
        out_of_order: 0,
        resyncs: 0,
    }
}

impl JitterModel {
    /// A new buffer; at least one packet may wait.
    pub open spec fn fresh(silence_len: nat, depth: nat) -> JitterModel {
        JitterModel {
            next: None,
            held: Map::empty(),
            silence_len,
            depth: if depth == 0 {
                1
            } else {
                depth
            },
            stats: no_counts(),
        }
    }

    /// The next sequence number, 0 before the first packet.
    pub open spec fn head(self) -> u16 {
        match self.next {
            Some(n) => n,
            None => 0,
        }
    }

    /// All waiting packets lie within the resync gap ahead of the next one, and
    /// there are no more of them than `depth`.
    pub open spec fn wf(self) -> bool {
        &&& self.depth >= 1
        &&& self.held.dom().finite()
        &&& self.held.dom().len() <= self.depth
        &&& self.in_window()
        &&& !self.held.contains_key(self.head())
    }

    /// All waiting packets lie within the resync gap ahead of the next one.
    pub open spec fn in_window(self) -> bool {
        &&& self.next is None ==> self.held.dom() == Set::<u16>::empty()
        &&& forall|k: u16|
            #[trigger] self.held.contains_key(k) ==> steps(self.head(), k) <= RESYNC_GAP
    }

    /// The waiting packets that are left once the next `n` places are passed.
    pub open spec fn held_after(self, n: int) -> Map<u16, Seq<i32>> {
        self.held.restrict(Set::new(|k: u16| steps(self.head(), k) >= n))
    }

    /// The blocks for the next `n` places: the packet where it is there, and
    /// silence where it is missing.
    pub open spec fn blocks(self, n: int) -> Seq<Seq<i32>> {
        Seq::new(
            n as nat,
            |i: int|
                {
                    let seq = seq_after(self.head(), i);
                    if self.held.contains_key(seq) {
                        self.held[seq]
                    } else {
                        Seq::new(self.silence_len, |j: int| 0i32)
                    }
                },
        )
    }

    /// The buffer after the blocks of the next `n` places were handed out.
    pub open spec fn advanced(self, n: int) -> JitterModel {
        let sent = self.held.dom().len() - self.held_after(n).dom().len();
        JitterModel {
            next: Some(seq_after(self.head(), n)),
            held: self.held_after(n),
            stats: JitterStats {
                emitted: (self.stats.emitted + sent) as u64,
                concealed: (self.stats.concealed + n - sent) as u64,
                ..self.stats
            },
            ..self
        }
    }

    /// Whether a block is due at the place `n` from here: its packet is there,
    /// or more packets wait behind it than may.
    pub open spec fn due(self, n: int) -> bool {
        ||| self.held.contains_key(seq_after(self.head(), n))
        ||| self.held_after(n).dom().len() > self.depth
    }

    /// Whether exactly `n` blocks are due.
    pub open spec fn due_blocks(self, n: int) -> bool {
        &&& 0 <= n <= RESYNC_GAP + 1
        &&& forall|i: int| 0 <= i < n ==> #[trigger] self.due(i)
        &&& !self.due(n)
    }

    /// The number of blocks that are due.
    pub open spec fn due_len(self) -> int {
        choose|n: int| self.due_blocks(n)
    }

    /// Whether it takes exactly `n` blocks to hand out all that waits.
    pub open spec fn all_blocks(self, n: int) -> bool {
        &&& 0 <= n <= RESYNC_GAP + 1
        &&& forall|i: int| 0 <= i < n ==> (#[trigger] self.held_after(i)).dom().len() > 0
        &&& self.held_after(n).dom().len() == 0
    }

    /// The number of blocks it takes to hand out all that waits.
    pub open spec fn all_len(self) -> int {
        choose|n: int| self.all_blocks(n)
    }

    /// The buffer emptied, and the blocks that come out.
    pub open spec fn flushed(self) -> (JitterModel, Seq<Seq<i32>>) {
        if self.next is None {
            (self, Seq::empty())
        } else {
            (self.advanced(self.all_len()), self.blocks(self.all_len()))
        }
    }

    /// The buffer after taking in a packet at or ahead of the next place, and the
    /// blocks that come out.
    pub open spec fn accepted(self, seq: u16, samples: Seq<i32>) -> (JitterModel, Seq<Seq<i32>>) {
        let ahead: u64 = if steps(self.head(), seq) > 0 {
            1
        } else {
            0
        };
        let m = JitterModel {
            held: self.held.insert(seq, samples),
            stats: JitterStats {
                out_of_order: (self.stats.out_of_order + ahead) as u64,
                ..self.stats
            },
            ..self
        };
        (m.advanced(m.due_len()), m.blocks(m.due_len()))
    }

    /// The buffer after the packet `seq` was pushed, and the blocks that come
    /// out.
    pub open spec fn pushed(self, seq: u16, samples: Seq<i32>) -> (JitterModel, Seq<Seq<i32>>) {
        let m = if self.next is None {
            JitterModel { next: Some(seq), ..self }
        } else {
            self
        };
        let ahead = steps(m.head(), seq);
        if ahead >= 0x8000 {
            (
                JitterModel {
                    stats: JitterStats { late: (m.stats.late + 1) as u64, ..m.stats },
                    ..m
                },
                Seq::empty(),
            )
        } else if ahead > RESYNC_GAP {
            let (empty, rest) = m.flushed();
            let fresh = JitterModel {
                next: Some(seq),
                stats: JitterStats { resyncs: (m.stats.resyncs + 1) as u64, ..empty.stats },
                ..empty
            };
            let (end, out) = fresh.accepted(seq, samples);
            (end, rest + out)
        } else if m.held.contains_key(seq) {
            (
                JitterModel {
                    stats: JitterStats { duplicate: (m.stats.duplicate + 1) as u64, ..m.stats },
                    ..m
                },
                Seq::empty(),
            )
        } else {
            m.accepted(seq, samples)
        }
    }
}

/// The sample blocks that the vectors hold.
pub open spec fn block_views(v: Seq<Vec<i32>>) -> Seq<Seq<i32>> {
    v.map_values(|b: Vec<i32>| b@)
}

/// Reorder and concealment buffer for one stream of fixed block size.
pub struct JitterBuffer {
    next_seq: Option<u16>,
    pending: HashMap<u16, Vec<i32>>,
    silence_len: usize,
    depth: usize,
    stats: JitterStats,
}

impl View for JitterBuffer {
    type V = JitterModel;

    closed spec fn view(&self) -> JitterModel {
        JitterModel {
            next: self.next_seq,
            held: self.pending@.map_values(|b: Vec<i32>| b@),
            silence_len: self.silence_len as nat,
            depth: self.depth as nat,
            stats: self.stats,
        }
    }
}

/// A block of silence.
fn silence(len: usize) -> (block: Vec<i32>)
    ensures
        block@ == Seq::new(len as nat, |j: int| 0i32),
{
    let mut block: Vec<i32> = Vec::new();
    while block.len() < len
        invariant
            block@.len() <= len,
            forall|j: int| 0 <= j < block@.len() ==> block@[j] == 0,
        decreases len - block@.len(),
    {
        block.push(0);
    }
    assert(block@ =~= Seq::new(len as nat, |j: int| 0i32));
    block
}

impl JitterBuffer {
    /// `silence_len` is the number of samples of a packet (frames times
    /// channels), `depth` the number of packets that may wait, at least one.
    pub fn new(silence_len: usize, depth: usize) -> (b: Self)
        ensures
            b@.wf(),
            b@ == JitterModel::fresh(silence_len as nat, depth as nat),
    {
        let b = JitterBuffer {
            next_seq: None,
            pending: HashMap::new(),
            silence_len,
            depth: if depth == 0 {
                1
            } else {
                depth
            },
            stats: JitterStats {
                emitted: 0,
                concealed: 0,
                duplicate: 0,
                late: 0,
                out_of_order: 0,
                resyncs: 0,
            },
        };
        assert(b@.held =~= Map::empty());
        b
    }

    /// The counters.
    pub fn stats(&self) -> (s: JitterStats)
        ensures
            s == self@.stats,
    {
        self.stats
    }

    /// Takes in a packet and appends all blocks that are now due to `out`, **in
    /// order**: real packets, and silence for gaps.
    pub fn push(&mut self, seq: u16, samples: Vec<i32>, out: &mut Vec<Vec<i32>>)
        requires
            old(self)@.wf(),
            old(self)@.stats.room(),
        ensures
            final(self)@.wf(),
            final(self)@ == old(self)@.pushed(seq, samples@).0,
            block_views(final(out)@) == block_views(old(out)@) + old(self)@.pushed(
                seq,
                samples@,
            ).1,
    {
        let ghost before = self@;
        if self.next_seq.is_none() {
            self.next_seq = Some(seq);
        }
        let ghost started = self@;
        assert(started == (if before.next is None {
            JitterModel { next: Some(seq), ..before }
        } else {
            before
        }));
        assert(started.wf()) by {
            if before.next is None {
                assert(started.held =~= Map::empty());
            }
        }
        let next: u16 = match self.next_seq {
            Some(n) => n,
            None => seq,
        };
        let ahead: u16 = seq.wrapping_sub(next);
        assert(ahead == steps(next, seq));
        if ahead >= 0x8000 {
            self.stats.late = self.stats.late + 1;
            assert(block_views(out@) =~= block_views(old(out)@) + Seq::empty());
            return;
        }
        if ahead > RESYNC_GAP {
            self.flush(out);
            let ghost rest = block_views(out@);
            self.next_seq = Some(seq);
            self.stats.resyncs = self.stats.resyncs + 1;
            let ghost fresh = self@;
            proof {
                lemma_flushed_is_empty(started);
                assert(fresh.held =~= Map::empty());
            }
            self.accept(seq, samples, out);
            assert(block_views(out@) =~= block_views(old(out)@) + (started.flushed().1
                + fresh.accepted(seq, samples@).1));
            return;
        }
        if self.pending.contains_key(&seq) {
            self.stats.duplicate = self.stats.duplicate + 1;
            assert(block_views(out@) =~= block_views(old(out)@) + Seq::empty());
            return;
        }
        self.accept(seq, samples, out);
    }

    /// Takes in a packet that is not there yet, at or ahead of the next place.
    fn accept(&mut self, seq: u16, samples: Vec<i32>, out: &mut Vec<Vec<i32>>)
        requires
            old(self)@.wf(),
            old(self)@.next is Some,
            steps(old(self)@.head(), seq) <= RESYNC_GAP,
            !old(self)@.held.contains_key(seq),
            old(self)@.stats.out_of_order < u64::MAX,
            old(self)@.stats.emitted <= u64::MAX - 0x100,
            old(self)@.stats.concealed <= u64::MAX - 0x100,
        ensures
            final(self)@.wf(),
            final(self)@ == old(self)@.accepted(seq, samples@).0,
            block_views(final(out)@) == block_views(old(out)@) + old(self)@.accepted(
                seq,
                samples@,
            ).1,
    {
        let ghost before = self@;
        let next: u16 = match self.next_seq {
            Some(n) => n,
            None => seq,
        };
        if seq != next {
            self.stats.out_of_order = self.stats.out_of_order + 1;
        }
        self.pending.insert(seq, samples);
        proof {
            assert(self@.held =~= before.held.insert(seq, samples@));
            assert(steps(next, seq) > 0 <==> seq != next);
        }
        self.drain(out);
    }

    /// Hands out blocks while one is due: while the next packet is there, or
    /// more packets wait than may.
    fn drain(&mut self, out: &mut Vec<Vec<i32>>)
        requires
            old(self)@.next is Some,
            old(self)@.in_window(),
            old(self)@.depth >= 1,
            old(self)@.held.dom().finite(),
            old(self)@.stats.emitted <= u64::MAX - 0x100,
            old(self)@.stats.concealed <= u64::MAX - 0x100,
        ensures
            final(self)@.wf(),
            final(self)@ == old(self)@.advanced(old(self)@.due_len()),
            block_views(final(out)@) == block_views(old(out)@) + old(self)@.blocks(
                old(self)@.due_len(),
            ),
    {
        let ghost start = self@;
        let ghost mut n: int = 0;
        proof {
            lemma_held_after_zero(start);
            assert(self@ =~= start.advanced(0));
            assert(block_views(out@) =~= block_views(old(out)@) + start.blocks(0));
        }
        loop
            invariant
                start == old(self)@,
                start.next is Some,
                start.in_window(),
                start.depth >= 1,
                start.held.dom().finite(),
                start.stats.emitted <= u64::MAX - 0x100,
                start.stats.concealed <= u64::MAX - 0x100,
                0 <= n <= RESYNC_GAP + 1,
                forall|i: int| 0 <= i < n ==> #[trigger] start.due(i),
                self@ == start.advanced(n),
                block_views(out@) == block_views(old(out)@) + start.blocks(n),
            ensures
                start.due_blocks(n),
                self@ == start.advanced(n),
                block_views(out@) == block_views(old(out)@) + start.blocks(n),
            decreases RESYNC_GAP + 2 - n,
        {
            let next: u16 = match self.next_seq {
                Some(s) => s,
                None => 0,
            };
            proof {
                lemma_advance_one(start, n);
            }
            let ghost here = self@;
            match self.pending.remove(&next) {
                Some(samples) => {
                    proof {
                        assert(here.held[next] == samples@);
                        assert(start.blocks(n + 1) =~= start.blocks(n).push(samples@));
                        assert(block_views(out@.push(samples)) =~= block_views(out@).push(
                            samples@,
                        ));
                    }
                    out.push(samples);
                    self.stats.emitted = self.stats.emitted + 1;
                    self.next_seq = Some(next.wrapping_add(1));
                    proof {
                        assert(self@.held =~= start.held_after(n + 1));
                        assert(self@ =~= start.advanced(n + 1));
                        assert(start.due(n));
                        n = n + 1;
                        assert(block_views(out@) =~= block_views(old(out)@) + start.blocks(n));
                    }
                },
                None => {
                    assert(self@.held =~= here.held);
                    if self.pending.len() > self.depth {
                        let block: Vec<i32> = silence(self.silence_len);
                        proof {
                            assert(self.pending@.dom() =~= here.held.dom());
                            assert(start.due(n));
                            assert(start.blocks(n + 1) =~= start.blocks(n).push(block@));
                            assert(block_views(out@.push(block)) =~= block_views(out@).push(block@));
                        }
                        out.push(block);
                        self.stats.concealed = self.stats.concealed + 1;
                        self.next_seq = Some(next.wrapping_add(1));
                        proof {
                            assert(self@ =~= start.advanced(n + 1));
                            n = n + 1;
                            assert(block_views(out@) =~= block_views(old(out)@) + start.blocks(n));
                        }
                    } else {
                        assert(self.pending@.dom() =~= here.held.dom());
                        break;
                    }
                },
            }
        }
        proof {
            lemma_due_len(start, n);
            lemma_advance_window(start, n);
            lemma_advance_one(start, n);
        }
    }

    /// Hands out all packets that wait, in order, with silence for those missing
    /// between them. The buffer is empty afterwards.
    pub fn flush(&mut self, out: &mut Vec<Vec<i32>>)
        requires
            old(self)@.wf(),
            old(self)@.stats.emitted <= u64::MAX - 0x1_0000,
            old(self)@.stats.concealed <= u64::MAX - 0x1_0000,
        ensures
            final(self)@.wf(),
            final(self)@ == old(self)@.flushed().0,
            final(self)@.held == Map::<u16, Seq<i32>>::empty(),
            block_views(final(out)@) == block_views(old(out)@) + old(self)@.flushed().1,
    {
        let ghost start = self@;
        let mut next: u16 = match self.next_seq {
            Some(s) => s,
            None => {
                assert(self@.held =~= Map::empty());
                assert(block_views(out@) =~= block_views(old(out)@) + Seq::empty());
                return;
            },
        };
        let ghost mut n: int = 0;
        proof {
            lemma_held_after_zero(start);
            assert(self@ =~= start.advanced(0));
            assert(block_views(out@) =~= block_views(old(out)@) + start.blocks(0));
        }
        while self.pending.len() > 0
            invariant
                start == old(self)@,
                start.wf(),
                start.next is Some,
                start.stats.emitted <= u64::MAX - 0x1_0000,
                start.stats.concealed <= u64::MAX - 0x1_0000,
                0 <= n <= RESYNC_GAP + 1,
                forall|i: int|
                    0 <= i < n ==> (#[trigger] start.held_after(i)).dom().len() > 0,
                self@ == start.advanced(n),
                Some(next) == self@.next,
                block_views(out@) == block_views(old(out)@) + start.blocks(n),
            decreases RESYNC_GAP + 2 - n,
        {
            proof {
                lemma_advance_one(start, n);
                assert(self.pending@.dom() =~= self@.held.dom());
            }
            let ghost here = self@;
            match self.pending.remove(&next) {
                Some(samples) => {
                    proof {
                        assert(here.held[next] == samples@);
                        assert(start.blocks(n + 1) =~= start.blocks(n).push(samples@));
                        assert(block_views(out@.push(samples)) =~= block_views(out@).push(
                            samples@,
                        ));
                    }
                    out.push(samples);
                    self.stats.emitted = self.stats.emitted + 1;
                    assert(self@.held =~= start.held_after(n + 1));
                },
                None => {
                    assert(self@.held =~= here.held);
                    let block: Vec<i32> = silence(self.silence_len);
                    proof {
                        assert(start.blocks(n + 1) =~= start.blocks(n).push(block@));
                        assert(block_views(out@.push(block)) =~= block_views(out@).push(block@));
                    }
                    out.push(block);
                    self.stats.concealed = self.stats.concealed + 1;
                },
            }
            next = next.wrapping_add(1);
            self.next_seq = Some(next);
            proof {
                assert(self@ =~= start.advanced(n + 1));
                n = n + 1;
                assert(block_views(out@) =~= block_views(old(out)@) + start.blocks(n));
            }
        }
        proof {
            assert(self.pending@.dom() =~= self@.held.dom());
            assert(start.held_after(n).dom().len() == 0);
            lemma_all_len(start, n);
            lemma_flushed_is_empty(start);
        }
    }
}

/// Before anything is handed out, everything waits still.
proof fn lemma_held_after_zero(m: JitterModel)
    ensures
        m.held_after(0) == m.held,
{
    assert(m.held_after(0) =~= m.held);
}

/// One step on: the packet at the place `n`, if it is there, no longer waits.
proof fn lemma_advance_one(m: JitterModel, n: int)
    requires
        m.next is Some,
        m.in_window(),
        m.held.dom().finite(),
        0 <= n <= RESYNC_GAP + 1,
    ensures
        ({
            let seq = seq_after(m.head(), n);
            &&& m.advanced(n).head() == seq
            &&& seq_after(seq, 1) == seq_after(m.head(), n + 1)
            &&& m.held_after(n).contains_key(seq) <==> m.held.contains_key(seq)
            &&& m.held.contains_key(seq) ==> m.held_after(n)[seq] == m.held[seq]
            &&& m.held.contains_key(seq) ==> m.held_after(n + 1) == m.held_after(n).remove(seq)
            &&& m.held.contains_key(seq) ==> m.held_after(n + 1).dom().len() == m.held_after(
                n,
            ).dom().len() - 1
            &&& !m.held.contains_key(seq) ==> m.held_after(n + 1) == m.held_after(n)
            &&& n == RESYNC_GAP + 1 ==> m.held_after(n).dom().len() == 0
                && !m.held.contains_key(seq)
            &&& m.held_after(n).dom().finite()
            &&& m.held_after(n).dom().len() <= m.held.dom().len()
            &&& m.held.dom().len() <= m.held_after(n).dom().len() + n
        }),
    decreases n,
{
    let seq = seq_after(m.head(), n);
    assert(steps(m.head(), seq) == n);
    assert(m.held_after(n).dom() =~= m.held.dom().intersect(
        Set::new(|k: u16| steps(m.head(), k) >= n),
    ));
    assert(m.held_after(n + 1).dom() =~= m.held.dom().intersect(
        Set::new(|k: u16| steps(m.head(), k) >= n + 1),
    ));
    assert forall|k: u16| steps(m.head(), k) == n implies k == seq by {}
    if m.held.contains_key(seq) {
        assert(m.held_after(n + 1) =~= m.held_after(n).remove(seq));
    } else {
        assert(m.held_after(n + 1) =~= m.held_after(n));
    }
    if n == RESYNC_GAP + 1 {
        assert(m.held_after(n).dom() =~= Set::<u16>::empty());
    }
    vstd::set_lib::lemma_len_subset(m.held_after(n).dom(), m.held.dom());
    if n == 0 {
        lemma_held_after_zero(m);
    } else {
        lemma_advance_one(m, n - 1);
    }
}

/// After `n` steps the packets that wait are within the window of the new place.
proof fn lemma_advance_window(m: JitterModel, n: int)
    requires
        m.next is Some,
        m.in_window(),
        0 <= n <= RESYNC_GAP + 1,
    ensures
        m.advanced(n).in_window(),
{
    let a = m.advanced(n);
    assert forall|k: u16| #[trigger] a.held.contains_key(k) implies steps(a.head(), k)
        <= RESYNC_GAP by {
        assert(m.held.contains_key(k));
        assert(steps(m.head(), k) >= n);
        assert(steps(a.head(), k) == steps(m.head(), k) - n);
    }
}

/// There is only one number of due blocks.
proof fn lemma_due_len(m: JitterModel, n: int)
    requires
        m.due_blocks(n),
    ensures
        m.due_len() == n,
{
    let c = m.due_len();
    assert(m.due_blocks(c));
    if c < n {
        assert(m.due(c));
    }
    if n < c {
        assert(m.due(n));
    }
}

/// There is only one number of blocks that hands out all.
proof fn lemma_all_len(m: JitterModel, n: int)
    requires
        m.all_blocks(n),
    ensures
        m.all_len() == n,
{
    let c = m.all_len();
    assert(m.all_blocks(c));
    if c < n {
        assert(m.held_after(c).dom().len() > 0);
    }
    if n < c {
        assert(m.held_after(n).dom().len() > 0);
    }
}

/// There is a number of blocks that hands out all.
proof fn lemma_all_len_exists(m: JitterModel, n: int)
    requires
        m.next is Some,
        m.in_window(),
        m.held.dom().finite(),
        0 <= n <= RESYNC_GAP + 1,
        forall|i: int| 0 <= i < n ==> (#[trigger] m.held_after(i)).dom().len() > 0,
    ensures
        m.all_blocks(m.all_len()),
    decreases RESYNC_GAP + 1 - n,
{
    lemma_advance_one(m, n);
    if m.held_after(n).dom().len() == 0 {
        assert(m.all_blocks(n));
    } else {
        lemma_all_len_exists(m, n + 1);
    }
}

/// Nothing waits in a buffer that was flushed.
proof fn lemma_flushed_is_empty(m: JitterModel)
    requires
        m.wf(),
    ensures
        m.flushed().0.held == Map::<u16, Seq<i32>>::empty(),
        m.flushed().0.wf(),
        m.flushed().0.stats.emitted <= m.stats.emitted + 0x100 || m.stats.emitted + 0x100
            > u64::MAX,
        m.flushed().0.stats.concealed <= m.stats.concealed + 0x100 || m.stats.concealed + 0x100
            > u64::MAX,
        m.flushed().0.stats.resyncs == m.stats.resyncs,
        m.flushed().0.stats.out_of_order == m.stats.out_of_order,
        m.flushed().0.depth == m.depth,
        m.flushed().0.silence_len == m.silence_len,
{
    if m.next is None {
        assert(m.held =~= Map::empty());
    } else {
        lemma_all_len_exists(m, 0);
        let n = m.all_len();
        lemma_advance_one(m, n);
        assert(m.held_after(n).dom() =~= Set::<u16>::empty());
        assert(m.held_after(n) =~= Map::empty());
    }
}

/// There is a number of due blocks, at most one more than the resync gap.
proof fn lemma_due_len_exists(m: JitterModel, n: int)
    requires
        m.next is Some,
        m.in_window(),
        m.depth >= 1,
        m.held.dom().finite(),
        0 <= n <= RESYNC_GAP + 1,
        forall|i: int| 0 <= i < n ==> #[trigger] m.due(i),
    ensures
        m.due_blocks(m.due_len()),
    decreases RESYNC_GAP + 1 - n,
{
    lemma_advance_one(m, n);
    if !m.due(n) {
        assert(m.due_blocks(n));
    } else {
        lemma_due_len_exists(m, n + 1);
    }
}

/// The packet that is expected next, arriving while nothing waits, is handed out
/// at once and alone.
pub proof fn expected_packet_passes_through(m: JitterModel, seq: u16, samples: Seq<i32>)
    requires
        m.wf(),
        m.held == Map::<u16, Seq<i32>>::empty(),
        m.next is None || m.next == Some(seq),
    ensures
        m.pushed(seq, samples).1 == seq![samples],
        m.pushed(seq, samples).0.next == Some(seq_after(seq, 1)),
        m.pushed(seq, samples).0.held == Map::<u16, Seq<i32>>::empty(),
        m.pushed(seq, samples).0.stats == (JitterStats {
            emitted: (m.stats.emitted + 1) as u64,
            ..m.stats
        }),
{
    let at = JitterModel { next: Some(seq), ..m };
    let with = JitterModel { held: at.held.insert(seq, samples), ..at };
    lemma_held_after_zero(with);
    lemma_advance_one(with, 0);
    lemma_advance_one(with, 1);
    assert(with.held_after(1) =~= Map::empty());
    assert(with.due(0));
    assert(!with.due(1));
    assert(with.due_blocks(1));
    lemma_due_len(with, 1);
    assert(with.blocks(1) =~= seq![samples]);
}

/// Two packets that arrive in the wrong order are handed out in the right one:
/// the early one waits, and the missing one brings out both.
pub proof fn swapped_pair_comes_out_in_order(
    m: JitterModel,
    seq: u16,
    first: Seq<i32>,
    second: Seq<i32>,
)
    requires
        m.wf(),
        m.held == Map::<u16, Seq<i32>>::empty(),
        m.next == Some(seq),
    ensures
        ({
            let (waiting, none) = m.pushed(seq_after(seq, 1), second);
            let (done, both) = waiting.pushed(seq, first);
            &&& none == Seq::<Seq<i32>>::empty()
            &&& both == seq![first, second]
            &&& done.next == Some(seq_after(seq, 2))
            &&& done.held == Map::<u16, Seq<i32>>::empty()
            &&& done.stats.concealed == m.stats.concealed
        }),
{
    let later = seq_after(seq, 1);
    let w0 = JitterModel {
        held: m.held.insert(later, second),
        stats: JitterStats { out_of_order: (m.stats.out_of_order + 1) as u64, ..m.stats },
        ..m
    };
    assert(w0.in_window());
    lemma_held_after_zero(w0);
    lemma_advance_one(w0, 0);
    assert(w0.held.dom() =~= set![later]);
    assert(!w0.due(0));
    assert(w0.due_blocks(0));
    lemma_due_len(w0, 0);
    let waiting = m.pushed(later, second).0;
    assert(waiting.held =~= w0.held);
    assert(m.pushed(later, second).1 =~= Seq::empty());
    let w1 = JitterModel { held: waiting.held.insert(seq, first), ..waiting };
    assert(w1.in_window());
    lemma_held_after_zero(w1);
    lemma_advance_one(w1, 0);
    lemma_advance_one(w1, 1);
    lemma_advance_one(w1, 2);
    assert(seq_after(seq, 2) != seq && seq_after(seq, 2) != later);
    assert(w1.held_after(2) =~= Map::empty());
    assert(w1.due(0));
    assert(w1.due(1));
    assert(!w1.due(2));
    assert(w1.due_blocks(2));
    lemma_due_len(w1, 2);
    assert(w1.blocks(2) =~= seq![first, second]);
}

/// The time line never jumps: unless the buffer starts afresh, every place in
/// the sequence gives exactly one block, in order; a block is the packet that
/// waits for its place, the one just pushed, or silence.
pub proof fn timeline_never_jumps(m: JitterModel, seq: u16, samples: Seq<i32>)
    requires
        m.wf(),
        m.next is Some,
        !(RESYNC_GAP < steps(m.head(), seq) < 0x8000),
    ensures
        ({
            let (after, out) = m.pushed(seq, samples);
            &&& after.next == Some(seq_after(m.head(), out.len() as int))
            &&& forall|i: int|
                0 <= i < out.len() ==> {
                    let at = seq_after(m.head(), i);
                    #[trigger] out[i] == (if m.held.contains_key(at) {
                        m.held[at]
                    } else if at == seq {
                        samples
                    } else {
                        Seq::new(m.silence_len, |j: int| 0i32)
                    })
                }
        }),
{
    let ahead = steps(m.head(), seq);
    if ahead <= RESYNC_GAP && !m.held.contains_key(seq) {
        let w = JitterModel {
            held: m.held.insert(seq, samples),
            stats: JitterStats {
                out_of_order: (m.stats.out_of_order + if ahead > 0 {
                    1int
                } else {
                    0
                }) as u64,
                ..m.stats
            },
            ..m
        };
        assert(w.in_window());
        lemma_due_len_exists(w, 0);
    }
}

/// Every block is accounted for: the counters of real and of silent blocks grow
/// together by the number of blocks that come out.
pub proof fn every_block_is_counted(m: JitterModel, seq: u16, samples: Seq<i32>)
    requires
        m.wf(),
        m.stats.room(),
    ensures
        ({
            let (after, out) = m.pushed(seq, samples);
            &&& after.stats.emitted + after.stats.concealed == m.stats.emitted + m.stats.concealed
                + out.len()
            &&& after.stats.emitted >= m.stats.emitted
            &&& after.stats.concealed >= m.stats.concealed
        }),
{
    let s = if m.next is None {
        JitterModel { next: Some(seq), ..m }
    } else {
        m
    };
    assert(s.wf()) by {
        if m.next is None {
            assert(s.held =~= Map::empty());
        }
    }
    let ahead = steps(s.head(), seq);
    if ahead < 0x8000 && ahead > RESYNC_GAP {
        lemma_all_len_exists(s, 0);
        lemma_advance_one(s, s.all_len());
        lemma_flushed_is_empty(s);
        let (empty, rest) = s.flushed();
        let fresh = JitterModel {
            next: Some(seq),
            stats: JitterStats { resyncs: (s.stats.resyncs + 1) as u64, ..empty.stats },
            ..empty
        };
        lemma_accepted_counts(fresh, seq, samples);
    } else if ahead <= RESYNC_GAP && !s.held.contains_key(seq) {
        lemma_accepted_counts(s, seq, samples);
    }
}

/// The counters of an accepted packet.
proof fn lemma_accepted_counts(m: JitterModel, seq: u16, samples: Seq<i32>)
    requires
        m.wf(),
        m.next is Some,
        steps(m.head(), seq) <= RESYNC_GAP,
        !m.held.contains_key(seq),
        m.stats.emitted <= u64::MAX - 0x100,
        m.stats.concealed <= u64::MAX - 0x100,
    ensures
        ({
            let (after, out) = m.accepted(seq, samples);
            &&& after.stats.emitted + after.stats.concealed == m.stats.emitted + m.stats.concealed
                + out.len()
            &&& after.stats.emitted >= m.stats.emitted
            &&& after.stats.concealed >= m.stats.concealed
        }),
{
    let ahead: u64 = if steps(m.head(), seq) > 0 {
        1
    } else {
        0
    };
    let w = JitterModel {
        held: m.held.insert(seq, samples),
        stats: JitterStats { out_of_order: (m.stats.out_of_order + ahead) as u64, ..m.stats },
        ..m
    };
    assert(w.in_window());
    lemma_due_len_exists(w, 0);
    lemma_advance_one(w, w.due_len());
}

/// A packet that was handed out or passed over already is dropped: it changes
/// nothing but the counter of late packets.
pub proof fn late_packet_is_dropped(m: JitterModel, seq: u16, samples: Seq<i32>)
    requires
        m.wf(),
        m.next is Some,
        1 <= steps(seq, m.head()) <= 0x8000,
    ensures
        m.pushed(seq, samples).1 == Seq::<Seq<i32>>::empty(),
        m.pushed(seq, samples).0 == (JitterModel {
            stats: JitterStats { late: (m.stats.late + 1) as u64, ..m.stats },
            ..m
        }),
{
}

/// A jump of more than the resync gap never floods the output with silence: all
/// that waited comes out, then the packet itself, and no more than 65 blocks are
/// handed out before it.
pub proof fn large_jump_starts_afresh(m: JitterModel, seq: u16, samples: Seq<i32>)
    requires
        m.wf(),
        m.next is Some,
        64 < steps(m.head(), seq) < 0x8000,
    ensures
        ({
            let (after, out) = m.pushed(seq, samples);
            &&& 1 <= out.len() <= 66
            &&& out.last() == samples
            &&& after.next == Some(seq_after(seq, 1))
            &&& after.held == Map::<u16, Seq<i32>>::empty()
            &&& after.stats.resyncs == (m.stats.resyncs + 1) as u64
            &&& m.held == Map::<u16, Seq<i32>>::empty() ==> out == seq![samples]
        }),
{
    lemma_all_len_exists(m, 0);
    lemma_flushed_is_empty(m);
    let (empty, rest) = m.flushed();
    let fresh = JitterModel {
        next: Some(seq),
        stats: JitterStats { resyncs: (m.stats.resyncs + 1) as u64, ..empty.stats },
        ..empty
    };
    expected_packet_passes_through(fresh, seq, samples);
    assert(fresh.accepted(seq, samples) == fresh.pushed(seq, samples));
    let out = m.pushed(seq, samples).1;
    assert(out == rest + seq![samples]);
    assert(out.last() == samples);
    if m.held == Map::<u16, Seq<i32>>::empty() {
        lemma_held_after_zero(m);
        assert(m.held_after(0).dom().len() == 0);
        assert(m.all_blocks(0));
        lemma_all_len(m, 0);
        assert(out =~= seq![samples]);
    }
}

} // verus!
