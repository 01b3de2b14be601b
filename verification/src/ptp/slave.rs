//! The slave side of PTP: pairs Sync with Follow_Up and Delay_Req with
//! Delay_Resp, and hands the paired times to the servo.

use super::servo::{ServoStep, SyncReference};
use std::collections::HashMap;
use vstd::prelude::*;

verus! {

broadcast use vstd::std_specs::hash::group_hash_axioms;

/// Follows the Sync and delay exchanges.
#[derive(Debug)]
pub struct SlaveState {
    reference: SyncReference,
    /// Two-step Syncs that wait for their Follow_Up: sequence to local receive
    /// time.
    pending_sync: HashMap<u16, i128>,
    /// The Delay_Req that waits for its answer: sequence and local send time.
    pending_delay: Option<(u16, i128)>,
}

impl SlaveState {
    /// The last Sync pair.
    pub closed spec fn sync_reference(self) -> SyncReference {
        self.reference
    }

    /// Receive times of the Syncs that wait for a Follow_Up, by sequence.
    pub closed spec fn waiting(self) -> Map<u16, i128> {
        self.pending_sync@
    }

    /// Sequence and send time of the Delay_Req that waits for an answer.
    pub closed spec fn request(self) -> Option<(u16, i128)> {
        self.pending_delay
    }

    /// Whether a Sync was paired: a slave is synced once it has one to measure
    /// against.
    pub open spec fn has_synced(self) -> bool {
        self.sync_reference().have_sync
    }

    /// The last Sync pair is well-formed.
    pub open spec fn wf(self) -> bool {
        self.sync_reference().wf()
    }

    /// Nothing received yet.
    pub fn new() -> (s: Self)
        ensures
            s.wf(),
            s.sync_reference() == (SyncReference { have_sync: false, last_t1: 0, last_t2: 0 }),
            s.waiting() == Map::<u16, i128>::empty(),
            s.request() is None,
            !s.has_synced(),
    {
        SlaveState {
            reference: SyncReference::new(),
            pending_sync: HashMap::new(),
            pending_delay: None,
        }
    }

    /// A Sync was received at `t2_local`. Where it is two-step, its receive time
    /// waits for the Follow_Up; else `sync_ts_nanos` is the send time already.
    pub fn on_sync(
        &mut self,
        seq: u16,
        sync_ts_nanos: i128,
        two_step: bool,
        t2_local: i128,
    ) -> (step: Option<ServoStep>)
        requires
            old(self).wf(),
            !two_step ==> super::servo::fits(t2_local - sync_ts_nanos),
        ensures
            final(self).wf(),
            final(self).request() == old(self).request(),
            two_step ==> {
                &&& step is None
                &&& final(self).waiting() == old(self).waiting().insert(seq, t2_local)
                &&& final(self).sync_reference() == old(self).sync_reference()
            },
            !two_step ==> {
                &&& step == Some(
                    ServoStep::Offset { sync_diff: (t2_local - sync_ts_nanos) as i128 },
                )
                &&& final(self).waiting() == old(self).waiting()
                &&& final(self).sync_reference() == (SyncReference {
                    have_sync: true,
                    last_t1: sync_ts_nanos,
                    last_t2: t2_local,
                })
            },
    {
        if two_step {
            self.pending_sync.insert(seq, t2_local);
            None
        } else {
            Some(self.apply_sync(sync_ts_nanos, t2_local))
        }
    }

    /// A Follow_Up was received: it brings the exact send time of the Sync with
    /// its sequence. One that belongs to no waiting Sync changes nothing.
    pub fn on_follow_up(&mut self, seq: u16, t1_master_nanos: i128) -> (step: Option<ServoStep>)
        requires
            old(self).wf(),
            old(self).waiting().contains_key(seq) ==> super::servo::fits(
                old(self).waiting()[seq] - t1_master_nanos,
            ),
        ensures
            final(self).wf(),
            final(self).request() == old(self).request(),
            final(self).waiting() == old(self).waiting().remove(seq),
            !old(self).waiting().contains_key(seq) ==> step is None
                && final(self).sync_reference() == old(self).sync_reference(),
            old(self).waiting().contains_key(seq) ==> {
                let t2 = old(self).waiting()[seq];
                &&& step == Some(ServoStep::Offset { sync_diff: (t2 - t1_master_nanos) as i128 })
                &&& final(self).sync_reference() == (SyncReference {
                    have_sync: true,
                    last_t1: t1_master_nanos,
                    last_t2: t2,
                })
            },
    {
        match self.pending_sync.remove(&seq) {
            Some(t2) => Some(self.apply_sync(t1_master_nanos, t2)),
            None => {
                assert(self.waiting() =~= old(self).waiting().remove(seq));
                None
            },
        }
    }

    /// A paired Sync becomes the reference.
    fn apply_sync(&mut self, t1: i128, t2: i128) -> (step: ServoStep)
        requires
            super::servo::fits(t2 - t1),
        ensures
            final(self).wf(),
            final(self).request() == old(self).request(),
            final(self).waiting() == old(self).waiting(),
            final(self).sync_reference() == (SyncReference {
                have_sync: true,
                last_t1: t1,
                last_t2: t2,
            }),
            step == (ServoStep::Offset { sync_diff: (t2 - t1) as i128 }),
    {
        self.reference.on_sync(t1, t2)
    }

    /// A Delay_Req was sent at the local time `t3_local`. It replaces one that
    /// was not answered.
    pub fn on_delay_req_sent(&mut self, seq: u16, t3_local: i128)
        requires
            old(self).wf(),
        ensures
            final(self).wf(),
            final(self).request() == Some((seq, t3_local)),
            final(self).waiting() == old(self).waiting(),
            final(self).sync_reference() == old(self).sync_reference(),
    {
        self.pending_delay = Some((seq, t3_local));
    }

    /// A Delay_Resp was received. It counts where it answers this port
    /// (`requesting_is_us`) and the request that waits; `t4_master` is the time
    /// at which the master received the request.
    pub fn on_delay_resp(
        &mut self,
        seq: u16,
        requesting_is_us: bool,
        t4_master: i128,
    ) -> (step: Option<ServoStep>)
        requires
            old(self).wf(),
            requesting_is_us && (old(self).request() matches Some(p) && p.0 == seq)
                ==> super::servo::fits(t4_master - (old(self).request()->0).1),
        ensures
            final(self).wf(),
            final(self).waiting() == old(self).waiting(),
            final(self).sync_reference() == old(self).sync_reference(),
            ({
                let answered = requesting_is_us && (old(self).request() matches Some(p) && p.0
                    == seq);
                let reference = old(self).sync_reference();
                &&& answered ==> final(self).request() is None
                &&& !answered ==> *final(self) == *old(self)
                &&& step == (if answered && reference.have_sync {
                    Some(
                        ServoStep::Delay {
                            sync_diff: (reference.last_t2 - reference.last_t1) as i128,
                            delay_diff: (t4_master - (old(self).request()->0).1) as i128,
                        },
                    )
                } else {
                    None
                })
            }),
    {
        if !requesting_is_us {
            return None;
        }
        match self.pending_delay {
            Some((s, t3)) => {
                if s == seq {
                    let step = self.reference.on_delay(t3, t4_master);
                    self.pending_delay = None;
                    step
                } else {
                    None
                }
            },
            None => None,
        }
    }

    /// Whether at least one Sync was paired.
    pub fn is_synced(&self) -> (b: bool)
        ensures
            b == self.has_synced(),
    {
        self.reference.have_sync
    }
}

} // verus!
