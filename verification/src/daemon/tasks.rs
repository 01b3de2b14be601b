//! What the background tasks of a stream need: its parameters, the session that
//! is announced, and when its loop ends.

use crate::ipv4;
use crate::net::multicast::MulticastConfig;
use crate::profile::StreamProfile;
use crate::sdp::{clock_view, copy_clock, AudioSession, PtpRefClock, SessionModel};
use crate::text;
use vstd::prelude::*;

verus! {

/// Seconds between two announcements of a stream.
pub const ANNOUNCE_SECONDS: u64 = 5;

/// The key of a stream: `group:port`.
pub open spec fn stream_key(group: Seq<u8>, port: u16) -> Seq<char> {
    ipv4::dotted(group) + ":"@ + text::decimal(port as nat)
}

/// The key of a stream.
pub fn stream_id(group: [u8; 4], port: u16) -> (s: String)
    ensures
        s@ == stream_key(group@, port),
{
    let mut s: String = ipv4::dotted_text(group);
    text::push_text(&mut s, ":");
    text::push_decimal(&mut s, port as u64);
    s
}

/// The parameters of a sending stream.
#[derive(Debug)]
pub struct TxParams {
    pub iface: [u8; 4],
    pub group: [u8; 4],
    pub port: u16,
    pub profile: StreamProfile,
    pub payload_type: u8,
    pub ssrc: u32,
    pub node_name: String,
    /// The clock reference that is announced.
    pub refclk: Option<PtpRefClock>,
}

impl TxParams {
    /// Where the stream goes.
    pub fn multicast(&self) -> (c: MulticastConfig)
        ensures
            c.group == self.group,
            c.port == self.port,
            c.interface == self.iface,
            c.ttl == 32,
    {
        MulticastConfig::new(self.group, self.port).with_interface(self.iface)
    }

    /// The session that is announced.
    pub open spec fn session_model(&self) -> SessionModel {
        SessionModel {
            session_name: self.node_name@ + " · "@ + stream_key(self.group@, self.port),
            origin_unicast: ipv4::dotted(self.iface@),
            multicast_addr: ipv4::dotted(self.group@),
            port: self.port,
            payload_type: self.payload_type,
            profile: self.profile,
            refclk: clock_view(self.refclk),
            mediaclk_offset: 0,
        }
    }

    /// The session that is announced: named after the node and the stream.
    pub fn session(&self) -> (s: AudioSession)
        ensures
            s@ == self.session_model(),
    {
        let mut name: String = text::text(self.node_name.as_str());
        text::push_text(&mut name, " · ");
        text::push_text(&mut name, stream_id(self.group, self.port).as_str());
        AudioSession {
            session_name: name,
            origin_unicast: ipv4::dotted_text(self.iface),
            multicast_addr: ipv4::dotted_text(self.group),
            port: self.port,
            payload_type: self.payload_type,
            profile: self.profile,
            refclk: copy_clock(&self.refclk),
            mediaclk_offset: 0,
        }
    }
}

/// What wakes the loop of a sending stream.
#[derive(Debug, Clone, Copy, PartialEq, Eq, Structural)]
pub enum TxEvent {
    /// The loop starts.
    Start,
    /// A packet time is over.
    MediaTick,
    /// A packet could not be sent.
    SendFailed,
    /// It is time for an announcement.
    AnnounceTick,
    /// The signal to stop has changed: it now says whether to stop.
    Signal(bool),
    /// Whoever could give the signal to stop is gone.
    SignalLost,
}

/// What the loop of a sending stream does next.
#[derive(Debug, Clone, Copy, PartialEq, Eq, Structural)]
pub enum TxStep {
    /// Wait.
    Wait,
    /// Send the next block.
    Pump,
    /// Announce the session.
    Announce,
    /// Withdraw the session and end.
    Finish,
}

/// What the loop of a sending stream does: it announces at once and then from
/// time to time, sends once in a packet time, and ends when a packet cannot be
/// sent or it is told to.
pub open spec fn next_step(event: TxEvent) -> TxStep {
    match event {
        TxEvent::Start => TxStep::Announce,
        TxEvent::MediaTick => TxStep::Pump,
        TxEvent::SendFailed => TxStep::Finish,
        TxEvent::AnnounceTick => TxStep::Announce,
        TxEvent::Signal(stop) => if stop {
            TxStep::Finish
        } else {
            TxStep::Wait
        },
        TxEvent::SignalLost => TxStep::Finish,
    }
}

/// What the loop of a sending stream does next.
pub fn tx_step(event: TxEvent) -> (s: TxStep)
    ensures
        s == next_step(event),
{
    match event {
        TxEvent::Start => TxStep::Announce,
        TxEvent::MediaTick => TxStep::Pump,
        TxEvent::SendFailed => TxStep::Finish,
        TxEvent::AnnounceTick => TxStep::Announce,
        TxEvent::Signal(stop) => if stop {
            TxStep::Finish
        } else {
            TxStep::Wait
        },
        TxEvent::SignalLost => TxStep::Finish,
    }
}

/// What is announced of a stream is where it goes: its description names the
/// group, the port and the profile that it is sent with, and whoever receives
/// what is described receives the stream.
pub proof fn announced_stream_is_the_one_that_is_sent(p: TxParams)
    requires
        text::laws::free_of(p.node_name@, '\n'),
        clock_view(p.refclk) matches Some(rc) ==> text::laws::free_of(rc.gmid, ':')
            && text::laws::free_of(rc.gmid, '\n'),
    ensures
        ({
            let d = text::joined(p.session_model().sdp_lines());
            &&& crate::sdp::parsed(d) == Ok::<SessionModel, Seq<char>>(p.session_model())
            &&& crate::daemon::routing::sink_for(d) == Ok::<
                (Seq<u8>, u16, StreamProfile),
                Seq<char>,
            >((p.group@, p.port, p.profile))
            &&& p.session_model().session_name == p.node_name@ + " · "@ + ipv4::dotted(p.group@)
                + ":"@ + text::decimal(p.port as nat)
            &&& p.session_model().payload_type == p.payload_type
            &&& p.session_model().origin_unicast == ipv4::dotted(p.iface@)
            &&& p.session_model().refclk == clock_view(p.refclk)
        }),
{
    let s = p.session_model();
    let key = stream_key(p.group@, p.port);
    reveal_strlit(" · ");
    reveal_strlit(":");
    text::laws::lemma_decimal_plain(p.port as nat);
    ipv4::lemma_dotted_plain(p.group@);
    ipv4::lemma_dotted_plain(p.iface@);
    ipv4::dotted_reads_back(p.group@);
    assert(s.session_name.last() == text::decimal(p.port as nat).last());
    assert(s.session_name =~= p.node_name@ + " · "@ + ipv4::dotted(p.group@) + ":"@
        + text::decimal(p.port as nat));
    assert forall|i: int| 0 <= i < s.session_name.len() implies #[trigger] s.session_name[i]
        != '\n' by {
        let n = p.node_name@.len();
        let g = ipv4::dotted(p.group@).len();
        if i < n {
            assert(s.session_name[i] == p.node_name@[i]);
        } else if n + 3 <= i < n + 3 + g {
            assert(s.session_name[i] == ipv4::dotted(p.group@)[i - n - 3]);
        } else if i >= n + 4 + g {
            assert(s.session_name[i] == text::decimal(p.port as nat)[i - n - 4 - g]);
        }
    }
    crate::sdp::laws::built_session_parses_back(s);
}

/// A stream ends when it is told to, when nobody can tell it any more, and when
/// it cannot send, and at no other event; it sends in every packet time, and
/// announces at its start and from time to time.
pub proof fn stream_ends_when_it_has_to(e: TxEvent)
    ensures
        next_step(e) == TxStep::Finish <==> e == TxEvent::SendFailed || e == TxEvent::SignalLost
            || e == TxEvent::Signal(true),
        next_step(e) == TxStep::Pump <==> e == TxEvent::MediaTick,
        next_step(e) == TxStep::Announce <==> e == TxEvent::Start || e == TxEvent::AnnounceTick,
{
}

} // verus!
