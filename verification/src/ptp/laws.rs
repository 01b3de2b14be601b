//! What stands where in a PTP message, and which clock wins.

use super::wire::{
    Announce, DelayResp, MessageType, PtpError, PtpHeader, PtpTimestamp, TimestampedMsg,
};
use super::{BmcaOrder, ClockDataset};
use vstd::prelude::*;

verus! {

/// Two bytes as a number, most significant first.
pub open spec fn word(b: Seq<u8>, i: int) -> int {
    b[i] * 256 + b[i + 1]
}

/// Four bytes as a number, most significant first.
pub open spec fn long(b: Seq<u8>, i: int) -> int {
    word(b, i) * 65536 + word(b, i + 2)
}

/// The common header, byte by byte, as IEEE 1588 lays it out: type in the low
/// half of byte 0, version in that of byte 1, length, domain, flags, correction,
/// source port, sequence, control, interval. Another version than 2 is refused,
/// and so is a message of fewer than 34 bytes.
pub proof fn header_stands_where_it_should(b: Seq<u8>)
    ensures
        b.len() < 34 ==> PtpHeader::parsed(b) is Err,
        b.len() >= 34 && b[1] % 16 != 2 ==> PtpHeader::parsed(b) is Err,
        b.len() >= 34 && b[1] % 16 == 2 ==> {
            &&& PtpHeader::parsed(b) matches Ok(h)
            &&& h.version == 2
            &&& h.message_type.nibble() == b[0] % 16
            &&& h.message_length == word(b, 2)
            &&& h.domain == b[4]
            &&& h.flags == word(b, 6)
            &&& (h.correction - (long(b, 8) * 0x1_0000_0000 + long(b, 12)))
                % 0x1_0000_0000_0000_0000 == 0
            &&& h.source_port.clock_identity@ == b.subrange(20, 28)
            &&& h.source_port.port == word(b, 28)
            &&& h.sequence_id == word(b, 30)
            &&& h.control == b[32]
            &&& (h.log_message_interval - b[33]) % 0x100 == 0
        },
{
    if b.len() >= 34 && b[1] % 16 == 2 {
        let h = PtpHeader::of(b);
        assert(h.source_port.clock_identity@ =~= b.subrange(20, 28));
    }
}

/// The numbers of the message types, as IEEE 1588 gives them.
pub proof fn types_have_their_numbers(v: u8)
    ensures
        MessageType::of(v) == MessageType::Sync <==> v % 16 == 0,
        MessageType::of(v) == MessageType::DelayReq <==> v % 16 == 1,
        MessageType::of(v) == MessageType::FollowUp <==> v % 16 == 8,
        MessageType::of(v) == MessageType::DelayResp <==> v % 16 == 9,
        MessageType::of(v) == MessageType::Announce <==> v % 16 == 11,
        MessageType::of(v) == MessageType::Signaling <==> v % 16 == 12,
        MessageType::of(v) == MessageType::Management <==> v % 16 == 13,
        MessageType::of(v).nibble() == v % 16,
{
}

/// A timestamp is six bytes of seconds and four of nanoseconds, and stands for
/// their sum; what comes later stands for more.
pub proof fn timestamp_counts_nanoseconds(b: Seq<u8>, i: int)
    requires
        0 <= i,
        i + 10 <= b.len(),
    ensures
        PtpTimestamp::at(b, i).total() == (word(b, i) * 0x1_0000_0000 + long(b, i + 2))
            * 1_000_000_000 + long(b, i + 6),
{
}

/// A time splits into whole seconds and less than one second, and time before the
/// epoch counts as the epoch.
pub proof fn timestamp_is_whole_seconds_and_a_rest(t: i128)
    requires
        t < 0x1_0000_0000_0000_0000 * 1_000_000_000,
    ensures
        PtpTimestamp::of_nanos(t).nanos < 1_000_000_000,
        t >= 0 ==> PtpTimestamp::of_nanos(t).seconds * 1_000_000_000 + PtpTimestamp::of_nanos(
            t,
        ).nanos == t,
        t < 0 ==> PtpTimestamp::of_nanos(t).seconds == 0 && PtpTimestamp::of_nanos(t).nanos == 0,
{
}

/// The fields of an Announce behind the header, byte by byte. Messages of other
/// types and shorter ones are refused.
pub proof fn announce_stands_where_it_should(b: Seq<u8>)
    requires
        b.len() >= 34,
        b[1] % 16 == 2,
    ensures
        Announce::parsed(b) is Ok <==> b[0] % 16 == 11 && b.len() >= 64,
        Announce::parsed(b) matches Ok(a) ==> {
            &&& PtpHeader::parsed(b) == Ok::<_, super::wire::PtpError>(a.header)
            &&& a.origin_timestamp.seconds == word(b, 34) * 0x1_0000_0000 + long(b, 36)
            &&& a.origin_timestamp.nanos == long(b, 40)
            &&& (a.current_utc_offset - word(b, 44)) % 0x1_0000 == 0
            &&& a.gm_priority1 == b[47]
            &&& a.gm_clock_class == b[48]
            &&& a.gm_clock_accuracy == b[49]
            &&& a.gm_offset_scaled_log_variance == word(b, 50)
            &&& a.gm_priority2 == b[52]
            &&& a.gm_identity@ == b.subrange(53, 61)
            &&& a.steps_removed == word(b, 61)
            &&& a.time_source == b[63]
        },
{
    if Announce::parsed(b) is Ok {
        assert(Announce::of(b).gm_identity@ =~= b.subrange(53, 61));
    }
}

/// Each field of an Announce becomes the field of the dataset that is compared
/// under its name.
pub proof fn dataset_is_what_was_announced(a: Announce)
    ensures
        a.dataset().priority1 == a.gm_priority1,
        a.dataset().clock_class == a.gm_clock_class,
        a.dataset().clock_accuracy == a.gm_clock_accuracy,
        a.dataset().offset_scaled_log_variance == a.gm_offset_scaled_log_variance,
        a.dataset().priority2 == a.gm_priority2,
        a.dataset().clock_identity@ == a.gm_identity@,
        a.dataset().steps_removed == a.steps_removed,
{
}

/// The timestamp of a Sync or Follow_Up stands right behind the header.
pub proof fn sync_stands_where_it_should(b: Seq<u8>)
    requires
        b.len() >= 34,
        b[1] % 16 == 2,
    ensures
        TimestampedMsg::parsed(b) is Ok <==> (b[0] % 16 == 0 || b[0] % 16 == 8) && b.len() >= 44,
        TimestampedMsg::parsed(b) matches Ok(m) ==> {
            &&& PtpHeader::parsed(b) == Ok::<_, super::wire::PtpError>(m.header)
            &&& m.timestamp.seconds == word(b, 34) * 0x1_0000_0000 + long(b, 36)
            &&& m.timestamp.nanos == long(b, 40)
        },
{
}

/// The receive time of a Delay_Resp stands right behind the header, and the port
/// that asked behind it.
pub proof fn delay_resp_stands_where_it_should(b: Seq<u8>)
    requires
        b.len() >= 34,
        b[1] % 16 == 2,
    ensures
        DelayResp::parsed(b) is Ok <==> b[0] % 16 == 9 && b.len() >= 54,
        DelayResp::parsed(b) matches Ok(m) ==> {
            &&& PtpHeader::parsed(b) == Ok::<_, super::wire::PtpError>(m.header)
            &&& m.receive_timestamp.seconds == word(b, 34) * 0x1_0000_0000 + long(b, 36)
            &&& m.receive_timestamp.nanos == long(b, 40)
            &&& m.requesting_port.clock_identity@ == b.subrange(44, 52)
            &&& m.requesting_port.port == word(b, 52)
        },
{
    if DelayResp::parsed(b) is Ok {
        assert(DelayResp::of(b).requesting_port.clock_identity@ =~= b.subrange(44, 52));
    }
}

/// Between clocks of the same quality the first byte of the identity in which
/// they differ decides, and the smaller one wins; the number of steps does not
/// count.
pub proof fn smaller_identity_wins(a: ClockDataset, b: ClockDataset, k: int)
    requires
        a.priority1 == b.priority1,
        a.clock_class == b.clock_class,
        a.clock_accuracy == b.clock_accuracy,
        a.offset_scaled_log_variance == b.offset_scaled_log_variance,
        a.priority2 == b.priority2,
        0 <= k < 8,
        forall|i: int| 0 <= i < k ==> a.clock_identity[i] == b.clock_identity[i],
        a.clock_identity[k] < b.clock_identity[k],
    ensures
        ClockDataset::ordered(a, b) == BmcaOrder::ABetter,
        ClockDataset::ordered(b, a) == BmcaOrder::BBetter,
{
    let x = a.clock_identity@;
    let y = b.clock_identity@;
    assert(x[k] != y[k]);
    assert(forall|i: int| 0 <= i < k ==> x[i] == y[i]);
    if k > 0 {
        assert(x[0] == y[0]);
    }
    if k > 1 {
        assert(x[1] == y[1]);
    }
    if k > 2 {
        assert(x[2] == y[2]);
    }
    if k > 3 {
        assert(x[3] == y[3]);
    }
    if k > 4 {
        assert(x[4] == y[4]);
    }
    if k > 5 {
        assert(x[5] == y[5]);
    }
    if k > 6 {
        assert(x[6] == y[6]);
    }
    assert(a.identity_number() < b.identity_number());
}

/// One clock is never better than itself, whatever its datasets say.
pub proof fn clock_does_not_compete_with_itself(a: ClockDataset, b: ClockDataset)
    ensures
        ClockDataset::ordered(a, b) == BmcaOrder::Same <==> a.clock_identity@ == b.clock_identity@,
{
}

/// A message that is refused is refused for what is wrong with it: the header
/// first, its length before its version, then the type, and then the length of the
/// whole.
pub proof fn refusal_names_its_reason(b: Seq<u8>)
    ensures
        PtpHeader::parsed(b) == Err::<PtpHeader, PtpError>(PtpError::TooShort) <==> b.len() < 34,
        PtpHeader::parsed(b) == Err::<PtpHeader, PtpError>(PtpError::BadVersion) <==> b.len() >= 34
            && b[1] % 16 != 2,
        b.len() >= 34 && b[1] % 16 == 2 ==> {
            &&& Announce::parsed(b) == Err::<Announce, PtpError>(PtpError::WrongType) <==> b[0] % 16
                != 11
            &&& TimestampedMsg::parsed(b) == Err::<TimestampedMsg, PtpError>(PtpError::WrongType)
                <==> b[0] % 16 != 0 && b[0] % 16 != 8
            &&& DelayResp::parsed(b) == Err::<DelayResp, PtpError>(PtpError::WrongType) <==> b[0]
                % 16 != 9
            &&& Announce::parsed(b) == Err::<Announce, PtpError>(PtpError::TooShort) <==> b[0] % 16
                == 11 && b.len() < 64
            &&& TimestampedMsg::parsed(b) == Err::<TimestampedMsg, PtpError>(PtpError::TooShort)
                <==> (b[0] % 16 == 0 || b[0] % 16 == 8) && b.len() < 44
            &&& DelayResp::parsed(b) == Err::<DelayResp, PtpError>(PtpError::TooShort) <==> b[0]
                % 16 == 9 && b.len() < 54
        },
{
}

/// A message states its own length, and its control field tells its type as the
/// first version of PTP did: 0 for a Sync, 1 for a Delay_Req, 2 for a Follow_Up,
/// 3 for a Delay_Resp and 5 for everything else.
pub proof fn message_states_its_length(a: Announce, m: TimestampedMsg, d: DelayResp)
    ensures
        a.wire().len() == 64 && a.sent_header().message_length == 64 && a.sent_header().control
            == 5,
        m.wire().len() == 44 && m.sent_header().message_length == 44,
        m.header.message_type == MessageType::Sync ==> m.sent_header().control == 0,
        m.header.message_type == MessageType::FollowUp ==> m.sent_header().control == 2,
        d.wire().len() == 54 && d.sent_header().message_length == 54 && d.sent_header().control
            == 3,
{
    lemma_header_length(a.sent_header());
    lemma_header_length(m.sent_header());
    lemma_header_length(d.sent_header());
    assert(a.gm_identity@.len() == 8);
    assert(d.requesting_port.clock_identity@.len() == 8);
    assert(a.origin_timestamp.wire().len() == 10);
    assert(m.timestamp.wire().len() == 10);
    assert(d.receive_timestamp.wire().len() == 10);
}

proof fn lemma_header_length(h: PtpHeader)
    ensures
        h.wire().len() == 34,
{
    reveal(PtpHeader::wire);
}

/// A request for the delay is sent from the port and in the domain that it names,
/// under its number, with the length of 44 bytes and the control field 1.
pub proof fn request_says_who_asks(
    source: super::wire::PortIdentity,
    sequence_id: u16,
    domain: u8,
)
    ensures
        ({
            let h = super::wire::delay_req_header(source, sequence_id, domain);
            &&& h.message_type == MessageType::DelayReq
            &&& h.version == 2
            &&& h.message_length == 44
            &&& h.wire().len() + 10 == 44
            &&& h.domain == domain
            &&& h.flags == 0
            &&& h.correction == 0
            &&& h.source_port == source
            &&& h.sequence_id == sequence_id
            &&& h.control == 1
            &&& h.log_message_interval == 127
        }),
{
    lemma_header_length(super::wire::delay_req_header(source, sequence_id, domain));
}

} // verus!
