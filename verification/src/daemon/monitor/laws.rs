//! What the counters of devices and traffic count, and what is told of them.

use super::{
    address_number, better_name, device_at, is_listing, is_technical, listed, updated, Device,
    DeviceModel, Proto, Stat, Stats, TrafficMonitor,
};
use crate::daemon::table;
use crate::ipv4;
use crate::json;
use crate::json::{num, text_or_null, txt, JsonView};
use crate::order;
use vstd::prelude::*;

verus! {

/// The counters after datagrams of these lengths.
pub open spec fn after(s: Stat, came: Seq<u64>) -> Stat
    decreases came.len(),
{
    if came.len() == 0 {
        s
    } else {
        after(s, came.drop_last()).with(came.last())
    }
}

/// The bytes of datagrams together.
pub open spec fn bytes_of(came: Seq<u64>) -> nat
    decreases came.len(),
{
    if came.len() == 0 {
        0
    } else {
        bytes_of(came.drop_last()) + came.last() as nat
    }
}

proof fn lemma_after(s: Stat, came: Seq<u64>)
    ensures
        after(s, came).snap == s.snap,
        after(s, came).rate == s.rate,
        after(s, came).total.packets == (s.total.packets + came.len()) % 0x1_0000_0000_0000_0000,
        after(s, came).total.bytes == (s.total.bytes + bytes_of(came)) % 0x1_0000_0000_0000_0000,
    decreases came.len(),
{
    if came.len() > 0 {
        let init = came.drop_last();
        lemma_after(s, init);
        super::lemma_wrap_add(s.total.packets + init.len(), 1);
        super::lemma_wrap_add(s.total.bytes + bytes_of(init), came.last() as int);
    }
}

proof fn lemma_three(a: int, b: int, c: int)
    ensures
        super::wrap(super::wrap(a + b) + c) == (a + b + c) % 0x1_0000_0000_0000_0000,
{
    super::lemma_wrap_add(a + b, c);
}

/// Every datagram counts once, with all its bytes: the totals rise by the number
/// of datagrams and by their lengths. The rate after a tick is just what came
/// since the tick before. The counters have 64 bits and wrap around.
pub proof fn rate_is_what_came_since_the_last_tick(s: Stat, came: Seq<u64>)
    ensures
        after(s, came).total.packets == (s.total.packets + came.len()) % 0x1_0000_0000_0000_0000,
        after(s, came).total.bytes == (s.total.bytes + bytes_of(came)) % 0x1_0000_0000_0000_0000,
        after(s.ticked(), came).ticked().total == after(s, came).total,
        after(s.ticked(), came).ticked().rate.packets == came.len() % 0x1_0000_0000_0000_0000,
        after(s.ticked(), came).ticked().rate.bytes == bytes_of(came) % 0x1_0000_0000_0000_0000,
        after(s.ticked(), came).rate == s.ticked().rate,
{
    lemma_after(s, came);
    lemma_after(s.ticked(), came);
    let t = after(s.ticked(), came).total;
    super::lemma_wrap_sub(s.total.packets + came.len(), s.total.packets as int);
    super::lemma_wrap_sub(s.total.bytes + bytes_of(came), s.total.bytes as int);
    assert(super::wrap(s.total.packets as int) == s.total.packets);
    assert(super::wrap(s.total.bytes as int) == s.total.bytes);
    assert(t.packets == super::wrap(s.total.packets + came.len()));
    assert(t.bytes == super::wrap(s.total.bytes + bytes_of(came)));
}

proof fn lemma_with(s: Stat, bytes: u64)
    ensures
        s.with(bytes).total.packets == (s.total.packets + 1) % 0x1_0000_0000_0000_0000,
        s.with(bytes).total.bytes == (s.total.bytes + bytes) % 0x1_0000_0000_0000_0000,
        s.with(bytes).rate == s.rate,
{
}

/// A datagram counts for its protocol and for no other one.
pub proof fn datagram_counts_for_its_protocol(t: Stats, p: Proto, q: Proto, bytes: u64)
    ensures
        t.with(p, bytes).of(p).total.packets == (t.of(p).total.packets + 1)
            % 0x1_0000_0000_0000_0000,
        t.with(p, bytes).of(p).total.bytes == (t.of(p).total.bytes + bytes)
            % 0x1_0000_0000_0000_0000,
        t.with(p, bytes).of(p).rate == t.of(p).rate,
        p != q ==> t.with(p, bytes).of(q) == t.of(q),
        t.ticked().of(q) == t.of(q).ticked(),
{
    super::lemma_zero_ticks();
    lemma_with(t.of(p), bytes);
    assert(t.with(p, bytes).of(p) == t.of(p).with(bytes));
}

/// The counters of all protocols together are the sums of those of each.
pub proof fn sum_is_over_all_protocols(t: Stats)
    ensures
        t.sum().total.packets == (t.of(Proto::Sap).total.packets + t.of(Proto::Ptp).total.packets
            + t.of(Proto::Rtp).total.packets) % 0x1_0000_0000_0000_0000,
        t.sum().total.bytes == (t.of(Proto::Sap).total.bytes + t.of(Proto::Ptp).total.bytes + t.of(
            Proto::Rtp,
        ).total.bytes) % 0x1_0000_0000_0000_0000,
        t.sum().rate.packets == (t.of(Proto::Sap).rate.packets + t.of(Proto::Ptp).rate.packets
            + t.of(Proto::Rtp).rate.packets) % 0x1_0000_0000_0000_0000,
        t.sum().rate.bytes == (t.of(Proto::Sap).rate.bytes + t.of(Proto::Ptp).rate.bytes + t.of(
            Proto::Rtp,
        ).rate.bytes) % 0x1_0000_0000_0000_0000,
{
    let a = t.of(Proto::Sap);
    let b = t.of(Proto::Ptp);
    let c = t.of(Proto::Rtp);
    lemma_three(a.total.packets as int, b.total.packets as int, c.total.packets as int);
    lemma_three(a.total.bytes as int, b.total.bytes as int, c.total.bytes as int);
    lemma_three(a.rate.packets as int, b.rate.packets as int, c.rate.packets as int);
    lemma_three(a.rate.bytes as int, b.rate.bytes as int, c.rate.bytes as int);
}

/// Whether a protocol was seen.
pub open spec fn was_seen(t: Stats, p: Proto) -> bool {
    match p {
        Proto::Sap => t.sap is Some,
        Proto::Ptp => t.ptp is Some,
        Proto::Rtp => t.rtp is Some,
    }
}

/// A protocol is named, and its counters are told under its name, just where a
/// datagram of it was counted.
pub proof fn seen_protocols_are_told(t: Stats, p: Proto, q: Proto, bytes: u64)
    ensures
        was_seen(t.with(p, bytes), q) == (p == q || was_seen(t, q)),
        was_seen(t.ticked(), q) == was_seen(t, q),
        !was_seen(Stats::zero(), q),
        t.names() is Array,
        t.names()->Array_0.contains(txt(p.label())) == was_seen(t, p),
        t.sap is Some && t.ptp is Some && t.rtp is Some ==> t.names()->Array_0 == seq![
            txt("sap"@),
            txt("ptp"@),
            txt("rtp"@),
        ],
        was_seen(t, p) ==> json::says(t.as_json(), p.label(), t.of(p).as_json()),
        !was_seen(t, p) ==> json::member(json::members(t.as_json()), p.label()) is None,
        p.label() == (match p {
            Proto::Sap => "sap"@,
            Proto::Ptp => "ptp"@,
            Proto::Rtp => "rtp"@,
        }),
{
    reveal_strlit("sap");
    reveal_strlit("ptp");
    reveal_strlit("rtp");
    assert("sap"@[0] == 's' && "ptp"@[0] == 'p' && "rtp"@[0] == 'r');
    reveal_with_fuel(json::member, 5);
    let n = t.names()->Array_0;
    if was_seen(t, p) {
        let k: int = match p {
            Proto::Sap => 0,
            Proto::Ptp => if t.sap is Some {
                1
            } else {
                0
            },
            Proto::Rtp => n.len() - 1,
        };
        assert(n[k] == txt(p.label()));
    } else {
        assert(forall|i: int| 0 <= i < n.len() ==> n[i] != txt(p.label()));
    }
}

/// Counters say their totals as packets and bytes, and their rates as packets and
/// bytes of a second.
pub proof fn counters_say_what_was_counted(s: Stat)
    ensures
        json::says(s.as_json(), "packets"@, num(s.total.packets as int)),
        json::says(s.as_json(), "bytes"@, num(s.total.bytes as int)),
        json::says(s.as_json(), "pps"@, num(s.rate.packets as int)),
        json::says(s.as_json(), "bps"@, num(s.rate.bytes as int)),
{
    reveal_strlit("packets");
    reveal_strlit("bytes");
    reveal_strlit("pps");
    reveal_strlit("bps");
    let o = s.as_json();
    json::lemma_said(o, 0, 0);
    json::lemma_said(o, 1, 0);
    json::lemma_said(o, 2, 0);
    json::lemma_said(o, 3, 0);
}

/// A device says its own address, its name, the protocols that it was seen with,
/// the counters of all of them together and of each, when it was seen, and for
/// how many seconds it was not.
pub proof fn device_says_what_is_known_of_it(d: DeviceModel, ip: Seq<u8>, now: u64)
    requires
        ip.len() == 4,
    ensures
        json::says(d.as_json(address_number(ip), now), "ip"@, txt(ipv4::dotted(ip))),
        json::says(d.as_json(address_number(ip), now), "name"@, text_or_null(d.name)),
        json::says(d.as_json(address_number(ip), now), "protocols"@, d.protos.names()),
        json::says(
            d.as_json(address_number(ip), now),
            "packets"@,
            num(d.protos.sum().total.packets as int),
        ),
        json::says(
            d.as_json(address_number(ip), now),
            "bytes"@,
            num(d.protos.sum().total.bytes as int),
        ),
        json::says(
            d.as_json(address_number(ip), now),
            "pps"@,
            num(d.protos.sum().rate.packets as int),
        ),
        json::says(
            d.as_json(address_number(ip), now),
            "bps"@,
            num(d.protos.sum().rate.bytes as int),
        ),
        json::says(d.as_json(address_number(ip), now), "by_proto"@, d.protos.as_json()),
        json::says(d.as_json(address_number(ip), now), "first_seen"@, num(d.first_seen as int)),
        json::says(d.as_json(address_number(ip), now), "last_seen"@, num(d.last_seen as int)),
        json::says(
            d.as_json(address_number(ip), now),
            "age_s"@,
            num(vstd::math::max(now - d.last_seen, 0)),
        ),
{
    reveal_strlit("ip");
    reveal_strlit("name");
    reveal_strlit("protocols");
    reveal_strlit("packets");
    reveal_strlit("bytes");
    reveal_strlit("pps");
    reveal_strlit("bps");
    reveal_strlit("by_proto");
    reveal_strlit("first_seen");
    reveal_strlit("last_seen");
    reveal_strlit("age_s");
    let o = d.as_json(address_number(ip), now);
    json::lemma_said(o, 0, 0);
    json::lemma_said(o, 1, 0);
    json::lemma_said(o, 2, 0);
    json::lemma_said(o, 3, 0);
    json::lemma_said(o, 4, 0);
    json::lemma_said(o, 5, 0);
    json::lemma_said(o, 6, 0);
    json::lemma_said(o, 7, 0);
    json::lemma_said(o, 8, 0);
    json::lemma_said(o, 9, 0);
    json::lemma_said(o, 10, 0);
    super::address_comes_back(ip);
}

/// All traffic is told with the number of devices, by protocol and all together.
pub proof fn traffic_says_how_many_devices_there_are(m: TrafficMonitor)
    ensures
        json::says(m.traffic_view(), "device_count"@, num(m.senders().len() as int)),
        json::says(m.traffic_view(), "by_proto"@, m.traffic().as_json()),
        json::says(m.traffic_view(), "total"@, m.traffic().sum().as_json()),
{
    reveal_strlit("device_count");
    reveal_strlit("by_proto");
    reveal_strlit("total");
    let o = m.traffic_view();
    json::lemma_said(o, 0, 0);
    json::lemma_said(o, 1, 0);
    json::lemma_said(o, 2, 0);
}

/// A device keeps the time at which it was seen first, and the one at which it
/// was seen last moves on. To be seen counts nothing.
pub proof fn first_sight_is_kept(
    d: DeviceModel,
    a: Option<Seq<char>>,
    first: u64,
    b: Option<Seq<char>>,
    later: u64,
)
    requires
        first > 0,
    ensures
        d.first_seen > 0 ==> d.seen(b, later).first_seen == d.first_seen,
        DeviceModel::blank().seen(a, first).first_seen == first,
        DeviceModel::blank().seen(a, first).seen(b, later).first_seen == first,
        DeviceModel::blank().name is None,
        d.seen(a, first).seen(b, later).last_seen == later,
        d.seen(b, later).protos == d.protos,
        forall|p: Proto, n: u64|
            (#[trigger] d.with(p, n)).name == d.name && d.with(p, n).first_seen == d.first_seen
                && d.with(p, n).last_seen == d.last_seen && d.with(p, n).protos == d.protos.with(
                p,
                n,
            ),
{
}

/// A name that begins with `PTP ` was made from a clock identity. The first name
/// that is hinted at is taken; a name made from a clock identity replaces none
/// that is known, and no hint changes nothing.
pub proof fn name_is_given_up_for_a_better_one_only(known: Seq<char>, hint: Seq<char>)
    ensures
        is_technical(known) == (known.len() >= 4 && known[0] == 'P' && known[1] == 'T' && known[2]
            == 'P' && known[3] == ' '),
        better_name(None, Some(hint)) == Some(hint),
        better_name(None, None) == None::<Seq<char>>,
        better_name(Some(known), None) == Some(known),
        is_technical(hint) ==> better_name(Some(known), Some(hint)) == Some(known),
        is_technical(known) && !is_technical(hint) ==> better_name(Some(known), Some(hint)) == Some(
            hint,
        ),
        !is_technical(known) ==> better_name(Some(known), Some(hint)) == Some(known),
{
    reveal_strlit("PTP ");
    let p = "PTP "@;
    if known.len() >= 4 && known[0] == 'P' && known[1] == 'T' && known[2] == 'P' && known[3]
        == ' ' {
        assert(known.take(4) =~= p);
    }
    if is_technical(known) {
        assert(known.take(4) =~= p);
        assert(known[0] == known.take(4)[0]);
        assert(known[1] == known.take(4)[1]);
        assert(known[2] == known.take(4)[2]);
        assert(known[3] == known.take(4)[3]);
    }
}

/// The number of an address weighs its first byte most.
pub proof fn addresses_go_by_their_first_byte(ip: Seq<u8>)
    requires
        ip.len() == 4,
    ensures
        address_number(ip) == ip[0] * 0x100_0000 + ip[1] * 0x1_0000 + ip[2] * 0x100 + ip[3],
{
}

/// Every sender is listed once, and they stand in the order of their addresses.
pub proof fn senders_are_listed_by_their_addresses(
    s: Seq<(u32, Device)>,
    now: u64,
    j: JsonView,
    k: int,
    l: int,
)
    requires
        is_listing(s, now, j),
        0 <= k < s.len(),
        0 <= l < s.len(),
        s[k].0 < s[l].0,
    ensures
        j is Array,
        j->Array_0.len() == s.len(),
        exists|a: int, b: int|
            0 <= a < b < s.len() && #[trigger] j->Array_0[a] == s[k].1@.as_json(s[k].0, now)
                && #[trigger] j->Array_0[b] == s[l].1@.as_json(s[l].0, now),
{
    let r = choose|r: Seq<usize>|
        #![trigger listed(s, r, now)]
        order::is_order(super::addresses(s), r) && j == JsonView::Array(listed(s, r, now));
    let keys = super::addresses(s);
    order::nothing_is_left_out(keys, r, k);
    order::nothing_is_left_out(keys, r, l);
    let a = choose|a: int| 0 <= a < r.len() && r[a] == k;
    let b = choose|b: int| 0 <= b < r.len() && r[b] == l;
    if b <= a {
        assert(keys[r[a] as int] == s[k].0);
        assert(keys[r[b] as int] == s[l].0);
        order::smaller_number_stands_first(keys, r, b, a);
    }
    assert(j->Array_0[a] == s[k].1@.as_json(s[k].0, now));
    assert(j->Array_0[b] == s[l].1@.as_json(s[l].0, now));
}

/// A datagram is counted for the sender that it came from, and for no other one;
/// the first one makes a sender known.
pub proof fn datagram_is_counted_for_its_sender(
    before: Seq<(u32, Device)>,
    after: Seq<(u32, Device)>,
    ip: u32,
    other: u32,
    d: DeviceModel,
)
    requires
        updated(before, after, ip, d),
        other != ip,
    ensures
        device_at(after, ip) == d,
        device_at(after, other) == device_at(before, other),
        table::holds(after, ip),
        table::holds(after, other) == table::holds(before, other),
        !table::holds(before, ip) ==> device_at(before, ip) == DeviceModel::blank()
            && after.len() == before.len() + 1,
        table::holds(before, ip) ==> after.len() == before.len(),
{
    let x = choose|x: Device| #![trigger table::put(before, ip, x)]
        x@ == d && after == table::put(before, ip, x);
    table::put_is_found(before, ip, x, other);
    table::lemma_place(before, ip);
}

} // verus!
