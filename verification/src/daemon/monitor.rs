//! Devices and traffic, as far as the node sees them anyway: SAP and PTP, since
//! it joins both groups, and RTP of the streams that it receives. Every sender
//! is a device, with the best name known of it and counters for each protocol.

pub mod laws;

use super::state;
use super::table;
use super::table::Table;
use crate::bytes;
use crate::ipv4;
use crate::json;
use crate::json::{empty, none, num, text_or_null, txt, Json, JsonView};
use crate::order;
use crate::text;
use vstd::prelude::*;

verus! {

/// A protocol that is observed.
#[derive(Debug, Clone, Copy, PartialEq, Eq, PartialOrd, Ord)]
pub enum Proto {
    Sap,
    Ptp,
    Rtp,
}

impl Proto {
    /// The name of the protocol.
    pub open spec fn label(self) -> Seq<char> {
        match self {
            Proto::Sap => "sap"@,
            Proto::Ptp => "ptp"@,
            Proto::Rtp => "rtp"@,
        }
    }

    /// The name of the protocol.
    pub fn as_str(self) -> (s: &'static str)
        ensures
            s@ == self.label(),
    {
        match self {
            Proto::Sap => "sap",
            Proto::Ptp => "ptp",
            Proto::Rtp => "rtp",
        }
    }
}

// ---------------------------------------------------------------------------
// Counters
// ---------------------------------------------------------------------------
/// A number of 64 bits, which wraps around.
pub open spec fn wrap(n: int) -> u64 {
    (n % 0x1_0000_0000_0000_0000) as u64
}

/// Packets and bytes.
#[derive(Debug, Clone, Copy, PartialEq, Eq)]
pub struct Counter {
    pub packets: u64,
    pub bytes: u64,
}

impl Counter {
    /// Nothing counted.
    pub open spec fn zero() -> Counter {
        Counter { packets: 0, bytes: 0 }
    }

    /// Both together.
    pub open spec fn plus(self, other: Counter) -> Counter {
        Counter {
            packets: wrap(self.packets + other.packets),
            bytes: wrap(self.bytes + other.bytes),
        }
    }

    /// What is left without the other.
    pub open spec fn minus(self, other: Counter) -> Counter {
        Counter {
            packets: wrap(self.packets - other.packets),
            bytes: wrap(self.bytes - other.bytes),
        }
    }

    fn and(self, other: Counter) -> (c: Counter)
        ensures
            c == self.plus(other),
    {
        Counter {
            packets: self.packets.wrapping_add(other.packets),
            bytes: self.bytes.wrapping_add(other.bytes),
        }
    }

    fn since(self, other: Counter) -> (c: Counter)
        ensures
            c == self.minus(other),
    {
        Counter {
            packets: self.packets.wrapping_sub(other.packets),
            bytes: self.bytes.wrapping_sub(other.bytes),
        }
    }
}

/// The counters of a protocol: in all, over the last second, and as they were at
/// the last tick.
#[derive(Debug, Clone, Copy, PartialEq, Eq)]
pub struct Stat {
    pub total: Counter,
    pub rate: Counter,
    pub snap: Counter,
}

impl Stat {
    /// Nothing counted.
    pub open spec fn zero() -> Stat {
        Stat { total: Counter::zero(), rate: Counter::zero(), snap: Counter::zero() }
    }

    /// With a datagram more.
    pub open spec fn with(self, bytes: u64) -> Stat {
        Stat { total: self.total.plus(Counter { packets: 1, bytes }), ..self }
    }

    /// After a tick: the rate is what came since the last one.
    pub open spec fn ticked(self) -> Stat {
        Stat { total: self.total, rate: self.total.minus(self.snap), snap: self.total }
    }

    /// The sum of two.
    pub open spec fn plus(self, other: Stat) -> Stat {
        Stat {
            total: self.total.plus(other.total),
            rate: self.rate.plus(other.rate),
            snap: self.snap.plus(other.snap),
        }
    }

    fn none() -> (s: Stat)
        ensures
            s == Stat::zero(),
    {
        let c = Counter { packets: 0, bytes: 0 };
        Stat { total: c, rate: c, snap: c }
    }

    /// Counts a datagram.
    pub fn add(&mut self, bytes: usize)
        ensures
            *final(self) == old(self).with(bytes as u64),
    {
        self.total = self.total.and(Counter { packets: 1, bytes: bytes as u64 });
    }

    /// Takes the rate since the last tick; to be called once a second.
    pub fn tick(&mut self)
        ensures
            *final(self) == old(self).ticked(),
    {
        self.rate = self.total.since(self.snap);
        self.snap = self.total;
    }

    /// The counters, as JSON.
    pub open spec fn as_json(self) -> JsonView {
        empty()
            .with("packets"@, num(self.total.packets as int))
            .with("bytes"@, num(self.total.bytes as int))
            .with("pps"@, num(self.rate.packets as int))
            .with("bps"@, num(self.rate.bytes as int))
    }

    /// The counters, as JSON.
    pub fn json(&self) -> (j: Json)
        ensures
            j@ == self.as_json(),
    {
        json::object()
            .with_number("packets", self.total.packets)
            .with_number("bytes", self.total.bytes)
            .with_number("pps", self.rate.packets)
            .with_number("bps", self.rate.bytes)
    }

    fn and(self, other: Stat) -> (s: Stat)
        ensures
            s == self.plus(other),
    {
        Stat {
            total: self.total.and(other.total),
            rate: self.rate.and(other.rate),
            snap: self.snap.and(other.snap),
        }
    }
}

/// The counters of each protocol that was seen.
#[derive(Debug, Clone, Copy, PartialEq, Eq)]
pub struct Stats {
    pub sap: Option<Stat>,
    pub ptp: Option<Stat>,
    pub rtp: Option<Stat>,
}

/// The counters behind an option; all zero where there are none.
pub open spec fn or_zero(s: Option<Stat>) -> Stat {
    match s {
        Some(x) => x,
        None => Stat::zero(),
    }
}

fn stat_or_zero(s: Option<Stat>) -> (x: Stat)
    ensures
        x == or_zero(s),
{
    match s {
        Some(x) => x,
        None => Stat::none(),
    }
}

/// The counters with a datagram more.
pub open spec fn counted(s: Option<Stat>, bytes: u64) -> Option<Stat> {
    Some(or_zero(s).with(bytes))
}

fn count(s: Option<Stat>, bytes: usize) -> (r: Option<Stat>)
    ensures
        r == counted(s, bytes as u64),
{
    let mut x: Stat = stat_or_zero(s);
    x.add(bytes);
    Some(x)
}

/// The counters after a tick.
pub open spec fn ticked(s: Option<Stat>) -> Option<Stat> {
    match s {
        Some(x) => Some(x.ticked()),
        None => None,
    }
}

fn tick_one(s: Option<Stat>) -> (r: Option<Stat>)
    ensures
        r == ticked(s),
{
    match s {
        Some(before) => {
            let mut x: Stat = before;
            x.tick();
            Some(x)
        },
        None => None,
    }
}

/// The object with one member more where there are counters.
pub open spec fn with_stat(j: JsonView, key: Seq<char>, s: Option<Stat>) -> JsonView {
    match s {
        Some(x) => j.with(key, x.as_json()),
        None => j,
    }
}

/// The array with one name more where there are counters.
pub open spec fn with_name(j: JsonView, name: Seq<char>, s: Option<Stat>) -> JsonView {
    match s {
        Some(x) => j.item(txt(name)),
        None => j,
    }
}

impl Stats {
    /// No protocol seen.
    pub open spec fn zero() -> Stats {
        Stats { sap: None, ptp: None, rtp: None }
    }

    /// The counters of a protocol.
    pub open spec fn of(self, proto: Proto) -> Stat {
        match proto {
            Proto::Sap => or_zero(self.sap),
            Proto::Ptp => or_zero(self.ptp),
            Proto::Rtp => or_zero(self.rtp),
        }
    }

    /// With a datagram more.
    pub open spec fn with(self, proto: Proto, bytes: u64) -> Stats {
        match proto {
            Proto::Sap => Stats { sap: counted(self.sap, bytes), ..self },
            Proto::Ptp => Stats { ptp: counted(self.ptp, bytes), ..self },
            Proto::Rtp => Stats { rtp: counted(self.rtp, bytes), ..self },
        }
    }

    /// After a tick.
    pub open spec fn ticked(self) -> Stats {
        Stats { sap: ticked(self.sap), ptp: ticked(self.ptp), rtp: ticked(self.rtp) }
    }

    /// All protocols together.
    pub open spec fn sum(self) -> Stat {
        or_zero(self.sap).plus(or_zero(self.ptp)).plus(or_zero(self.rtp))
    }

    /// The counters of each protocol, by its name.
    pub open spec fn as_json(self) -> JsonView {
        with_stat(with_stat(with_stat(empty(), "ptp"@, self.ptp), "rtp"@, self.rtp), "sap"@, self.sap)
    }

    /// The names of the protocols seen.
    pub open spec fn names(self) -> JsonView {
        with_name(with_name(with_name(none(), "sap"@, self.sap), "ptp"@, self.ptp), "rtp"@, self.rtp)
    }

    fn none() -> (s: Stats)
        ensures
            s == Stats::zero(),
    {
        Stats { sap: None, ptp: None, rtp: None }
    }

    fn add(&mut self, proto: Proto, bytes: usize)
        ensures
            *final(self) == old(self).with(proto, bytes as u64),
    {
        match proto {
            Proto::Sap => {
                self.sap = count(self.sap, bytes);
            },
            Proto::Ptp => {
                self.ptp = count(self.ptp, bytes);
            },
            Proto::Rtp => {
                self.rtp = count(self.rtp, bytes);
            },
        }
    }

    fn tick(&mut self)
        ensures
            *final(self) == old(self).ticked(),
    {
        self.sap = tick_one(self.sap);
        self.ptp = tick_one(self.ptp);
        self.rtp = tick_one(self.rtp);
    }

    fn total(&self) -> (s: Stat)
        ensures
            s == self.sum(),
    {
        stat_or_zero(self.sap).and(stat_or_zero(self.ptp)).and(stat_or_zero(self.rtp))
    }

    fn json(&self) -> (j: Json)
        ensures
            j@ == self.as_json(),
    {
        let mut j: Json = json::object();
        match self.ptp {
            Some(s) => {
                j = j.with("ptp", s.json());
            },
            None => {},
        }
        match self.rtp {
            Some(s) => {
                j = j.with("rtp", s.json());
            },
            None => {},
        }
        match self.sap {
            Some(s) => {
                j = j.with("sap", s.json());
            },
            None => {},
        }
        j
    }

    fn names_json(&self) -> (j: Json)
        ensures
            j@ == self.names(),
    {
        let mut j: Json = json::array();
        if self.sap.is_some() {
            j = j.item(json::text_of(Proto::Sap.as_str()));
        }
        if self.ptp.is_some() {
            j = j.item(json::text_of(Proto::Ptp.as_str()));
        }
        if self.rtp.is_some() {
            j = j.item(json::text_of(Proto::Rtp.as_str()));
        }
        j
    }
}

// ---------------------------------------------------------------------------
// Devices
// ---------------------------------------------------------------------------
/// A sender.
#[derive(Debug)]
pub struct Device {
    pub name: Option<String>,
    /// Unix time at which it was seen first; 0 where that is not known.
    pub first_seen: u64,
    /// Unix time at which it was seen last.
    pub last_seen: u64,
    pub protos: Stats,
}

/// A sender, as a value.
pub struct DeviceModel {
    pub name: Option<Seq<char>>,
    pub first_seen: u64,
    pub last_seen: u64,
    pub protos: Stats,
}

impl View for Device {
    type V = DeviceModel;

    open spec fn view(&self) -> DeviceModel {
        DeviceModel {
            name: match self.name {
                Some(n) => Some(n@),
                None => None,
            },
            first_seen: self.first_seen,
            last_seen: self.last_seen,
            protos: self.protos,
        }
    }
}

/// Whether a name is one that was made from a clock identity.
pub open spec fn is_technical(name: Seq<char>) -> bool {
    text::starts(name, "PTP "@)
}

/// The better one of the name known and the name that is hinted at: a name for
/// people replaces one made from a clock identity, and any name replaces none.
pub open spec fn better_name(known: Option<Seq<char>>, hint: Option<Seq<char>>) -> Option<
    Seq<char>,
> {
    match (known, hint) {
        (None, h) => h,
        (Some(k), Some(h)) if is_technical(k) && !is_technical(h) => Some(h),
        (k, _) => k,
    }
}

impl DeviceModel {
    /// A sender of which nothing is known.
    pub open spec fn blank() -> DeviceModel {
        DeviceModel { name: None, first_seen: 0, last_seen: 0, protos: Stats::zero() }
    }

    /// Seen again.
    pub open spec fn seen(self, hint: Option<Seq<char>>, now: u64) -> DeviceModel {
        DeviceModel {
            name: better_name(self.name, hint),
            first_seen: if self.first_seen == 0 {
                now
            } else {
                self.first_seen
            },
            last_seen: now,
            protos: self.protos,
        }
    }

    /// With a datagram more.
    pub open spec fn with(self, proto: Proto, bytes: u64) -> DeviceModel {
        DeviceModel { protos: self.protos.with(proto, bytes), ..self }
    }

    /// The sender, as JSON.
    pub open spec fn as_json(self, ip: u32, now: u64) -> JsonView {
        let sum = self.protos.sum();
        empty()
            .with("ip"@, txt(ipv4::dotted(address_bytes(ip))))
            .with("name"@, text_or_null(self.name))
            .with("protocols"@, self.protos.names())
            .with("packets"@, num(sum.total.packets as int))
            .with("bytes"@, num(sum.total.bytes as int))
            .with("pps"@, num(sum.rate.packets as int))
            .with("bps"@, num(sum.rate.bytes as int))
            .with("by_proto"@, self.protos.as_json())
            .with("first_seen"@, num(self.first_seen as int))
            .with("last_seen"@, num(self.last_seen as int))
            .with(
                "age_s"@,
                num(
                    if now > self.last_seen {
                        now - self.last_seen
                    } else {
                        0
                    },
                ),
            )
    }
}

/// The number of an address: its bytes, the first one in front.
pub open spec fn address_number(ip: Seq<u8>) -> u32 {
    bytes::u32_at(ip, 0)
}

/// The bytes of the address with this number.
pub open spec fn address_bytes(n: u32) -> Seq<u8> {
    bytes::be32(n)
}

/// The number of an address stands for it.
pub proof fn address_comes_back(ip: Seq<u8>)
    requires
        ip.len() == 4,
    ensures
        address_bytes(address_number(ip)) == ip,
{
    let (a, b, c, d) = (ip[0] as int, ip[1] as int, ip[2] as int, ip[3] as int);
    let n = a * 0x100_0000 + b * 0x1_0000 + c * 0x100 + d;
    assert(n / 0x100_0000 == a);
    assert(n / 0x1_0000 == a * 0x100 + b);
    assert(n / 0x100 == a * 0x1_0000 + b * 0x100 + c);
    assert(address_number(ip) == n);
    assert(address_bytes(address_number(ip)) =~= ip);
}

fn number_of(ip: [u8; 4]) -> (n: u32)
    ensures
        n == address_number(ip@),
{
    bytes::get_u32(&ip, 0)
}

fn bytes_of(n: u32) -> (ip: [u8; 4])
    ensures
        ip@ == address_bytes(n),
{
    let mut b: Vec<u8> = Vec::new();
    bytes::push_u32(&mut b, n);
    assert(b@ =~= bytes::be32(n));
    let ip: [u8; 4] = [b[0], b[1], b[2], b[3]];
    assert(ip@ =~= address_bytes(n));
    ip
}

/// Whether the name begins as those do that were made from a clock identity.
fn technical(name: &str) -> (r: bool)
    ensures
        r == is_technical(name@),
{
    text::starts_with(text::chars_of(name).as_slice(), "PTP ")
}

/// What an optional string holds.
pub open spec fn hint_view(s: Option<String>) -> Option<Seq<char>> {
    match s {
        Some(t) => Some(t@),
        None => None,
    }
}

impl Device {
    fn new() -> (d: Device)
        ensures
            d@ == DeviceModel::blank(),
    {
        Device { name: None, first_seen: 0, last_seen: 0, protos: Stats::none() }
    }

    fn copy(&self) -> (d: Device)
        ensures
            d@ == self@,
    {
        let name: Option<String> = match &self.name {
            Some(n) => Some(text::text(n.as_str())),
            None => None,
        };
        Device {
            name,
            first_seen: self.first_seen,
            last_seen: self.last_seen,
            protos: self.protos,
        }
    }

    fn see(&mut self, hint: Option<String>, now: u64)
        ensures
            final(self)@ == old(self)@.seen(hint_view(hint), now),
    {
        if self.first_seen == 0 {
            self.first_seen = now;
        }
        self.last_seen = now;
        match hint {
            Some(h) => {
                let replace: bool = match &self.name {
                    None => true,
                    Some(k) => technical(k.as_str()) && !technical(h.as_str()),
                };
                if replace {
                    self.name = Some(h);
                }
            },
            None => {},
        }
    }

    fn json(&self, ip: u32, now: u64) -> (j: Json)
        ensures
            j@ == self@.as_json(ip, now),
    {
        let sum: Stat = self.protos.total();
        let age: u64 = if now > self.last_seen {
            now - self.last_seen
        } else {
            0
        };
        json::object()
            .with_text("ip", ipv4::dotted_text(bytes_of(ip)).as_str())
            .with("name", json::optional_text(&self.name))
            .with("protocols", self.protos.names_json())
            .with_number("packets", sum.total.packets)
            .with_number("bytes", sum.total.bytes)
            .with_number("pps", sum.rate.packets)
            .with_number("bps", sum.rate.bytes)
            .with("by_proto", self.protos.json())
            .with_number("first_seen", self.first_seen)
            .with_number("last_seen", self.last_seen)
            .with_number("age_s", age)
    }
}

// ---------------------------------------------------------------------------
// The monitor
// ---------------------------------------------------------------------------
/// All senders by their address, and all traffic.
#[derive(Debug)]
pub struct TrafficMonitor {
    devices: Table<u32, Device>,
    totals: Stats,
}

/// The sum of the counters of a protocol over all senders.
pub open spec fn device_sum(s: Seq<(u32, Device)>, proto: Proto) -> Stat
    decreases s.len(),
{
    if s.len() == 0 {
        Stat::zero()
    } else {
        device_sum(s.drop_last(), proto).plus(s.last().1.protos.of(proto))
    }
}

/// What is known of the sender with this address.
pub open spec fn device_at(s: Seq<(u32, Device)>, ip: u32) -> DeviceModel {
    if table::holds(s, ip) {
        table::at(s, ip)@
    } else {
        DeviceModel::blank()
    }
}

/// Whether `after` is `before` with this sender under its address.
pub open spec fn updated(
    before: Seq<(u32, Device)>,
    after: Seq<(u32, Device)>,
    ip: u32,
    d: DeviceModel,
) -> bool {
    exists|x: Device| #![trigger table::put(before, ip, x)]
        x@ == d && after == table::put(before, ip, x)
}

/// The senders in the order of their addresses, as JSON.
pub open spec fn listed(s: Seq<(u32, Device)>, r: Seq<usize>, now: u64) -> Seq<JsonView> {
    Seq::new(r.len(), |i: int| s[r[i] as int].1@.as_json(s[r[i] as int].0, now))
}

/// The addresses of the senders.
pub open spec fn addresses(s: Seq<(u32, Device)>) -> Seq<u32> {
    s.map_values(|e: (u32, Device)| e.0)
}

/// Whether `j` lists the senders in the order of their addresses.
pub open spec fn is_listing(s: Seq<(u32, Device)>, now: u64, j: JsonView) -> bool {
    exists|r: Seq<usize>|
        #![trigger listed(s, r, now)]
        order::is_order(addresses(s), r) && j == JsonView::Array(listed(s, r, now))
}

proof fn lemma_wrap_add(a: int, b: int)
    ensures
        wrap(wrap(a) + b) == wrap(a + b),
        wrap(a + wrap(b)) == wrap(a + b),
{
    vstd::arithmetic::div_mod::lemma_add_mod_noop_right(b, a, 0x1_0000_0000_0000_0000);
    vstd::arithmetic::div_mod::lemma_add_mod_noop_right(a, b, 0x1_0000_0000_0000_0000);
}

proof fn lemma_wrap_sub(a: int, b: int)
    ensures
        wrap(wrap(a) - wrap(b)) == wrap(a - b),
{
    vstd::arithmetic::div_mod::lemma_sub_mod_noop(a, b, 0x1_0000_0000_0000_0000);
}

proof fn lemma_counter_add(a: Counter, b: Counter, c: Counter)
    ensures
        a.plus(b.plus(c)) == a.plus(b).plus(c),
        a.plus(b) == b.plus(a),
        a.plus(Counter::zero()) == a,
{
    lemma_wrap_three(a.packets as int, b.packets as int, c.packets as int);
    lemma_wrap_three(a.bytes as int, b.bytes as int, c.bytes as int);
    lemma_wrap_small(a.packets);
    lemma_wrap_small(a.bytes);
}

proof fn lemma_wrap_three(a: int, b: int, c: int)
    ensures
        wrap(a + wrap(b + c)) == wrap(wrap(a + b) + c),
{
    lemma_wrap_add(a + b, c);
    lemma_wrap_add(a, b + c);
    assert((a + b) + c == a + (b + c));
}

proof fn lemma_wrap_small(n: u64)
    ensures
        wrap(n as int) == n,
{
}

proof fn lemma_wrap_four(a: int, b: int, c: int, d: int)
    ensures
        wrap(wrap(a + b) - wrap(c + d)) == wrap(wrap(a - c) + wrap(b - d)),
{
    lemma_wrap_sub(a + b, c + d);
    lemma_wrap_add(a - c, wrap(b - d) as int);
    lemma_wrap_add(a - c, b - d);
}

proof fn lemma_counter_sub(a: Counter, b: Counter, c: Counter, d: Counter)
    ensures
        a.plus(b).minus(c.plus(d)) == a.minus(c).plus(b.minus(d)),
{
    lemma_wrap_four(a.packets as int, b.packets as int, c.packets as int, d.packets as int);
    lemma_wrap_four(a.bytes as int, b.bytes as int, c.bytes as int, d.bytes as int);
}

proof fn lemma_stat_add(a: Stat, b: Stat, bytes: u64)
    ensures
        a.plus(b.with(bytes)) == a.plus(b).with(bytes),
        a.with(bytes).plus(b) == a.plus(b).with(bytes),
        a.plus(Stat::zero()) == a,
{
    let one = Counter { packets: 1, bytes };
    lemma_counter_add(a.total, b.total, one);
    lemma_counter_add(a.total, one, b.total);
    lemma_counter_add(one, b.total, b.total);
    lemma_counter_add(a.rate, b.rate, one);
    lemma_counter_add(a.snap, b.snap, one);
    assert(a.total.plus(one).plus(b.total) == a.total.plus(b.total).plus(one));
}

proof fn lemma_stat_tick(a: Stat, b: Stat)
    ensures
        a.ticked().plus(b.ticked()) == a.plus(b).ticked(),
{
    lemma_counter_sub(a.total, b.total, a.snap, b.snap);
}

/// A sender whose counters of one protocol took in a datagram.
proof fn lemma_sum_update(s: Seq<(u32, Device)>, i: int, d: Device, p: Proto, q: Proto, bytes: u64)
    requires
        0 <= i < s.len(),
        d.protos == s[i].1.protos.with(p, bytes),
    ensures
        device_sum(s.update(i, (s[i].0, d)), q) == (if p == q {
            device_sum(s, q).with(bytes)
        } else {
            device_sum(s, q)
        }),
    decreases s.len(),
{
    let t = s.update(i, (s[i].0, d));
    if i == s.len() - 1 {
        assert(t.drop_last() =~= s.drop_last());
        lemma_stat_add(device_sum(s.drop_last(), q), s.last().1.protos.of(q), bytes);
    } else {
        assert(t.drop_last() =~= s.drop_last().update(i, (s[i].0, d)));
        lemma_sum_update(s.drop_last(), i, d, p, q, bytes);
        lemma_stat_add(device_sum(s.drop_last(), q), s.last().1.protos.of(q), bytes);
    }
}

/// A sender whose counters did not change.
proof fn lemma_sum_same(s: Seq<(u32, Device)>, i: int, d: Device, q: Proto)
    requires
        0 <= i < s.len(),
        d.protos == s[i].1.protos,
    ensures
        device_sum(s.update(i, (s[i].0, d)), q) == device_sum(s, q),
    decreases s.len(),
{
    let t = s.update(i, (s[i].0, d));
    if i == s.len() - 1 {
        assert(t.drop_last() =~= s.drop_last());
    } else {
        assert(t.drop_last() =~= s.drop_last().update(i, (s[i].0, d)));
        lemma_sum_same(s.drop_last(), i, d, q);
    }
}

/// The counters of all senders after a tick.
proof fn lemma_sum_tick(s: Seq<(u32, Device)>, t: Seq<(u32, Device)>, q: Proto)
    requires
        s.len() == t.len(),
        forall|i: int|
            0 <= i < s.len() ==> (#[trigger] t[i]).1.protos == s[i].1.protos.ticked(),
    ensures
        device_sum(t, q) == device_sum(s, q).ticked(),
    decreases s.len(),
{
    if s.len() > 0 {
        assert forall|i: int| 0 <= i < s.len() - 1 implies (#[trigger] t.drop_last()[i]).1.protos
            == s.drop_last()[i].1.protos.ticked() by {
            assert(t[i].1.protos == s[i].1.protos.ticked());
        }
        lemma_sum_tick(s.drop_last(), t.drop_last(), q);
        lemma_stat_tick(device_sum(s.drop_last(), q), s.last().1.protos.of(q));
    }
}

impl Default for TrafficMonitor {
    /// Nothing seen.
    fn default() -> (m: Self)
        ensures
            m.wf(),
            m.senders() == Seq::<(u32, Device)>::empty(),
            m.traffic() == Stats::zero(),
    {
        TrafficMonitor { devices: Table::new(), totals: Stats::none() }
    }
}

impl TrafficMonitor {
    /// The senders.
    pub closed spec fn senders(&self) -> Seq<(u32, Device)> {
        self.devices@
    }

    /// All traffic.
    pub closed spec fn traffic(&self) -> Stats {
        self.totals
    }

    /// There is one entry for each address, and all traffic is that of the
    /// senders together.
    pub open spec fn wf(&self) -> bool {
        &&& table::one_each(self.senders())
        &&& forall|p: Proto| #[trigger] self.traffic().of(p) == device_sum(self.senders(), p)
    }

    /// The sender with this address, or a new one.
    fn device(&self, ip: u32) -> (d: Device)
        ensures
            d@ == device_at(self.senders(), ip),
    {
        match self.devices.get(&ip) {
            Some(d) => d.copy(),
            None => Device::new(),
        }
    }

    /// Counts a datagram at a point in time. `name` is a hint: the name of a
    /// session, or one made from a clock identity.
    pub fn record_at(
        &mut self,
        proto: Proto,
        ip: [u8; 4],
        bytes: usize,
        name: Option<String>,
        now: u64,
    )
        requires
            old(self).wf(),
        ensures
            final(self).wf(),
            updated(
                old(self).senders(),
                final(self).senders(),
                address_number(ip@),
                device_at(old(self).senders(), address_number(ip@)).seen(
                    hint_view(name),
                    now,
                ).with(proto, bytes as u64),
            ),
            final(self).traffic() == old(self).traffic().with(proto, bytes as u64),
    {
        let n: u32 = number_of(ip);
        let ghost before = self.senders();
        let mut d: Device = self.device(n);
        d.see(name, now);
        d.protos.add(proto, bytes);
        self.devices.insert(n, d);
        self.totals.add(proto, bytes);
        proof {
            table::lemma_place(before, n);
            let p = table::place(before, n);
            assert forall|q: Proto| #[trigger] self.traffic().of(q) == device_sum(
                self.senders(),
                q,
            ) by {
                assert(old(self).traffic().of(q) == device_sum(before, q));
                if table::holds(before, n) {
                    lemma_sum_update(before, p, d, proto, q, bytes as u64);
                } else {
                    assert(self.senders().drop_last() =~= before);
                    lemma_stat_add(device_sum(before, q), Stat::zero(), bytes as u64);
                }
            }
            assert(self.senders() == table::put(before, n, d));
        }
    }

    /// Counts a datagram now.
    pub fn record(&mut self, proto: Proto, ip: [u8; 4], bytes: usize, name: Option<String>)
        requires
            old(self).wf(),
        ensures
            final(self).wf(),
            exists|now: u64|
                updated(
                    old(self).senders(),
                    final(self).senders(),
                    address_number(ip@),
                    #[trigger] device_at(old(self).senders(), address_number(ip@)).seen(
                        hint_view(name),
                        now,
                    ).with(proto, bytes as u64),
                ),
            final(self).traffic() == old(self).traffic().with(proto, bytes as u64),
    {
        let now: u64 = state::now_unix();
        self.record_at(proto, ip, bytes, name, now);
    }

    /// Takes in a sender without traffic, at a point in time.
    pub fn note_device_at(&mut self, ip: [u8; 4], name: Option<String>, now: u64)
        requires
            old(self).wf(),
        ensures
            final(self).wf(),
            updated(
                old(self).senders(),
                final(self).senders(),
                address_number(ip@),
                device_at(old(self).senders(), address_number(ip@)).seen(hint_view(name), now),
            ),
            final(self).traffic() == old(self).traffic(),
    {
        let n: u32 = number_of(ip);
        let ghost before = self.senders();
        let mut d: Device = self.device(n);
        d.see(name, now);
        self.devices.insert(n, d);
        proof {
            table::lemma_place(before, n);
            let p = table::place(before, n);
            assert forall|q: Proto| #[trigger] self.traffic().of(q) == device_sum(
                self.senders(),
                q,
            ) by {
                assert(old(self).traffic().of(q) == device_sum(before, q));
                if table::holds(before, n) {
                    lemma_sum_same(before, p, d, q);
                } else {
                    assert(self.senders().drop_last() =~= before);
                    lemma_stat_add(device_sum(before, q), Stat::zero(), 0);
                }
            }
            assert(self.senders() == table::put(before, n, d));
        }
    }

    /// Takes in a sender without traffic, such as one found by its description.
    pub fn note_device(&mut self, ip: [u8; 4], name: Option<String>)
        requires
            old(self).wf(),
        ensures
            final(self).wf(),
            exists|now: u64|
                updated(
                    old(self).senders(),
                    final(self).senders(),
                    address_number(ip@),
                    #[trigger] device_at(old(self).senders(), address_number(ip@)).seen(
                        hint_view(name),
                        now,
                    ),
                ),
            final(self).traffic() == old(self).traffic(),
    {
        let now: u64 = state::now_unix();
        self.note_device_at(ip, name, now);
    }

    /// Takes all rates; to be called once a second.
    pub fn tick(&mut self)
        requires
            old(self).wf(),
        ensures
            final(self).wf(),
            final(self).traffic() == old(self).traffic().ticked(),
            final(self).senders().len() == old(self).senders().len(),
            forall|i: int|
                0 <= i < old(self).senders().len() ==> {
                    let d = (#[trigger] final(self).senders()[i]);
                    let b = old(self).senders()[i];
                    d.0 == b.0 && d.1@ == (DeviceModel { protos: b.1.protos.ticked(), ..b.1@ })
                },
    {
        let ghost before = self.senders();
        let mut i: usize = 0;
        while i < self.devices.len()
            invariant
                i <= self.senders().len(),
                self.senders().len() == before.len(),
                self.totals == old(self).totals,
                table::one_each(self.senders()),
                forall|j: int|
                    0 <= j < i ==> {
                        let d = (#[trigger] self.senders()[j]);
                        d.0 == before[j].0 && d.1@ == (DeviceModel {
                            protos: before[j].1.protos.ticked(),
                            ..before[j].1@
                        })
                    },
                forall|j: int| i <= j < before.len() ==> #[trigger] self.senders()[j] == before[j],
            decreases before.len() - i,
        {
            let mut d: Device = self.devices.value(i).copy();
            d.protos.tick();
            self.devices.replace(i, d);
            i = i + 1;
        }
        self.totals.tick();
        proof {
            assert forall|q: Proto| #[trigger] self.traffic().of(q) == device_sum(
                self.senders(),
                q,
            ) by {
                assert(old(self).traffic().of(q) == device_sum(before, q));
                assert forall|j: int| 0 <= j < before.len() implies (#[trigger] self.senders()[j]).1.protos
                    == before[j].1.protos.ticked() by {
                    assert(self.senders()[j].1@.protos == before[j].1.protos.ticked());
                }
                lemma_sum_tick(before, self.senders(), q);
                lemma_zero_ticks();
            }
        }
    }

    /// The senders at a point in time, by their addresses: name, protocols,
    /// counters, and when they were seen.
    pub fn devices_json_at(&self, now: u64) -> (j: Json)
        ensures
            is_listing(self.senders(), now, j@),
    {
        let mut keys: Vec<u32> = Vec::new();
        let mut i: usize = 0;
        while i < self.devices.len()
            invariant
                i <= self.senders().len(),
                keys@ == addresses(self.senders()).take(i as int),
            decreases self.senders().len() - i,
        {
            keys.push(*self.devices.key(i));
            i = i + 1;
            assert(keys@ =~= addresses(self.senders()).take(i as int));
        }
        assert(keys@ =~= addresses(self.senders()));
        let r: Vec<usize> = order::order(&keys);
        let mut list: Json = json::array();
        let ghost all = listed(self.senders(), r@, now);
        let mut k: usize = 0;
        assert(all.take(0) =~= Seq::empty());
        while k < r.len()
            invariant
                k <= r@.len(),
                order::is_order(addresses(self.senders()), r@),
                all == listed(self.senders(), r@, now),
                list@ == JsonView::Array(all.take(k as int)),
            decreases r@.len() - k,
        {
            let at: usize = r[k];
            let entry: Json = self.devices.value(at).json(*self.devices.key(at), now);
            assert(all.take(k + 1) =~= all.take(k as int).push(entry@));
            list = list.item(entry);
            k = k + 1;
        }
        assert(all.take(k as int) =~= all);
        list
    }

    /// The senders now.
    pub fn devices_json(&self) -> (j: Json)
        ensures
            exists|now: u64| #[trigger] is_listing(self.senders(), now, j@),
    {
        let now: u64 = state::now_unix();
        self.devices_json_at(now)
    }

    /// All traffic, as JSON.
    pub open spec fn traffic_view(&self) -> JsonView {
        let sum = self.traffic().sum();
        empty()
            .with("device_count"@, num(self.senders().len() as int))
            .with("by_proto"@, self.traffic().as_json())
            .with("total"@, sum.as_json())
    }

    /// All traffic: by protocol, and all together.
    pub fn traffic_json(&self) -> (j: Json)
        ensures
            j@ == self.traffic_view(),
    {
        json::object()
            .with_number("device_count", self.devices.len() as u64)
            .with("by_proto", self.totals.json())
            .with("total", self.totals.total().json())
    }
}

proof fn lemma_zero_ticks()
    ensures
        Stat::zero().ticked() == Stat::zero(),
{
}

/// All traffic is that of the senders together, for every protocol and every
/// counter: what is counted for a sender is counted in all, and nothing else is.
pub proof fn traffic_is_that_of_the_senders(m: TrafficMonitor, proto: Proto)
    requires
        m.wf(),
    ensures
        m.traffic().of(proto) == device_sum(m.senders(), proto),
{
}

/// A rate is what came between the last two ticks: a tick after which nothing
/// comes leaves a rate of zero behind at the next one.
pub proof fn quiet_second_has_no_rate(s: Stat)
    ensures
        s.ticked().ticked().rate == Counter::zero(),
        s.ticked().total == s.total,
{
}

/// A name for people stays, whatever comes later, and replaces one that was made
/// from a clock identity.
pub proof fn human_name_stays(known: Option<Seq<char>>, human: Seq<char>, later: Option<Seq<char>>)
    requires
        !is_technical(human),
        known matches Some(k) ==> is_technical(k),
    ensures
        better_name(known, Some(human)) == Some(human),
        better_name(Some(human), later) == Some(human),
{
}

} // verus!
