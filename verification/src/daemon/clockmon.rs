//! The reference clock, for its display: the state of the GNSS receiver as
//! `gpsd` reports it, the window over which the drift of the local clock is
//! estimated, and the sources to choose from.

pub mod laws;

use super::state::NodeInfo;
use crate::json;
use crate::json::{empty, none, num, text_or_null, txt, Json, JsonView};
use crate::order;
use crate::text;
use vstd::prelude::*;

verus! {

// ---------------------------------------------------------------------------
// GNSS
// ---------------------------------------------------------------------------
/// Most satellites that are kept.
pub const MAX_SATS: usize = 24;

/// A satellite.
#[derive(Debug, Clone, Copy, PartialEq, Eq)]
pub struct GnssSat {
    /// Number of the satellite.
    pub prn: u16,
    /// Signal to noise in dB-Hz (0 where it was not measured): the bits of a
    /// binary fraction of 64 bits.
    pub snr: u64,
    /// Whether it takes part in the solution.
    pub used: bool,
}

/// The state of the GNSS receiver.
#[derive(Debug)]
pub struct GnssStatus {
    /// `gpsd` can be reached, and data comes.
    pub connected: bool,
    /// Fix: none (0 or 1), in two dimensions (2) or three (3).
    pub mode: u8,
    /// Time of the receiver, if there is a fix.
    pub time: Option<String>,
    pub sats_visible: usize,
    pub sats_used: usize,
    /// The satellites, the strongest first.
    pub sats: Vec<GnssSat>,
}

/// A report of `gpsd`.
#[derive(Debug)]
pub enum GpsdReport {
    /// Fix and time.
    Fix { mode: u8, time: Option<String> },
    /// Satellites, in the order of the report.
    Sky { sats: Vec<GnssSat> },
    /// Anything else.
    Other,
}

/// A number by which satellites rank: the stronger, the smaller. The bits of a
/// fraction that is not negative rise with it; those of a negative one fall.
pub open spec fn weakness(snr: u64) -> i64 {
    if snr < 0x8000_0000_0000_0000 {
        -snr as i64
    } else {
        (snr - 0x8000_0000_0000_0000) as i64
    }
}

fn rank(snr: u64) -> (k: i64)
    ensures
        k == weakness(snr),
{
    if snr < 0x8000_0000_0000_0000 {
        -(snr as i64)
    } else {
        (snr - 0x8000_0000_0000_0000) as i64
    }
}

/// The ranks of satellites.
pub open spec fn ranks(s: Seq<GnssSat>) -> Seq<i64> {
    s.map_values(|x: GnssSat| weakness(x.snr))
}

/// The number of satellites that take part in the solution.
pub open spec fn used_count(s: Seq<GnssSat>) -> nat
    decreases s.len(),
{
    if s.len() == 0 {
        0
    } else {
        used_count(s.drop_last()) + if s.last().used {
            1nat
        } else {
            0nat
        }
    }
}

/// The first satellites in this order, no more than are kept.
pub open spec fn strongest(s: Seq<GnssSat>, r: Seq<usize>) -> Seq<GnssSat> {
    Seq::new(
        if r.len() < MAX_SATS {
            r.len()
        } else {
            MAX_SATS as nat
        },
        |i: int| s[r[i] as int],
    )
}

/// Whether `kept` are the strongest satellites, in falling order; satellites
/// that are equally strong keep their order.
pub open spec fn is_ranking(s: Seq<GnssSat>, kept: Seq<GnssSat>) -> bool {
    exists|r: Seq<usize>|
        #![trigger strongest(s, r)]
        order::is_order(ranks(s), r) && kept == strongest(s, r)
}

/// The strongest satellites, in falling order.
fn rank_sats(s: &Vec<GnssSat>) -> (kept: Vec<GnssSat>)
    ensures
        is_ranking(s@, kept@),
{
    let mut keys: Vec<i64> = Vec::new();
    let mut i: usize = 0;
    while i < s.len()
        invariant
            i <= s@.len(),
            keys@ == ranks(s@).take(i as int),
        decreases s@.len() - i,
    {
        keys.push(rank(s[i].snr));
        i = i + 1;
        assert(keys@ =~= ranks(s@).take(i as int));
    }
    assert(keys@ =~= ranks(s@));
    let r: Vec<usize> = order::order(&keys);
    let mut kept: Vec<GnssSat> = Vec::new();
    while kept.len() < r.len() && kept.len() < MAX_SATS
        invariant
            order::is_order(ranks(s@), r@),
            kept@.len() <= r@.len(),
            kept@.len() <= MAX_SATS,
            forall|j: int| 0 <= j < kept@.len() ==> kept@[j] == s@[r@[j] as int],
        decreases MAX_SATS - kept@.len(),
    {
        kept.push(s[r[kept.len()]]);
    }
    assert(kept@ =~= strongest(s@, r@));
    kept
}

/// The satellites that are kept come in falling order of their strength, and no
/// more are kept than there is room for.
pub proof fn strongest_come_first(s: Seq<GnssSat>, kept: Seq<GnssSat>)
    requires
        is_ranking(s, kept),
    ensures
        kept.len() <= s.len(),
        kept.len() == s.len() || kept.len() == MAX_SATS,
        forall|i: int, j: int|
            0 <= i < j < kept.len() ==> weakness(#[trigger] kept[i].snr) <= weakness(
                #[trigger] kept[j].snr,
            ),
{
    let r = choose|r: Seq<usize>|
        #![trigger strongest(s, r)]
        order::is_order(ranks(s), r) && kept == strongest(s, r);
    assert forall|i: int, j: int| 0 <= i < j < kept.len() implies weakness(
        #[trigger] kept[i].snr,
    ) <= weakness(#[trigger] kept[j].snr) by {
        assert(order::in_order(ranks(s), r[i] as int, r[j] as int));
        assert(kept[i] == s[r[i] as int]);
        assert(kept[j] == s[r[j] as int]);
    }
}

/// Counts the satellites that take part in the solution.
fn count_used(s: &Vec<GnssSat>) -> (n: usize)
    ensures
        n == used_count(s@),
{
    let mut n: usize = 0;
    let mut i: usize = 0;
    assert(s@.take(0) =~= Seq::empty());
    while i < s.len()
        invariant
            i <= s@.len(),
            n <= i,
            n == used_count(s@.take(i as int)),
        decreases s@.len() - i,
    {
        assert(s@.take(i + 1).drop_last() =~= s@.take(i as int));
        if s[i].used {
            n = n + 1;
        }
        i = i + 1;
    }
    assert(s@.take(i as int) =~= s@);
    n
}

impl Default for GnssStatus {
    fn default() -> (g: Self)
        ensures
            !g.connected,
            g.mode == 0,
            g.time is None,
            g.sats_visible == 0,
            g.sats_used == 0,
            g.sats@ == Seq::<GnssSat>::empty(),
    {
        GnssStatus {
            connected: false,
            mode: 0,
            time: None,
            sats_visible: 0,
            sats_used: 0,
            sats: Vec::new(),
        }
    }
}

/// Whether `after` is what becomes of the state `before` with a report.
pub open spec fn applied(before: GnssStatus, report: GpsdReport, after: GnssStatus) -> bool {
    match report {
        GpsdReport::Fix { mode, time } => after == (GnssStatus {
            connected: true,
            mode,
            time,
            ..before
        }),
        GpsdReport::Sky { sats } => {
            &&& after == (GnssStatus {
                connected: true,
                sats_visible: sats.len(),
                sats_used: after.sats_used,
                sats: after.sats,
                ..before
            })
            &&& is_ranking(sats@, after.sats@)
            &&& after.sats_used == used_count(after.sats@)
        },
        GpsdReport::Other => after == before,
    }
}

/// A satellite, as JSON.
pub open spec fn sat_json(s: GnssSat) -> JsonView {
    empty()
        .with("prn"@, num(s.prn as int))
        .with("snr"@, JsonView::Fraction(s.snr))
        .with("used"@, JsonView::Bool(s.used))
}

impl GnssStatus {
    /// Takes in a report: a fix sets mode and time, a view of the sky sets the
    /// satellites. Both show that data comes; anything else changes nothing.
    pub fn apply(&mut self, report: GpsdReport)
        ensures
            match report {
                GpsdReport::Fix { mode, time } => *final(self) == (GnssStatus {
                    connected: true,
                    mode,
                    time,
                    ..*old(self)
                }),
                GpsdReport::Sky { sats } => {
                    &&& *final(self) == (GnssStatus {
                        connected: true,
                        sats_visible: sats.len(),
                        sats_used: final(self).sats_used,
                        sats: final(self).sats,
                        ..*old(self)
                    })
                    &&& is_ranking(sats@, final(self).sats@)
                    &&& final(self).sats_used == used_count(final(self).sats@)
                },
                GpsdReport::Other => *final(self) == *old(self),
            },
            applied(*old(self), report, *final(self)),
    {
        match report {
            GpsdReport::Fix { mode, time } => {
                self.connected = true;
                self.mode = mode;
                self.time = time;
            },
            GpsdReport::Sky { sats } => {
                let kept: Vec<GnssSat> = rank_sats(&sats);
                self.connected = true;
                self.sats_visible = sats.len();
                self.sats_used = count_used(&kept);
                self.sats = kept;
            },
            GpsdReport::Other => {},
        }
    }

    /// Marks that `gpsd` cannot be reached.
    pub fn lost(&mut self)
        ensures
            *final(self) == (GnssStatus { connected: false, ..*old(self) }),
    {
        self.connected = false;
    }

    /// The state, as JSON.
    pub open spec fn as_json(&self) -> JsonView {
        empty()
            .with("connected"@, JsonView::Bool(self.connected))
            .with("mode"@, num(self.mode as int))
            .with("time"@, text_or_null(text::optional(self.time)))
            .with("sats_visible"@, num(self.sats_visible as int))
            .with("sats_used"@, num(self.sats_used as int))
            .with("sats"@, JsonView::Array(self.sats@.map_values(|s: GnssSat| sat_json(s))))
    }

    /// The state, as JSON.
    pub fn json(&self) -> (j: Json)
        ensures
            j@ == self.as_json(),
    {
        let mut list: Json = json::array();
        let ghost all = self.sats@.map_values(|s: GnssSat| sat_json(s));
        let mut i: usize = 0;
        assert(all.take(0) =~= Seq::empty());
        while i < self.sats.len()
            invariant
                i <= self.sats@.len(),
                all == self.sats@.map_values(|s: GnssSat| sat_json(s)),
                list@ == JsonView::Array(all.take(i as int)),
            decreases self.sats@.len() - i,
        {
            let s: GnssSat = self.sats[i];
            let entry: Json = json::object()
                .with_number("prn", s.prn as u64)
                .with("snr", Json::Fraction(s.snr))
                .with_bool("used", s.used);
            assert(all.take(i + 1) =~= all.take(i as int).push(entry@));
            list = list.item(entry);
            i = i + 1;
        }
        assert(all.take(i as int) =~= all);
        json::object()
            .with_bool("connected", self.connected)
            .with_number("mode", self.mode as u64)
            .with("time", json::optional_text(&self.time))
            .with_number("sats_visible", self.sats_visible as u64)
            .with_number("sats_used", self.sats_used as u64)
            .with("sats", list)
    }
}

/// The place of a field of satellite `i` in a report.
pub open spec fn sat_pointer(i: nat, field: Seq<char>) -> Seq<char> {
    "/satellites/"@ + text::decimal(i) + field
}

fn pointer_to(i: usize, field: &str) -> (s: String)
    ensures
        s@ == sat_pointer(i as nat, field@),
{
    let mut s: String = text::text("/satellites/");
    text::push_decimal(&mut s, i as u64);
    text::push_text(&mut s, field);
    s
}

/// Satellite `i` of a report. What is missing is 0, or unused.
pub open spec fn sat_in(line: Seq<char>, i: nat) -> GnssSat {
    GnssSat {
        prn: match json::unsigned_in(line, sat_pointer(i, "/PRN"@)) {
            Some(n) => (n % 0x1_0000) as u16,
            None => 0,
        },
        snr: match json::fraction_bits_in(line, sat_pointer(i, "/ss"@)) {
            Some(bits) => bits,
            None => 0,
        },
        used: json::bool_in(line, sat_pointer(i, "/used"@)) == Some(true),
    }
}

/// Whether a report is what a line says.
pub open spec fn report_in(line: Seq<char>, r: GpsdReport) -> bool {
    let class = json::text_in(line, "/class"@);
    if class == Some("TPV"@) {
        &&& r matches GpsdReport::Fix { mode, time }
        &&& mode == (match json::unsigned_in(line, "/mode"@) {
            Some(n) => (n % 0x100) as u8,
            None => 0,
        })
        &&& text::optional(time) == json::text_in(line, "/time"@)
    } else if class == Some("SKY"@) {
        &&& r matches GpsdReport::Sky { sats }
        &&& sats@ == Seq::new(
            match json::array_len_in(line, "/satellites"@) {
                Some(n) => n,
                None => 0,
            },
            |i: int| sat_in(line, i as nat),
        )
    } else {
        r is Other
    }
}

/// Reads satellite `i` of a report.
fn read_sat(line: &str, i: usize) -> (s: GnssSat)
    ensures
        s == sat_in(line@, i as nat),
{
    let prn: u16 = match json::unsigned_at(line, pointer_to(i, "/PRN").as_str()) {
        Some(n) => (n % 0x1_0000) as u16,
        None => 0,
    };
    let snr: u64 = match json::fraction_bits_at(line, pointer_to(i, "/ss").as_str()) {
        Some(bits) => bits,
        None => 0,
    };
    let used: bool = match json::bool_at(line, pointer_to(i, "/used").as_str()) {
        Some(b) => b,
        None => false,
    };
    GnssSat { prn, snr, used }
}

/// Reads a line of `gpsd`: a JSON text whose class says what it reports.
pub fn read_report(line: &str) -> (r: GpsdReport)
    ensures
        report_in(line@, r),
{
    let class: String = match json::text_at(line, "/class") {
        Some(c) => c,
        None => {
            return GpsdReport::Other;
        },
    };
    if text::same_text(class.as_str(), "TPV") {
        let mode: u8 = match json::unsigned_at(line, "/mode") {
            Some(n) => (n % 0x100) as u8,
            None => 0,
        };
        let time: Option<String> = json::text_at(line, "/time");
        GpsdReport::Fix { mode, time }
    } else if text::same_text(class.as_str(), "SKY") {
        let n: usize = match json::array_len_at(line, "/satellites") {
            Some(n) => n,
            None => 0,
        };
        let mut sats: Vec<GnssSat> = Vec::new();
        while sats.len() < n
            invariant
                sats@.len() <= n,
                forall|j: int| 0 <= j < sats@.len() ==> sats@[j] == sat_in(line@, j as nat),
            decreases n - sats@.len(),
        {
            sats.push(read_sat(line, sats.len()));
        }
        assert(sats@ =~= Seq::new(n as nat, |i: int| sat_in(line@, i as nat)));
        GpsdReport::Sky { sats }
    } else {
        GpsdReport::Other
    }
}

/// The address of `gpsd` that a text gives.
pub open spec fn gpsd_place(s: Option<Seq<char>>) -> Option<Seq<char>> {
    match s {
        Some(v) => if text::lower(v) == "off"@ {
            None
        } else if text::trimmed(v).len() > 0 {
            Some(v)
        } else {
            Some("127.0.0.1:2947"@)
        },
        None => Some("127.0.0.1:2947"@),
    }
}

/// The address of `gpsd`: `off` in capital or small letters switches it off, and
/// without a text it is the usual one on this machine.
pub fn gpsd_addr(value: &Option<String>) -> (r: Option<String>)
    ensures
        text::optional(r) == (match *value {
            Some(v) => if text::lower(v@) == "off"@ {
                None
            } else if text::trimmed(v@).len() > 0 {
                Some(v@)
            } else {
                Some("127.0.0.1:2947"@)
            },
            None => Some("127.0.0.1:2947"@),
        }),
        text::optional(r) == gpsd_place(text::optional(*value)),
{
    match value {
        Some(v) => {
            let c: Vec<char> = text::chars_of(v.as_str());
            if text::is_text(text::to_lower(c.as_slice()).as_slice(), "off") {
                return None;
            }
            if text::trim(c.as_slice()).len() > 0 {
                return Some(text::text(v.as_str()));
            }
        },
        None => {},
    }
    Some(text::text("127.0.0.1:2947"))
}

// ---------------------------------------------------------------------------
// Drift
// ---------------------------------------------------------------------------
/// Seconds over which the drift is estimated.
pub const DRIFT_WINDOW: usize = 60;

/// Fewest readings that an estimate takes.
pub const DRIFT_MIN: usize = 10;

/// A reading of the offset, with the time at which it was made.
#[derive(Debug, Clone, Copy, PartialEq, Eq)]
pub struct OffsetReading {
    pub seconds: u64,
    pub nanos: u32,
    pub offset_ns: i64,
}

/// The last readings of the offset.
#[derive(Debug)]
pub struct DriftWindow {
    points: Vec<OffsetReading>,
}

/// What a reading leads to.
#[derive(Debug, Clone, Copy, PartialEq, Eq)]
pub enum DriftStep {
    /// There is no lock: the estimate is void.
    Void,
    /// Too few readings: the estimate stays as it is.
    Wait,
    /// A new estimate is due.
    Estimate,
}

/// The last readings, no more than the window takes.
pub open spec fn in_window(s: Seq<OffsetReading>) -> Seq<OffsetReading> {
    if s.len() <= DRIFT_WINDOW {
        s
    } else {
        s.skip(s.len() - DRIFT_WINDOW)
    }
}

/// What a reading leads to, with `n` readings in the window.
pub open spec fn drift_step(locked: bool, n: nat) -> DriftStep {
    if !locked {
        DriftStep::Void
    } else if n < DRIFT_MIN {
        DriftStep::Wait
    } else {
        DriftStep::Estimate
    }
}

impl DriftWindow {
    /// The readings, the oldest first.
    pub closed spec fn readings(&self) -> Seq<OffsetReading> {
        self.points@
    }

    /// No readings.
    pub fn new() -> (w: Self)
        ensures
            w.readings() == Seq::<OffsetReading>::empty(),
    {
        DriftWindow { points: Vec::new() }
    }

    /// The readings, the oldest first.
    pub fn points(&self) -> (p: &Vec<OffsetReading>)
        ensures
            p@ == self.readings(),
    {
        &self.points
    }

    /// Takes in a reading, once a second. Without a lock all readings are
    /// dropped.
    pub fn observe(&mut self, locked: bool, reading: OffsetReading) -> (step: DriftStep)
        requires
            old(self).readings().len() <= DRIFT_WINDOW,
        ensures
            final(self).readings() == (if locked {
                in_window(old(self).readings().push(reading))
            } else {
                Seq::empty()
            }),
            final(self).readings().len() <= DRIFT_WINDOW,
            step == (if !locked {
                DriftStep::Void
            } else if final(self).readings().len() < DRIFT_MIN {
                DriftStep::Wait
            } else {
                DriftStep::Estimate
            }),
            step == drift_step(locked, final(self).readings().len()),
    {
        if !locked {
            self.points = Vec::new();
            assert(self.readings() =~= Seq::empty());
            return DriftStep::Void;
        }
        self.points.push(reading);
        if self.points.len() > DRIFT_WINDOW {
            let _ = self.points.remove(0);
        }
        assert(self.readings() =~= in_window(old(self).readings().push(reading)));
        if self.points.len() < DRIFT_MIN {
            DriftStep::Wait
        } else {
            DriftStep::Estimate
        }
    }
}

/// The estimated drift. Fractions are given by the bits of a binary fraction of
/// 64 bits.
#[derive(Debug, Clone, Copy, PartialEq, Eq)]
pub struct DriftStatus {
    /// There are enough readings for an estimate.
    pub valid: bool,
    /// Drift in ppm; above zero, the local clock is too fast.
    pub ppm: u64,
    /// The same for a media clock of 48 kHz, in Hz.
    pub hz_at_48k: u64,
    /// The same in percent.
    pub percent: u64,
    /// Length of the window in seconds.
    pub window_s: u64,
    pub samples: usize,
}

impl Default for DriftStatus {
    fn default() -> (d: Self)
        ensures
            d == (DriftStatus {
                valid: false,
                ppm: 0,
                hz_at_48k: 0,
                percent: 0,
                window_s: 0,
                samples: 0,
            }),
    {
        DriftStatus { valid: false, ppm: 0, hz_at_48k: 0, percent: 0, window_s: 0, samples: 0 }
    }
}

impl DriftStatus {
    /// The estimate, as JSON.
    pub open spec fn as_json(self) -> JsonView {
        empty()
            .with("valid"@, JsonView::Bool(self.valid))
            .with("ppm"@, JsonView::Fraction(self.ppm))
            .with("hz_at_48k"@, JsonView::Fraction(self.hz_at_48k))
            .with("percent"@, JsonView::Fraction(self.percent))
            .with("window_s"@, num(self.window_s as int))
            .with("samples"@, num(self.samples as int))
    }

    /// The estimate, as JSON.
    pub fn json(&self) -> (j: Json)
        ensures
            j@ == self.as_json(),
    {
        json::object()
            .with_bool("valid", self.valid)
            .with("ppm", Json::Fraction(self.ppm))
            .with("hz_at_48k", Json::Fraction(self.hz_at_48k))
            .with("percent", Json::Fraction(self.percent))
            .with_number("window_s", self.window_s)
            .with_number("samples", self.samples as u64)
    }
}

// ---------------------------------------------------------------------------
// Sources
// ---------------------------------------------------------------------------
/// The reference sources that are known.
pub open spec fn known_sources() -> Seq<Seq<char>> {
    seq!["auto"@, "ptp"@, "gnss"@, "system"@, "aes"@, "wcpps"@]
}

/// A source and whether it can be used now, as JSON.
pub open spec fn source_json(id: Seq<char>, available: bool) -> JsonView {
    empty().with("id"@, txt(id)).with("available"@, JsonView::Bool(available))
}

/// The sources with their state. The last two wait for hardware.
pub open spec fn sources_view(ptp: bool, gnss: bool) -> JsonView {
    none()
        .item(source_json("auto"@, true))
        .item(source_json("ptp"@, ptp))
        .item(source_json("gnss"@, gnss))
        .item(source_json("system"@, true))
        .item(source_json("aes"@, false))
        .item(source_json("wcpps"@, false))
}

fn source_entry(id: &str, available: bool) -> (j: Json)
    ensures
        j@ == source_json(id@, available),
{
    json::object().with_text("id", id).with_bool("available", available)
}

/// The sources with their state.
pub fn sources_json(node: &NodeInfo, gnss_connected: bool) -> (j: Json)
    ensures
        j@ == sources_view(node.ptp_slave || node.ptp_master, gnss_connected),
{
    json::array()
        .item(source_entry("auto", true))
        .item(source_entry("ptp", node.ptp_slave || node.ptp_master))
        .item(source_entry("gnss", gnss_connected))
        .item(source_entry("system", true))
        .item(source_entry("aes", false))
        .item(source_entry("wcpps", false))
}

/// A request to choose a reference source.
#[derive(Debug)]
pub struct SourceRequest {
    pub id: String,
}

/// Whether a source is known.
pub fn is_known_source(id: &str) -> (r: bool)
    ensures
        r == known_sources().contains(id@),
{
    let known: bool = text::same_text(id, "auto") || text::same_text(id, "ptp") || text::same_text(
        id,
        "gnss",
    ) || text::same_text(id, "system") || text::same_text(id, "aes") || text::same_text(
        id,
        "wcpps",
    );
    proof {
        let k = known_sources();
        assert(k[0] == "auto"@ && k[1] == "ptp"@ && k[2] == "gnss"@ && k[3] == "system"@ && k[4]
            == "aes"@ && k[5] == "wcpps"@);
        if known {
            assert(k.contains(id@));
        }
    }
    known
}

/// Chooses a reference source. Only a known one can be chosen; any other leaves
/// the choice as it is, and is answered with status 400.
pub fn set_source(selected: &mut String, req: SourceRequest) -> (r: Result<Json, (u16, String)>)
    ensures
        if known_sources().contains(req.id@) {
            &&& final(selected)@ == req.id@
            &&& r matches Ok(j) && j@ == empty().with("selected_source"@, txt(req.id@))
        } else {
            &&& *final(selected) == *old(selected)
            &&& r matches Err(e) && e.0 == 400 && e.1@ == "unbekannte Quelle: "@ + req.id@
        },
{
    if !is_known_source(req.id.as_str()) {
        return Err((400, text::cat("unbekannte Quelle: ", req.id.as_str())));
    }
    let reply: Json = json::object().with_text("selected_source", req.id.as_str());
    *selected = req.id;
    Ok(reply)
}

/// The role of the node for the clock.
pub open spec fn clock_role(node: NodeInfo) -> Seq<char> {
    if node.ptp_master {
        "master"@
    } else if node.ptp_slave {
        "slave"@
    } else {
        "system"@
    }
}

/// The clock, as JSON: the time of the node, its role, drift, GNSS and sources.
pub open spec fn clock_state(
    node: NodeInfo,
    time_unix_ms: u64,
    synced: bool,
    drift: DriftStatus,
    gnss: GnssStatus,
    selected: Seq<char>,
) -> JsonView {
    empty()
        .with("time_unix_ms"@, num(time_unix_ms as int))
        .with("role"@, txt(clock_role(node)))
        .with("synced"@, JsonView::Bool(synced))
        .with("drift"@, drift.as_json())
        .with("gnss"@, gnss.as_json())
        .with("sources"@, sources_view(node.ptp_slave || node.ptp_master, gnss.connected))
        .with("selected_source"@, txt(selected))
}

/// The clock, as JSON: the time of the node, its role, drift, GNSS and sources.
pub fn clock_json(
    node: &NodeInfo,
    time_unix_ms: u64,
    synced: bool,
    drift: &DriftStatus,
    gnss: &GnssStatus,
    selected: &str,
) -> (j: Json)
    ensures
        j@ == empty()
            .with("time_unix_ms"@, num(time_unix_ms as int))
            .with("role"@, txt(clock_role(*node)))
            .with("synced"@, JsonView::Bool(synced))
            .with("drift"@, drift.as_json())
            .with("gnss"@, gnss.as_json())
            .with("sources"@, sources_view(node.ptp_slave || node.ptp_master, gnss.connected))
            .with("selected_source"@, txt(selected@)),
        j@ == clock_state(*node, time_unix_ms, synced, *drift, *gnss, selected@),
{
    let role: &str = if node.ptp_master {
        "master"
    } else if node.ptp_slave {
        "slave"
    } else {
        "system"
    };
    json::object()
        .with_number("time_unix_ms", time_unix_ms)
        .with_text("role", role)
        .with_bool("synced", synced)
        .with("drift", drift.json())
        .with("gnss", gnss.json())
        .with("sources", sources_json(node, gnss.connected))
        .with_text("selected_source", selected)
}

} // verus!
