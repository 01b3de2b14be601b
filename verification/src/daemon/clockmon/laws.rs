//! What is kept of satellites and readings, and what is told of the clock.

use super::{
    applied, clock_state, drift_step, gpsd_place, in_window, is_ranking, known_sources, report_in,
    sat_json, sources_view, strongest, used_count, weakness, DriftStatus, DriftStep, GnssSat,
    GnssStatus, GpsdReport, OffsetReading,
};
use crate::daemon::state::NodeInfo;
use crate::json;
use crate::json::{num, text_or_null, txt, JsonView};
use crate::order;
use crate::text;
use vstd::prelude::*;

verus! {

/// Of two satellites whose strength is not negative, the stronger one ranks
/// before the other; one of negative strength ranks behind both.
pub proof fn stronger_ranks_first(a: u64, b: u64, negative: u64)
    requires
        a < b < 0x8000_0000_0000_0000,
        negative > 0x8000_0000_0000_0000,
    ensures
        weakness(b) < weakness(a),
        weakness(a) < weakness(negative),
{
}

/// The strongest satellites are kept, at most 24 of them, the stronger ones
/// first; none that is left out is stronger than one that is kept.
pub proof fn none_left_out_is_stronger(s: Seq<GnssSat>, kept: Seq<GnssSat>, k: int)
    requires
        is_ranking(s, kept),
        forall|i: int| 0 <= i < s.len() ==> (#[trigger] s[i]).snr < 0x8000_0000_0000_0000,
        0 <= k < s.len(),
    ensures
        kept.len() == vstd::math::min(s.len() as int, 24),
        forall|i: int| 0 <= i < kept.len() ==> s.contains(#[trigger] kept[i]),
        forall|i: int, j: int|
            0 <= i < j < kept.len() ==> (#[trigger] kept[i]).snr >= (#[trigger] kept[j]).snr,
        kept.contains(s[k]) || forall|i: int|
            0 <= i < kept.len() ==> (#[trigger] kept[i]).snr >= s[k].snr,
{
    let r = choose|r: Seq<usize>|
        #![trigger strongest(s, r)]
        order::is_order(super::ranks(s), r) && kept == strongest(s, r);
    let keys = super::ranks(s);
    assert forall|i: int| 0 <= i < kept.len() implies s.contains(#[trigger] kept[i]) by {
        assert(kept[i] == s[r[i] as int]);
    }
    assert forall|i: int, j: int| 0 <= i < j < kept.len() implies (#[trigger] kept[i]).snr >= (
    #[trigger] kept[j]).snr by {
        order::smaller_signed_number_stands_first(keys, r, i, j);
        assert(kept[i] == s[r[i] as int]);
        assert(kept[j] == s[r[j] as int]);
    }
    order::nothing_is_left_out(keys, r, k);
    let p = choose|p: int| 0 <= p < r.len() && #[trigger] r[p] == k;
    if p < kept.len() {
        assert(kept[p] == s[k]);
    } else {
        assert forall|i: int| 0 <= i < kept.len() implies (#[trigger] kept[i]).snr >= s[k].snr by {
            order::smaller_signed_number_stands_first(keys, r, i, p);
            assert(kept[i] == s[r[i] as int]);
        }
    }
}

/// A satellite more counts just where it takes part in the solution, wherever it
/// stands.
pub proof fn used_satellites_are_counted(a: Seq<GnssSat>, x: GnssSat, b: Seq<GnssSat>)
    ensures
        used_count(a.push(x) + b) == used_count(a + b) + (if x.used {
            1nat
        } else {
            0nat
        }),
        used_count(Seq::empty()) == 0,
    decreases b.len(),
{
    if b.len() == 0 {
        assert(a.push(x) + b =~= a.push(x));
        assert(a + b =~= a);
        assert(a.push(x).drop_last() =~= a);
    } else {
        used_satellites_are_counted(a, x, b.drop_last());
        assert((a.push(x) + b).drop_last() =~= a.push(x) + b.drop_last());
        assert((a + b).drop_last() =~= a + b.drop_last());
    }
}

/// A satellite says its own number, its strength and whether it is used.
pub proof fn satellite_says_what_it_is(s: GnssSat)
    ensures
        json::says(sat_json(s), "prn"@, num(s.prn as int)),
        json::says(sat_json(s), "snr"@, JsonView::Fraction(s.snr)),
        json::says(sat_json(s), "used"@, JsonView::Bool(s.used)),
{
    reveal_strlit("prn");
    reveal_strlit("snr");
    reveal_strlit("used");
    let o = sat_json(s);
    json::lemma_said(o, 0, 0);
    json::lemma_said(o, 1, 0);
    json::lemma_said(o, 2, 0);
}

/// The receiver says whether data comes, its fix and its time, how many satellites
/// it sees and uses, and each of those that are kept, in their order.
pub proof fn receiver_says_its_fix_and_its_satellites(g: GnssStatus)
    ensures
        json::says(g.as_json(), "connected"@, JsonView::Bool(g.connected)),
        json::says(g.as_json(), "mode"@, num(g.mode as int)),
        json::says(g.as_json(), "time"@, text_or_null(text::optional(g.time))),
        json::says(g.as_json(), "sats_visible"@, num(g.sats_visible as int)),
        json::says(g.as_json(), "sats_used"@, num(g.sats_used as int)),
        json::at(g.as_json(), "sats"@) matches JsonView::Array(a) && a.len() == g.sats@.len()
            && forall|i: int| 0 <= i < a.len() ==> #[trigger] a[i] == sat_json(g.sats@[i]),
{
    reveal_strlit("connected");
    reveal_strlit("mode");
    reveal_strlit("time");
    reveal_strlit("sats_visible");
    reveal_strlit("sats_used");
    reveal_strlit("sats");
    let o = g.as_json();
    json::lemma_said(o, 0, 0);
    json::lemma_said(o, 1, 0);
    json::lemma_said(o, 2, 0);
    json::lemma_said(o, 3, 0);
    json::lemma_said(o, 4, 0);
    json::lemma_said(o, 5, 0);
}

/// The drift says whether there is an estimate, its value in each unit, and what it
/// rests on.
pub proof fn drift_says_its_estimate(d: DriftStatus)
    ensures
        json::says(d.as_json(), "valid"@, JsonView::Bool(d.valid)),
        json::says(d.as_json(), "ppm"@, JsonView::Fraction(d.ppm)),
        json::says(d.as_json(), "hz_at_48k"@, JsonView::Fraction(d.hz_at_48k)),
        json::says(d.as_json(), "percent"@, JsonView::Fraction(d.percent)),
        json::says(d.as_json(), "window_s"@, num(d.window_s as int)),
        json::says(d.as_json(), "samples"@, num(d.samples as int)),
{
    reveal_strlit("valid");
    reveal_strlit("ppm");
    reveal_strlit("hz_at_48k");
    reveal_strlit("percent");
    reveal_strlit("window_s");
    reveal_strlit("samples");
    let o = d.as_json();
    json::lemma_said(o, 0, 0);
    json::lemma_said(o, 1, 0);
    json::lemma_said(o, 2, 0);
    json::lemma_said(o, 3, 0);
    json::lemma_said(o, 4, 0);
    json::lemma_said(o, 5, 0);
}

/// What the readings are after some that were made under lock, one after the
/// other.
pub open spec fn observed(before: Seq<OffsetReading>, came: Seq<OffsetReading>) -> Seq<
    OffsetReading,
>
    decreases came.len(),
{
    if came.len() == 0 {
        before
    } else {
        in_window(observed(before, came.drop_last()).push(came.last()))
    }
}

/// The window holds the last 60 readings, or all where there were fewer, in the
/// order in which they were made.
pub proof fn window_holds_the_last_minute(came: Seq<OffsetReading>)
    ensures
        observed(Seq::empty(), came).len() == vstd::math::min(came.len() as int, 60),
        forall|i: int|
            0 <= i < observed(Seq::empty(), came).len() ==> #[trigger] observed(
                Seq::empty(),
                came,
            )[i] == came[came.len() - observed(Seq::empty(), came).len() + i],
    decreases came.len(),
{
    if came.len() > 0 {
        window_holds_the_last_minute(came.drop_last());
    }
}

/// Under lock an estimate is due just where ten readings were made, and without
/// one it is void.
pub proof fn estimate_takes_ten_readings(n: nat)
    ensures
        drift_step(true, n) == DriftStep::Estimate <==> n >= 10,
        drift_step(true, n) == DriftStep::Wait <==> n < 10,
        drift_step(false, n) == DriftStep::Void,
{
}

/// The clock says its time, whether it is in lock, its drift, its receiver, and the
/// source that was chosen. A master says so, and so does a slave that is no
/// master; without PTP it is the time of the system.
pub proof fn clock_says_where_its_time_comes_from(
    node: NodeInfo,
    ms: u64,
    synced: bool,
    drift: DriftStatus,
    gnss: GnssStatus,
    selected: Seq<char>,
)
    ensures
        json::says(
            clock_state(node, ms, synced, drift, gnss, selected),
            "time_unix_ms"@,
            num(ms as int),
        ),
        json::says(clock_state(node, ms, synced, drift, gnss, selected), "role"@, txt(
                if node.ptp_master {
                    "master"@
                } else if node.ptp_slave {
                    "slave"@
                } else {
                    "system"@
                },
            )),
        json::says(
            clock_state(node, ms, synced, drift, gnss, selected),
            "synced"@,
            JsonView::Bool(synced),
        ),
        json::says(clock_state(node, ms, synced, drift, gnss, selected), "drift"@, drift.as_json()),
        json::says(clock_state(node, ms, synced, drift, gnss, selected), "gnss"@, gnss.as_json()),
        json::says(
            clock_state(node, ms, synced, drift, gnss, selected),
            "selected_source"@,
            txt(selected),
        ),
{
    reveal_strlit("time_unix_ms");
    reveal_strlit("role");
    reveal_strlit("synced");
    reveal_strlit("drift");
    reveal_strlit("gnss");
    reveal_strlit("sources");
    reveal_strlit("selected_source");
    let o = clock_state(node, ms, synced, drift, gnss, selected);
    json::lemma_said(o, 0, 0);
    json::lemma_said(o, 1, 0);
    json::lemma_said(o, 2, 0);
    json::lemma_said(o, 3, 0);
    json::lemma_said(o, 4, 0);
    json::lemma_said(o, 5, 0);
    json::lemma_said(o, 6, 0);
}

/// The sources that are listed are those that can be chosen, each once. Those of
/// the node itself can be used at all times, PTP where the node takes part in it,
/// and GNSS while data comes; those that wait for hardware cannot.
pub proof fn listed_sources_can_be_chosen(ptp: bool, gnss: bool, i: int)
    requires
        0 <= i < 6,
    ensures
        known_sources().len() == 6,
        sources_view(ptp, gnss) matches JsonView::Array(a) && a.len() == 6 && json::says(
            a[i],
            "id"@,
            txt(known_sources()[i]),
        ) && json::says(
            a[i],
            "available"@,
            JsonView::Bool(
                known_sources()[i] == "auto"@ || known_sources()[i] == "system"@ || (
                known_sources()[i] == "ptp"@ && ptp) || (known_sources()[i] == "gnss"@ && gnss),
            ),
        ),
        known_sources().contains("auto"@),
        known_sources().contains("ptp"@),
        known_sources().contains("gnss"@),
        known_sources().contains("system"@),
        known_sources().contains("aes"@),
        known_sources().contains("wcpps"@),
{
    reveal_strlit("id");
    reveal_strlit("available");
    reveal_strlit("auto");
    reveal_strlit("ptp");
    reveal_strlit("gnss");
    reveal_strlit("system");
    reveal_strlit("aes");
    reveal_strlit("wcpps");
    let s = known_sources();
    assert(s[0] == "auto"@ && s[1] == "ptp"@ && s[2] == "gnss"@ && s[3] == "system"@ && s[4]
        == "aes"@ && s[5] == "wcpps"@);
    assert("auto"@[0] == 'a' && "gnss"@[0] == 'g');
    assert("ptp"@[0] == 'p' && "aes"@[0] == 'a');
    let o = sources_view(ptp, gnss)->Array_0[i];
    json::lemma_said(o, 0, 0);
    json::lemma_said(o, 1, 0);
}

/// `gpsd` is asked where the text says, unless that is `off` in letters of any
/// size; without a text, or with white space alone, it is asked on this machine.
pub proof fn gpsd_is_asked_where_the_text_says(a: Seq<char>, s: Seq<char>, b: Seq<char>)
    requires
        s.len() > 0,
        forall|i: int| 0 <= i < a.len() ==> text::is_space(#[trigger] a[i]),
        forall|i: int| 0 <= i < b.len() ==> text::is_space(#[trigger] b[i]),
        !text::is_space(s[0]),
        !text::is_space(s.last()),
    ensures
        (a + s + b).len() != 3 ==> gpsd_place(Some(a + s + b)) == Some(a + s + b),
        gpsd_place(None) == Some("127.0.0.1:2947"@),
        gpsd_place(Some(Seq::empty())) == Some("127.0.0.1:2947"@),
        gpsd_place(Some("off"@)) is None,
        gpsd_place(Some("OFF"@)) is None,
        gpsd_place(Some("Off"@)) is None,
{
    reveal_strlit("off");
    reveal_strlit("OFF");
    reveal_strlit("Off");
    text::laws::trimming_takes_white_space_off(a, s, b);
    assert(text::lower("off"@) =~= "off"@);
    assert(text::lower("OFF"@) =~= "off"@);
    assert(text::lower("Off"@) =~= "off"@);
    assert(text::lower(a + s + b).len() == (a + s + b).len());
    let none = Seq::<char>::empty();
    assert(text::lower(none).len() == 0);
    assert(text::trimmed(none) =~= none);
}

/// A report of the class `TPV` is a fix with the mode and the time that it gives,
/// one of the class `SKY` holds every satellite that it lists, with its number,
/// its strength and whether it is used, and any other one is passed over.
pub proof fn report_says_what_its_line_says(line: Seq<char>, r: GpsdReport, i: int)
    requires
        report_in(line, r),
    ensures
        json::text_in(line, "/class"@) == Some("TPV"@) ==> (r matches GpsdReport::Fix { mode, time }
            && (json::unsigned_in(line, "/mode"@) matches Some(n) ==> mode == n % 0x100) && (
        json::unsigned_in(line, "/mode"@) is None ==> mode == 0) && text::optional(time)
            == json::text_in(line, "/time"@)),
        json::text_in(line, "/class"@) == Some("SKY"@) ==> (r matches GpsdReport::Sky { sats } && (
        json::array_len_in(line, "/satellites"@) matches Some(n) ==> sats@.len() == n) && (
        json::array_len_in(line, "/satellites"@) is None ==> sats@.len() == 0) && (0 <= i
            < sats@.len() ==> ({
            let at = "/satellites/"@ + text::decimal(i as nat);
            &&& json::unsigned_in(line, at + "/PRN"@) matches Some(n) ==> sats@[i].prn == n
                % 0x1_0000
            &&& json::unsigned_in(line, at + "/PRN"@) is None ==> sats@[i].prn == 0
            &&& json::fraction_bits_in(line, at + "/ss"@) matches Some(b) ==> sats@[i].snr == b
            &&& json::fraction_bits_in(line, at + "/ss"@) is None ==> sats@[i].snr == 0
            &&& sats@[i].used == (json::bool_in(line, at + "/used"@) == Some(true))
        }))),
        json::text_in(line, "/class"@) != Some("TPV"@) && json::text_in(line, "/class"@) != Some(
            "SKY"@,
        ) ==> r is Other,
{
    reveal_strlit("TPV");
    reveal_strlit("SKY");
    assert("TPV"@[0] == 'T' && "SKY"@[0] == 'S');
}

/// A fix sets mode and time and leaves the satellites alone; a view of the sky
/// sets the satellites, counts all that it lists as visible, and leaves mode and
/// time alone. Both show that data comes, and anything else changes nothing.
pub proof fn report_sets_what_it_speaks_of(
    before: GnssStatus,
    report: GpsdReport,
    after: GnssStatus,
)
    requires
        applied(before, report, after),
    ensures
        report matches GpsdReport::Fix { mode, time } ==> after.connected && after.mode == mode
            && after.time == time && after.sats == before.sats && after.sats_visible
            == before.sats_visible && after.sats_used == before.sats_used,
        report matches GpsdReport::Sky { sats } ==> after.connected && after.sats_visible
            == sats@.len() && after.sats@.len() == vstd::math::min(sats@.len() as int, 24)
            && after.sats_used <= after.sats@.len() && after.mode == before.mode && after.time
            == before.time,
        report is Other ==> after == before,
{
    if let GpsdReport::Sky { sats } = report {
        super::strongest_come_first(sats@, after.sats@);
        lemma_used_at_most(after.sats@);
        let r = choose|r: Seq<usize>|
            #![trigger strongest(sats@, r)]
            order::is_order(super::ranks(sats@), r) && after.sats@ == strongest(sats@, r);
        assert(after.sats@.len() == vstd::math::min(sats@.len() as int, 24));
    }
}

proof fn lemma_used_at_most(s: Seq<GnssSat>)
    ensures
        used_count(s) <= s.len(),
    decreases s.len(),
{
    if s.len() > 0 {
        lemma_used_at_most(s.drop_last());
    }
}

} // verus!
