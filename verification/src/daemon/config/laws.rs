//! Laws of the configuration: which variable a field of the file stands for, and
//! what the texts of variables mean.

use super::{
    base_profile, channel_count, interface_of, is_node_of, number_field, profile_of, set_byte,
    set_interval, switch_field, switched_on, value_in, with_value, FileConfig, PtpVariables,
    Setting, Variables,
};
use crate::daemon::state::NodeInfo;
use crate::ipv4;
use crate::text;
use vstd::prelude::*;

verus! {

/// One setting more gives its variable its value and leaves the others alone.
proof fn lemma_with_value(s: Seq<Setting>, key: Seq<char>, value: Option<Seq<char>>, at: Seq<char>)
    ensures
        value_in(with_value(s, key, value), at) == (if key == at && value is Some {
            value
        } else {
            value_in(s, at)
        }),
{
    if let Some(v) = value {
        assert(s.push((key, v)).drop_last() =~= s);
    }
}

/// The names of the variables differ, in their length or in the first two letters
/// behind the front that they share.
proof fn lemma_names_differ()
    ensures
        "TAKTWERK_NAME"@ != "TAKTWERK_IFACE"@,
        "TAKTWERK_NAME"@ != "TAKTWERK_HTTP"@,
        "TAKTWERK_NAME"@ != "TAKTWERK_NMOS"@,
        "TAKTWERK_NAME"@ != "TAKTWERK_RTSP"@,
        "TAKTWERK_NAME"@ != "TAKTWERK_CH"@,
        "TAKTWERK_NAME"@ != "TAKTWERK_PTP_SLAVE"@,
        "TAKTWERK_NAME"@ != "TAKTWERK_PTP_MASTER"@,
        "TAKTWERK_NAME"@ != "TAKTWERK_AUDIO"@,
        "TAKTWERK_NAME"@ != "TAKTWERK_AUDIO_IN"@,
        "TAKTWERK_NAME"@ != "TAKTWERK_AUDIO_OUT"@,
        "TAKTWERK_NAME"@ != "TAKTWERK_LOG"@,
        "TAKTWERK_NAME"@ != "TAKTWERK_LOG_FILE"@,
        "TAKTWERK_IFACE"@ != "TAKTWERK_HTTP"@,
        "TAKTWERK_IFACE"@ != "TAKTWERK_NMOS"@,
        "TAKTWERK_IFACE"@ != "TAKTWERK_RTSP"@,
        "TAKTWERK_IFACE"@ != "TAKTWERK_CH"@,
        "TAKTWERK_IFACE"@ != "TAKTWERK_PTP_SLAVE"@,
        "TAKTWERK_IFACE"@ != "TAKTWERK_PTP_MASTER"@,
        "TAKTWERK_IFACE"@ != "TAKTWERK_AUDIO"@,
        "TAKTWERK_IFACE"@ != "TAKTWERK_AUDIO_IN"@,
        "TAKTWERK_IFACE"@ != "TAKTWERK_AUDIO_OUT"@,
        "TAKTWERK_IFACE"@ != "TAKTWERK_LOG"@,
        "TAKTWERK_IFACE"@ != "TAKTWERK_LOG_FILE"@,
        "TAKTWERK_HTTP"@ != "TAKTWERK_NMOS"@,
        "TAKTWERK_HTTP"@ != "TAKTWERK_RTSP"@,
        "TAKTWERK_HTTP"@ != "TAKTWERK_CH"@,
        "TAKTWERK_HTTP"@ != "TAKTWERK_PTP_SLAVE"@,
        "TAKTWERK_HTTP"@ != "TAKTWERK_PTP_MASTER"@,
        "TAKTWERK_HTTP"@ != "TAKTWERK_AUDIO"@,
        "TAKTWERK_HTTP"@ != "TAKTWERK_AUDIO_IN"@,
        "TAKTWERK_HTTP"@ != "TAKTWERK_AUDIO_OUT"@,
        "TAKTWERK_HTTP"@ != "TAKTWERK_LOG"@,
        "TAKTWERK_HTTP"@ != "TAKTWERK_LOG_FILE"@,
        "TAKTWERK_NMOS"@ != "TAKTWERK_RTSP"@,
        "TAKTWERK_NMOS"@ != "TAKTWERK_CH"@,
        "TAKTWERK_NMOS"@ != "TAKTWERK_PTP_SLAVE"@,
        "TAKTWERK_NMOS"@ != "TAKTWERK_PTP_MASTER"@,
        "TAKTWERK_NMOS"@ != "TAKTWERK_AUDIO"@,
        "TAKTWERK_NMOS"@ != "TAKTWERK_AUDIO_IN"@,
        "TAKTWERK_NMOS"@ != "TAKTWERK_AUDIO_OUT"@,
        "TAKTWERK_NMOS"@ != "TAKTWERK_LOG"@,
        "TAKTWERK_NMOS"@ != "TAKTWERK_LOG_FILE"@,
        "TAKTWERK_RTSP"@ != "TAKTWERK_CH"@,
        "TAKTWERK_RTSP"@ != "TAKTWERK_PTP_SLAVE"@,
        "TAKTWERK_RTSP"@ != "TAKTWERK_PTP_MASTER"@,
        "TAKTWERK_RTSP"@ != "TAKTWERK_AUDIO"@,
        "TAKTWERK_RTSP"@ != "TAKTWERK_AUDIO_IN"@,
        "TAKTWERK_RTSP"@ != "TAKTWERK_AUDIO_OUT"@,
        "TAKTWERK_RTSP"@ != "TAKTWERK_LOG"@,
        "TAKTWERK_RTSP"@ != "TAKTWERK_LOG_FILE"@,
        "TAKTWERK_CH"@ != "TAKTWERK_PTP_SLAVE"@,
        "TAKTWERK_CH"@ != "TAKTWERK_PTP_MASTER"@,
        "TAKTWERK_CH"@ != "TAKTWERK_AUDIO"@,
        "TAKTWERK_CH"@ != "TAKTWERK_AUDIO_IN"@,
        "TAKTWERK_CH"@ != "TAKTWERK_AUDIO_OUT"@,
        "TAKTWERK_CH"@ != "TAKTWERK_LOG"@,
        "TAKTWERK_CH"@ != "TAKTWERK_LOG_FILE"@,
        "TAKTWERK_PTP_SLAVE"@ != "TAKTWERK_PTP_MASTER"@,
        "TAKTWERK_PTP_SLAVE"@ != "TAKTWERK_AUDIO"@,
        "TAKTWERK_PTP_SLAVE"@ != "TAKTWERK_AUDIO_IN"@,
        "TAKTWERK_PTP_SLAVE"@ != "TAKTWERK_AUDIO_OUT"@,
        "TAKTWERK_PTP_SLAVE"@ != "TAKTWERK_LOG"@,
        "TAKTWERK_PTP_SLAVE"@ != "TAKTWERK_LOG_FILE"@,
        "TAKTWERK_PTP_MASTER"@ != "TAKTWERK_AUDIO"@,
        "TAKTWERK_PTP_MASTER"@ != "TAKTWERK_AUDIO_IN"@,
        "TAKTWERK_PTP_MASTER"@ != "TAKTWERK_AUDIO_OUT"@,
        "TAKTWERK_PTP_MASTER"@ != "TAKTWERK_LOG"@,
        "TAKTWERK_PTP_MASTER"@ != "TAKTWERK_LOG_FILE"@,
        "TAKTWERK_AUDIO"@ != "TAKTWERK_AUDIO_IN"@,
        "TAKTWERK_AUDIO"@ != "TAKTWERK_AUDIO_OUT"@,
        "TAKTWERK_AUDIO"@ != "TAKTWERK_LOG"@,
        "TAKTWERK_AUDIO"@ != "TAKTWERK_LOG_FILE"@,
        "TAKTWERK_AUDIO_IN"@ != "TAKTWERK_AUDIO_OUT"@,
        "TAKTWERK_AUDIO_IN"@ != "TAKTWERK_LOG"@,
        "TAKTWERK_AUDIO_IN"@ != "TAKTWERK_LOG_FILE"@,
        "TAKTWERK_AUDIO_OUT"@ != "TAKTWERK_LOG"@,
        "TAKTWERK_AUDIO_OUT"@ != "TAKTWERK_LOG_FILE"@,
        "TAKTWERK_LOG"@ != "TAKTWERK_LOG_FILE"@,
{
    reveal_strlit("TAKTWERK_NAME");
    reveal_strlit("TAKTWERK_IFACE");
    reveal_strlit("TAKTWERK_HTTP");
    reveal_strlit("TAKTWERK_NMOS");
    reveal_strlit("TAKTWERK_RTSP");
    reveal_strlit("TAKTWERK_CH");
    reveal_strlit("TAKTWERK_PTP_SLAVE");
    reveal_strlit("TAKTWERK_PTP_MASTER");
    reveal_strlit("TAKTWERK_AUDIO");
    reveal_strlit("TAKTWERK_AUDIO_IN");
    reveal_strlit("TAKTWERK_AUDIO_OUT");
    reveal_strlit("TAKTWERK_LOG");
    reveal_strlit("TAKTWERK_LOG_FILE");
    assert("TAKTWERK_NAME"@.len() == 13);
    assert("TAKTWERK_NAME"@[9] == 'N' && "TAKTWERK_NAME"@[10] == 'A');
    assert("TAKTWERK_IFACE"@.len() == 14);
    assert("TAKTWERK_IFACE"@[9] == 'I' && "TAKTWERK_IFACE"@[10] == 'F');
    assert("TAKTWERK_HTTP"@.len() == 13);
    assert("TAKTWERK_HTTP"@[9] == 'H' && "TAKTWERK_HTTP"@[10] == 'T');
    assert("TAKTWERK_NMOS"@.len() == 13);
    assert("TAKTWERK_NMOS"@[9] == 'N' && "TAKTWERK_NMOS"@[10] == 'M');
    assert("TAKTWERK_RTSP"@.len() == 13);
    assert("TAKTWERK_RTSP"@[9] == 'R' && "TAKTWERK_RTSP"@[10] == 'T');
    assert("TAKTWERK_CH"@.len() == 11);
    assert("TAKTWERK_CH"@[9] == 'C' && "TAKTWERK_CH"@[10] == 'H');
    assert("TAKTWERK_PTP_SLAVE"@.len() == 18);
    assert("TAKTWERK_PTP_SLAVE"@[9] == 'P' && "TAKTWERK_PTP_SLAVE"@[10] == 'T');
    assert("TAKTWERK_PTP_MASTER"@.len() == 19);
    assert("TAKTWERK_PTP_MASTER"@[9] == 'P' && "TAKTWERK_PTP_MASTER"@[10] == 'T');
    assert("TAKTWERK_AUDIO"@.len() == 14);
    assert("TAKTWERK_AUDIO"@[9] == 'A' && "TAKTWERK_AUDIO"@[10] == 'U');
    assert("TAKTWERK_AUDIO_IN"@.len() == 17);
    assert("TAKTWERK_AUDIO_IN"@[9] == 'A' && "TAKTWERK_AUDIO_IN"@[10] == 'U');
    assert("TAKTWERK_AUDIO_OUT"@.len() == 18);
    assert("TAKTWERK_AUDIO_OUT"@[9] == 'A' && "TAKTWERK_AUDIO_OUT"@[10] == 'U');
    assert("TAKTWERK_LOG"@.len() == 12);
    assert("TAKTWERK_LOG"@[9] == 'L' && "TAKTWERK_LOG"@[10] == 'O');
    assert("TAKTWERK_LOG_FILE"@.len() == 17);
    assert("TAKTWERK_LOG_FILE"@[9] == 'L' && "TAKTWERK_LOG_FILE"@[10] == 'O');
}

/// What the settings of a file give a variable: the value of the last field that
/// stands for it.
proof fn lemma_settings(c: FileConfig, at: Seq<char>)
    ensures
        value_in(c.settings(), at) == (if at == "TAKTWERK_LOG_FILE"@ && text::optional(c.log_file) is Some {
            text::optional(c.log_file)
        } else if at == "TAKTWERK_LOG"@ && text::optional(c.log) is Some {
            text::optional(c.log)
        } else if at == "TAKTWERK_AUDIO_OUT"@ && text::optional(c.audio_out) is Some {
            text::optional(c.audio_out)
        } else if at == "TAKTWERK_AUDIO_IN"@ && text::optional(c.audio_in) is Some {
            text::optional(c.audio_in)
        } else if at == "TAKTWERK_AUDIO"@ && text::optional(c.audio) is Some {
            text::optional(c.audio)
        } else if at == "TAKTWERK_PTP_MASTER"@ && switch_field(c.ptp_master) is Some {
            switch_field(c.ptp_master)
        } else if at == "TAKTWERK_PTP_SLAVE"@ && switch_field(c.ptp_slave) is Some {
            switch_field(c.ptp_slave)
        } else if at == "TAKTWERK_CH"@ && number_field(c.channels) is Some {
            number_field(c.channels)
        } else if at == "TAKTWERK_RTSP"@ && text::optional(c.rtsp) is Some {
            text::optional(c.rtsp)
        } else if at == "TAKTWERK_NMOS"@ && text::optional(c.nmos) is Some {
            text::optional(c.nmos)
        } else if at == "TAKTWERK_HTTP"@ && text::optional(c.http) is Some {
            text::optional(c.http)
        } else if at == "TAKTWERK_IFACE"@ && text::optional(c.iface) is Some {
            text::optional(c.iface)
        } else if at == "TAKTWERK_NAME"@ && text::optional(c.name) is Some {
            text::optional(c.name)
        } else {
            None
        }),
{
    let s0 = Seq::<Setting>::empty();
    let s1 = with_value(s0, "TAKTWERK_NAME"@, text::optional(c.name));
    lemma_with_value(s0, "TAKTWERK_NAME"@, text::optional(c.name), at);
    let s2 = with_value(s1, "TAKTWERK_IFACE"@, text::optional(c.iface));
    lemma_with_value(s1, "TAKTWERK_IFACE"@, text::optional(c.iface), at);
    let s3 = with_value(s2, "TAKTWERK_HTTP"@, text::optional(c.http));
    lemma_with_value(s2, "TAKTWERK_HTTP"@, text::optional(c.http), at);
    let s4 = with_value(s3, "TAKTWERK_NMOS"@, text::optional(c.nmos));
    lemma_with_value(s3, "TAKTWERK_NMOS"@, text::optional(c.nmos), at);
    let s5 = with_value(s4, "TAKTWERK_RTSP"@, text::optional(c.rtsp));
    lemma_with_value(s4, "TAKTWERK_RTSP"@, text::optional(c.rtsp), at);
    let s6 = with_value(s5, "TAKTWERK_CH"@, number_field(c.channels));
    lemma_with_value(s5, "TAKTWERK_CH"@, number_field(c.channels), at);
    let s7 = with_value(s6, "TAKTWERK_PTP_SLAVE"@, switch_field(c.ptp_slave));
    lemma_with_value(s6, "TAKTWERK_PTP_SLAVE"@, switch_field(c.ptp_slave), at);
    let s8 = with_value(s7, "TAKTWERK_PTP_MASTER"@, switch_field(c.ptp_master));
    lemma_with_value(s7, "TAKTWERK_PTP_MASTER"@, switch_field(c.ptp_master), at);
    let s9 = with_value(s8, "TAKTWERK_AUDIO"@, text::optional(c.audio));
    lemma_with_value(s8, "TAKTWERK_AUDIO"@, text::optional(c.audio), at);
    let s10 = with_value(s9, "TAKTWERK_AUDIO_IN"@, text::optional(c.audio_in));
    lemma_with_value(s9, "TAKTWERK_AUDIO_IN"@, text::optional(c.audio_in), at);
    let s11 = with_value(s10, "TAKTWERK_AUDIO_OUT"@, text::optional(c.audio_out));
    lemma_with_value(s10, "TAKTWERK_AUDIO_OUT"@, text::optional(c.audio_out), at);
    let s12 = with_value(s11, "TAKTWERK_LOG"@, text::optional(c.log));
    lemma_with_value(s11, "TAKTWERK_LOG"@, text::optional(c.log), at);
    let s13 = with_value(s12, "TAKTWERK_LOG_FILE"@, text::optional(c.log_file));
    lemma_with_value(s12, "TAKTWERK_LOG_FILE"@, text::optional(c.log_file), at);
    assert(c.settings() == s13);
}

/// Every field of the file gives its own variable its value: a text as it is, a
/// number in decimal digits, and a switch as `1` or `0`. A field that is missing
/// gives none.
pub proof fn field_gives_its_variable_its_value(c: FileConfig)
    ensures
        value_in(c.settings(), "TAKTWERK_NAME"@) == text::optional(c.name),
        value_in(c.settings(), "TAKTWERK_IFACE"@) == text::optional(c.iface),
        value_in(c.settings(), "TAKTWERK_HTTP"@) == text::optional(c.http),
        value_in(c.settings(), "TAKTWERK_NMOS"@) == text::optional(c.nmos),
        value_in(c.settings(), "TAKTWERK_RTSP"@) == text::optional(c.rtsp),
        value_in(c.settings(), "TAKTWERK_CH"@) == (match c.channels {
            Some(n) => Some(text::decimal(n as nat)),
            None => None,
        }),
        value_in(c.settings(), "TAKTWERK_PTP_SLAVE"@) == (match c.ptp_slave {
            Some(on) => Some(
                if on {
                    "1"@
                } else {
                    "0"@
                },
            ),
            None => None,
        }),
        value_in(c.settings(), "TAKTWERK_PTP_MASTER"@) == (match c.ptp_master {
            Some(on) => Some(
                if on {
                    "1"@
                } else {
                    "0"@
                },
            ),
            None => None,
        }),
        value_in(c.settings(), "TAKTWERK_AUDIO"@) == text::optional(c.audio),
        value_in(c.settings(), "TAKTWERK_AUDIO_IN"@) == text::optional(c.audio_in),
        value_in(c.settings(), "TAKTWERK_AUDIO_OUT"@) == text::optional(c.audio_out),
        value_in(c.settings(), "TAKTWERK_LOG"@) == text::optional(c.log),
        value_in(c.settings(), "TAKTWERK_LOG_FILE"@) == text::optional(c.log_file),
{
    lemma_names_differ();
    lemma_settings(c, "TAKTWERK_NAME"@);
    lemma_settings(c, "TAKTWERK_IFACE"@);
    lemma_settings(c, "TAKTWERK_HTTP"@);
    lemma_settings(c, "TAKTWERK_NMOS"@);
    lemma_settings(c, "TAKTWERK_RTSP"@);
    lemma_settings(c, "TAKTWERK_CH"@);
    lemma_settings(c, "TAKTWERK_PTP_SLAVE"@);
    lemma_settings(c, "TAKTWERK_PTP_MASTER"@);
    lemma_settings(c, "TAKTWERK_AUDIO"@);
    lemma_settings(c, "TAKTWERK_AUDIO_IN"@);
    lemma_settings(c, "TAKTWERK_AUDIO_OUT"@);
    lemma_settings(c, "TAKTWERK_LOG"@);
    lemma_settings(c, "TAKTWERK_LOG_FILE"@);
}

/// What the file switches on is on, and what it switches off is off.
pub proof fn switch_of_the_file_is_understood(on: bool)
    ensures
        switch_field(Some(on)) matches Some(s) && switched_on(s) == on,
{
    reveal_strlit("1");
    reveal_strlit("0");
    reveal_strlit("true");
    if !on {
        assert("0"@[0] == '0' && "1"@[0] == '1');
        assert(text::lower("0"@).len() == 1);
    }
}

/// A text switches something on where it is `1`, or `true` in letters of any
/// size, and not otherwise.
pub proof fn switch_is_one_or_true(s: Seq<char>)
    ensures
        switched_on(s) <==> s == seq!['1'] || (s.len() == 4 && (s[0] == 't' || s[0] == 'T') && (s[1]
            == 'r' || s[1] == 'R') && (s[2] == 'u' || s[2] == 'U') && (s[3] == 'e' || s[3] == 'E')),
{
    reveal_strlit("1");
    reveal_strlit("true");
    assert("1"@ =~= seq!['1']);
    let t = text::lower(s);
    assert(t.len() == s.len());
    if s.len() == 4 {
        assert(t[0] == text::small(s[0]) && t[1] == text::small(s[1]) && t[2] == text::small(s[2])
            && t[3] == text::small(s[3]));
        if t == "true"@ {
            assert(t[0] == 't' && t[1] == 'r' && t[2] == 'u' && t[3] == 'e');
        }
        if (s[0] == 't' || s[0] == 'T') && (s[1] == 'r' || s[1] == 'R') && (s[2] == 'u' || s[2]
            == 'U') && (s[3] == 'e' || s[3] == 'E') {
            assert(t =~= "true"@);
        }
    }
}

/// The number of channels is the one that is asked for, from 1 to 64; less means
/// one and more means 64. Without a number, or with one of more than a byte,
/// there are two. What the file says is understood.
pub proof fn channels_are_those_asked_for(n: nat, s: Option<Seq<char>>)
    ensures
        1 <= channel_count(s) <= 64,
        channel_count(None) == 2,
        n <= 255 ==> channel_count(Some(text::decimal(n))) == vstd::math::max(
            1,
            vstd::math::min(n as int, 64),
        ),
        n > 255 ==> channel_count(Some(text::decimal(n))) == 2,
{
    if n <= 255 {
        text::decimal_reads_back(n, 255);
    } else {
        text::lemma_decimal(n);
        assert(text::is_digit(text::decimal(n)[0]));
    }
}

/// An interface is the address that is given in dotted form, and 0.0.0.0 where
/// none is given or what is given is no address.
pub proof fn interface_is_the_one_given(a: Seq<u8>, s: Seq<char>)
    requires
        a.len() == 4,
        forall|b: Seq<u8>| b.len() == 4 ==> s != #[trigger] ipv4::dotted(b),
    ensures
        interface_of(Some(ipv4::dotted(a))) == a,
        interface_of(None) == seq![0u8, 0, 0, 0],
        interface_of(Some(s)) == seq![0u8, 0, 0, 0],
{
    ipv4::dotted_reads_back(a);
    if ipv4::address(s) is Some {
        ipv4::address_has_one_form(s);
    }
}

/// A variable that is set to a number sets that number; intervals are given in
/// milliseconds and kept in nanoseconds. What is not set is as usual, and so is
/// an interval of zero.
pub proof fn numbers_are_those_given(n: u8, ms: nat, usual: u8, pause: u64)
    ensures
        set_byte(Some(text::decimal(n as nat)), usual) == n,
        set_byte(None, usual) == usual,
        0 < ms <= 18_446_744_073_709 ==> set_interval(Some(text::decimal(ms)), pause) == ms
            * 1_000_000,
        set_interval(Some(text::decimal(0)), pause) == pause,
        set_interval(None, pause) == pause,
{
    text::decimal_reads_back(n as nat, 255);
    text::decimal_reads_back(0, 18_446_744_073_709);
    if ms <= 18_446_744_073_709 {
        text::decimal_reads_back(ms, 18_446_744_073_709);
    }
}

/// Each PTP variable sets its own field and no other one.
pub proof fn ptp_variables_set_their_own_fields(
    vars: PtpVariables,
    domain: u8,
    priority1: u8,
    priority2: u8,
    clock_class: u8,
)
    requires
        text::optional(vars.domain) == Some(text::decimal(domain as nat)),
        text::optional(vars.priority1) == Some(text::decimal(priority1 as nat)),
        text::optional(vars.priority2) == Some(text::decimal(priority2 as nat)),
        text::optional(vars.clock_class) == Some(text::decimal(clock_class as nat)),
    ensures
        profile_of(vars).domain == domain,
        profile_of(vars).priority1 == priority1,
        profile_of(vars).priority2 == priority2,
        profile_of(vars).clock_class == clock_class,
        text::optional(vars.sync_ms) is None ==> profile_of(vars).sync_interval == base_profile(
            text::optional(vars.profile),
        ).sync_interval,
        text::optional(vars.announce_ms) is None ==> profile_of(vars).announce_interval
            == base_profile(text::optional(vars.profile)).announce_interval,
        forall|ms: nat|
            0 < ms <= 18_446_744_073_709 && text::optional(vars.sync_ms) == Some(
                #[trigger] text::decimal(ms),
            ) ==> profile_of(vars).sync_interval == ms * 1_000_000,
        forall|ms: nat|
            0 < ms <= 18_446_744_073_709 && text::optional(vars.announce_ms) == Some(
                #[trigger] text::decimal(ms),
            ) ==> profile_of(vars).announce_interval == ms * 1_000_000,
{
    numbers_are_those_given(domain, 1, 0, 0);
    numbers_are_those_given(priority1, 1, 0, 0);
    numbers_are_those_given(priority2, 1, 0, 0);
    numbers_are_those_given(clock_class, 1, 0, 0);
    text::decimal_reads_back(domain as nat, 255);
    text::decimal_reads_back(priority1 as nat, 255);
    text::decimal_reads_back(priority2 as nat, 255);
    text::decimal_reads_back(clock_class as nat, 255);
    assert forall|ms: nat|
        0 < ms <= 18_446_744_073_709 && text::optional(vars.sync_ms) == Some(
            #[trigger] text::decimal(ms),
        ) implies profile_of(vars).sync_interval == ms * 1_000_000 by {
        text::decimal_reads_back(ms, 18_446_744_073_709);
    }
    assert forall|ms: nat|
        0 < ms <= 18_446_744_073_709 && text::optional(vars.announce_ms) == Some(
            #[trigger] text::decimal(ms),
        ) implies profile_of(vars).announce_interval == ms * 1_000_000 by {
        text::decimal_reads_back(ms, 18_446_744_073_709);
    }
}

/// The media profile has domain 0, four Syncs and one Announce a second; that of
/// broadcast has domain 127, eight Syncs and four Announces. Both have the same
/// priorities and the class of a clock that runs free. Only `st2059` asks for
/// that of broadcast.
pub proof fn profiles_have_their_rates(s: Option<Seq<char>>)
    ensures
        ({
            let p = base_profile(s);
            let broadcast = s == Some("st2059"@);
            &&& p.domain == if broadcast {
                127int
            } else {
                0
            }
            &&& p.sync_interval * (if broadcast {
                8int
            } else {
                4
            }) == 1_000_000_000
            &&& p.announce_interval * (if broadcast {
                4int
            } else {
                1
            }) == 1_000_000_000
            &&& p.priority1 == 128
            &&& p.priority2 == 128
            &&& p.clock_class == 248
        }),
{
}

/// The file that is named goes before all others, and the one in this directory
/// before that of the system; where there is none, none is read.
pub proof fn nearest_file_is_read(p: Seq<char>, here: bool, system: bool)
    ensures
        super::path_for(Some(p), here, system) == Some(p),
        super::path_for(None, true, system) == Some("taktwerk.toml"@),
        super::path_for(None, false, true) == Some("/etc/taktwerk/taktwerk.toml"@),
        super::path_for(None, false, false) is None,
{
}

/// The node is the one that is asked for: without a name it is called `taktwerk`,
/// without switches it is neither slave nor master, with a number of channels it
/// has those, and its NMOS interfaces are reached at its own address.
pub proof fn node_is_the_one_asked_for(vars: Variables, nmos_port: u16, n: NodeInfo)
    requires
        is_node_of(vars, nmos_port, n),
    ensures
        vars.name matches Some(s) ==> n.name@ == s@,
        vars.name is None ==> n.name@ == "taktwerk"@,
        vars.ptp_slave is None ==> !n.ptp_slave,
        vars.ptp_master is None ==> !n.ptp_master,
        vars.ptp_slave matches Some(s) && s@ == seq!['1'] ==> n.ptp_slave,
        vars.ptp_master matches Some(s) && s@ == seq!['1'] ==> n.ptp_master,
        vars.ptp_slave matches Some(s) && s@ == seq!['0'] ==> !n.ptp_slave,
        vars.ptp_master matches Some(s) && s@ == seq!['0'] ==> !n.ptp_master,
        vars.channels is None ==> n.profile.channels == 2,
        forall|k: nat|
            1 <= k <= 64 && text::optional(vars.channels) == Some(#[trigger] text::decimal(k))
                ==> n.profile.channels == k,
        forall|a: Seq<u8>|
            a.len() == 4 && text::optional(vars.iface) == Some(#[trigger] ipv4::dotted(a))
                ==> n.interface@ == a && n.nmos_host@ == ipv4::dotted(a),
        n.nmos_port == nmos_port,
        n.ptp_domain == profile_of(vars.ptp).domain,
{
    switch_is_one_or_true(seq!['1']);
    switch_is_one_or_true(seq!['0']);
    assert(seq!['0'][0] != seq!['1'][0]);
    assert forall|k: nat|
        1 <= k <= 64 && text::optional(vars.channels) == Some(
            #[trigger] text::decimal(k),
        ) implies n.profile.channels == k by {
        channels_are_those_asked_for(k, None);
    }
    assert forall|a: Seq<u8>|
        a.len() == 4 && text::optional(vars.iface) == Some(
            #[trigger] ipv4::dotted(a),
        ) implies n.interface@ == a && n.nmos_host@ == ipv4::dotted(a) by {
        ipv4::dotted_reads_back(a);
    }
}

/// A number that is too large is no number: what it would set is as usual.
pub proof fn number_too_large_sets_nothing(n: nat, usual: u8, pause: u64)
    ensures
        n > 255 ==> set_byte(Some(text::decimal(n)), usual) == usual,
        n > 18_446_744_073_709 ==> set_interval(Some(text::decimal(n)), pause) == pause,
        set_byte(Some(Seq::empty()), usual) == usual,
        set_interval(Some(Seq::empty()), pause) == pause,
{
    text::lemma_decimal(n);
    assert(text::is_digit(text::decimal(n)[0]));
}

} // verus!
