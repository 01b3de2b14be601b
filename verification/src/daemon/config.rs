//! The configuration: an optional file whose fields fill in for environment
//! variables that are not set, and the settings that the variables give.

pub mod laws;

use super::state::NodeInfo;
use crate::ipv4;
use crate::net::ptp;
use crate::net::ptp::PtpProfile;
use crate::profile::{StreamProfile, MAX_CHANNELS};
use crate::text;
use vstd::prelude::*;

verus! {

/// The fields of the configuration file, all optional. Each stands for an
/// environment variable.
#[derive(Debug, Default)]
pub struct FileConfig {
    pub name: Option<String>,
    pub iface: Option<String>,
    pub http: Option<String>,
    pub nmos: Option<String>,
    pub rtsp: Option<String>,
    pub channels: Option<u8>,
    pub ptp_slave: Option<bool>,
    pub ptp_master: Option<bool>,
    pub audio: Option<String>,
    pub audio_in: Option<String>,
    pub audio_out: Option<String>,
    pub log: Option<String>,
    pub log_file: Option<String>,
}

/// A variable and its value.
pub type Setting = (Seq<char>, Seq<char>);

/// The settings with one more, where there is a value.
pub open spec fn with_value(s: Seq<Setting>, key: Seq<char>, value: Option<Seq<char>>) -> Seq<
    Setting,
> {
    match value {
        Some(v) => s.push((key, v)),
        None => s,
    }
}

/// The text of a switch: `1` or `0`.
pub open spec fn switch_field(b: Option<bool>) -> Option<Seq<char>> {
    match b {
        Some(true) => Some("1"@),
        Some(false) => Some("0"@),
        None => None,
    }
}

/// The text of a number.
pub open spec fn number_field(n: Option<u8>) -> Option<Seq<char>> {
    match n {
        Some(v) => Some(text::decimal(v as nat)),
        None => None,
    }
}

/// The settings behind a vector of them.
pub open spec fn settings_view(v: Seq<(&'static str, String)>) -> Seq<Setting> {
    v.map_values(|e: (&'static str, String)| (e.0@, e.1@))
}

/// Appends a setting where there is a value.
fn push_value(v: &mut Vec<(&'static str, String)>, key: &'static str, value: Option<String>)
    ensures
        settings_view(final(v)@) == with_value(settings_view(old(v)@), key@, text::optional(value)),
{
    match value {
        Some(s) => {
            v.push((key, s));
            assert(settings_view(v@) =~= settings_view(old(v)@).push((key@, s@)));
        },
        None => {},
    }
}

/// A copy of an optional text.
fn copy_text(s: &Option<String>) -> (r: Option<String>)
    ensures
        text::optional(r) == text::optional(*s),
{
    match s {
        Some(t) => Some(text::text(t.as_str())),
        None => None,
    }
}

/// The text of a switch: `1` or `0`.
pub fn bool01(b: bool) -> (s: String)
    ensures
        s@ == (if b {
            "1"@
        } else {
            "0"@
        }),
{
    if b {
        text::text("1")
    } else {
        text::text("0")
    }
}

fn switch_text(b: Option<bool>) -> (r: Option<String>)
    ensures
        text::optional(r) == switch_field(b),
{
    match b {
        Some(x) => Some(bool01(x)),
        None => None,
    }
}

fn number_text(n: Option<u8>) -> (r: Option<String>)
    ensures
        text::optional(r) == number_field(n),
{
    match n {
        Some(x) => Some(text::decimal_text(x as u64)),
        None => None,
    }
}

/// The settings that a reading of the environment leaves unset: `is_set` tells
/// for each setting whether its variable has a value already.
pub open spec fn unset(s: Seq<Setting>, is_set: Seq<bool>) -> Seq<Setting>
    decreases s.len(),
{
    if s.len() == 0 {
        Seq::empty()
    } else if is_set[s.len() - 1] {
        unset(s.drop_last(), is_set)
    } else {
        unset(s.drop_last(), is_set).push(s.last())
    }
}

/// The environment with settings written into it.
pub open spec fn written(env: Map<Seq<char>, Seq<char>>, s: Seq<Setting>) -> Map<
    Seq<char>,
    Seq<char>,
>
    decreases s.len(),
{
    if s.len() == 0 {
        env
    } else {
        written(env, s.drop_last()).insert(s.last().0, s.last().1)
    }
}

impl FileConfig {
    /// The settings that the file gives.
    pub open spec fn settings(&self) -> Seq<Setting> {
        let s = Seq::<Setting>::empty();
        let s = with_value(s, "TAKTWERK_NAME"@, text::optional(self.name));
        let s = with_value(s, "TAKTWERK_IFACE"@, text::optional(self.iface));
        let s = with_value(s, "TAKTWERK_HTTP"@, text::optional(self.http));
        let s = with_value(s, "TAKTWERK_NMOS"@, text::optional(self.nmos));
        let s = with_value(s, "TAKTWERK_RTSP"@, text::optional(self.rtsp));
        let s = with_value(s, "TAKTWERK_CH"@, number_field(self.channels));
        let s = with_value(s, "TAKTWERK_PTP_SLAVE"@, switch_field(self.ptp_slave));
        let s = with_value(s, "TAKTWERK_PTP_MASTER"@, switch_field(self.ptp_master));
        let s = with_value(s, "TAKTWERK_AUDIO"@, text::optional(self.audio));
        let s = with_value(s, "TAKTWERK_AUDIO_IN"@, text::optional(self.audio_in));
        let s = with_value(s, "TAKTWERK_AUDIO_OUT"@, text::optional(self.audio_out));
        let s = with_value(s, "TAKTWERK_LOG"@, text::optional(self.log));
        with_value(s, "TAKTWERK_LOG_FILE"@, text::optional(self.log_file))
    }

    /// The settings that the file gives.
    pub fn given(&self) -> (v: Vec<(&'static str, String)>)
        ensures
            settings_view(v@) == self.settings(),
    {
        let mut v: Vec<(&'static str, String)> = Vec::new();
        assert(settings_view(v@) =~= Seq::empty());
        push_value(&mut v, "TAKTWERK_NAME", copy_text(&self.name));
        push_value(&mut v, "TAKTWERK_IFACE", copy_text(&self.iface));
        push_value(&mut v, "TAKTWERK_HTTP", copy_text(&self.http));
        push_value(&mut v, "TAKTWERK_NMOS", copy_text(&self.nmos));
        push_value(&mut v, "TAKTWERK_RTSP", copy_text(&self.rtsp));
        push_value(&mut v, "TAKTWERK_CH", number_text(self.channels));
        push_value(&mut v, "TAKTWERK_PTP_SLAVE", switch_text(self.ptp_slave));
        push_value(&mut v, "TAKTWERK_PTP_MASTER", switch_text(self.ptp_master));
        push_value(&mut v, "TAKTWERK_AUDIO", copy_text(&self.audio));
        push_value(&mut v, "TAKTWERK_AUDIO_IN", copy_text(&self.audio_in));
        push_value(&mut v, "TAKTWERK_AUDIO_OUT", copy_text(&self.audio_out));
        push_value(&mut v, "TAKTWERK_LOG", copy_text(&self.log));
        push_value(&mut v, "TAKTWERK_LOG_FILE", copy_text(&self.log_file));
        v
    }

    /// What has to be written into the environment: the settings of the file
    /// whose variables are not set. `is_set` tells for each setting of
    /// [`FileConfig::given`] whether its variable is set.
    pub fn apply_to_env(&self, is_set: &Vec<bool>) -> (v: Vec<(&'static str, String)>)
        requires
            is_set@.len() == self.settings().len(),
        ensures
            settings_view(v@) == unset(self.settings(), is_set@),
    {
        let given: Vec<(&'static str, String)> = self.given();
        let ghost all = self.settings();
        let mut v: Vec<(&'static str, String)> = Vec::new();
        let mut i: usize = 0;
        assert(settings_view(v@) =~= Seq::empty());
        while i < given.len()
            invariant
                i <= given@.len(),
                given@.len() == all.len(),
                settings_view(given@) == all,
                is_set@.len() == all.len(),
                settings_view(v@) == unset(all.take(i as int), is_set@),
            decreases given@.len() - i,
        {
            proof {
                assert(all.take(i + 1).drop_last() =~= all.take(i as int));
                assert(all[i as int] == (given@[i as int].0@, given@[i as int].1@));
            }
            if !is_set[i] {
                let ghost before = v@;
                v.push((given[i].0, text::text(given[i].1.as_str())));
                assert(settings_view(v@) =~= settings_view(before).push(all[i as int]));
            }
            i = i + 1;
        }
        assert(all.take(i as int) =~= all);
        v
    }
}

/// The value that settings give a variable; the last one counts.
pub open spec fn value_in(s: Seq<Setting>, key: Seq<char>) -> Option<Seq<char>>
    decreases s.len(),
{
    if s.len() == 0 {
        None
    } else if s.last().0 == key {
        Some(s.last().1)
    } else {
        value_in(s.drop_last(), key)
    }
}

/// The environment goes before the file: a variable that is set keeps its value,
/// and one that is not takes the value of the file, if that has one.
pub proof fn environment_goes_first(
    env: Map<Seq<char>, Seq<char>>,
    s: Seq<Setting>,
    is_set: Seq<bool>,
    key: Seq<char>,
)
    requires
        is_set.len() == s.len(),
        forall|i: int| 0 <= i < s.len() ==> #[trigger] is_set[i] == env.dom().contains(s[i].0),
    ensures
        ({
            let after = written(env, unset(s, is_set));
            if env.dom().contains(key) {
                after.dom().contains(key) && after[key] == env[key]
            } else {
                match value_in(s, key) {
                    Some(v) => after.dom().contains(key) && after[key] == v,
                    None => !after.dom().contains(key),
                }
            }
        }),
    decreases s.len(),
{
    if s.len() > 0 {
        let n = s.len() - 1;
        let init = s.drop_last();
        let flags = is_set.drop_last();
        assert forall|i: int| 0 <= i < init.len() implies #[trigger] flags[i]
            == env.dom().contains(init[i].0) by {
            assert(is_set[i] == env.dom().contains(s[i].0));
        }
        environment_goes_first(env, init, flags, key);
        lemma_unset_prefix(init, is_set, flags);
        assert(is_set[n] == env.dom().contains(s[n].0));
        if !is_set[n] {
            let w = unset(s, is_set);
            assert(w.drop_last() =~= unset(init, is_set));
        }
    }
}

proof fn lemma_unset_prefix(s: Seq<Setting>, a: Seq<bool>, b: Seq<bool>)
    requires
        s.len() <= a.len(),
        s.len() <= b.len(),
        forall|i: int| 0 <= i < s.len() ==> a[i] == b[i],
    ensures
        unset(s, a) == unset(s, b),
    decreases s.len(),
{
    if s.len() > 0 {
        lemma_unset_prefix(s.drop_last(), a, b);
    }
}

/// Where the configuration file is looked for, in this order, where no path is
/// given.
pub open spec fn places() -> Seq<Seq<char>> {
    seq!["taktwerk.toml"@, "/etc/taktwerk/taktwerk.toml"@]
}

/// The path of the configuration file.
pub open spec fn path_for(given: Option<Seq<char>>, here: bool, system: bool) -> Option<
    Seq<char>,
> {
    match given {
        Some(p) => Some(p),
        None => if here {
            Some(places()[0])
        } else if system {
            Some(places()[1])
        } else {
            None
        },
    }
}

/// The path of the configuration file: the one that is given, or the first of
/// the usual places at which there is a file. `here` and `system` tell whether
/// there is one.
pub fn resolve_path(given: Option<String>, here: bool, system: bool) -> (r: Option<String>)
    ensures
        text::optional(r) == (match given {
            Some(p) => Some(p@),
            None => if here {
                Some(places()[0])
            } else if system {
                Some(places()[1])
            } else {
                None
            },
        }),
        text::optional(r) == path_for(text::optional(given), here, system),
{
    match given {
        Some(p) => Some(p),
        None => if here {
            Some(text::text("taktwerk.toml"))
        } else if system {
            Some(text::text("/etc/taktwerk/taktwerk.toml"))
        } else {
            None
        },
    }
}

/// Whether the text of a variable switches something on: `1` or `true`, in
/// capital or small letters.
pub open spec fn switched_on(s: Seq<char>) -> bool {
    s == "1"@ || text::lower(s) == "true"@
}

/// Whether a variable switches something on.
pub fn flag(value: &Option<String>) -> (r: bool)
    ensures
        r == (match *value {
            Some(s) => switched_on(s@),
            None => false,
        }),
{
    match value {
        Some(s) => {
            let v: Vec<char> = text::chars_of(s.as_str());
            text::is_text(v.as_slice(), "1") || text::is_text(
                text::to_lower(v.as_slice()).as_slice(),
                "true",
            )
        },
        None => false,
    }
}

/// The number of channels that a text asks for: 2 where it is no number of one
/// byte, and within 1 and [`MAX_CHANNELS`].
pub open spec fn channel_count(s: Option<Seq<char>>) -> u8 {
    match s {
        Some(t) => match text::unsigned(t, 255) {
            Some(n) => if n < 1 {
                1
            } else if n > MAX_CHANNELS {
                MAX_CHANNELS
            } else {
                n as u8
            },
            None => 2,
        },
        None => 2,
    }
}

/// The number of channels that a variable asks for.
pub fn channels_from(value: &Option<String>) -> (n: u8)
    ensures
        n == channel_count(text::optional(*value)),
{
    match value {
        Some(s) => match text::parse_unsigned(text::chars_of(s.as_str()).as_slice(), 255) {
            Some(n) => {
                if n < 1 {
                    1
                } else if n > MAX_CHANNELS as u64 {
                    MAX_CHANNELS
                } else {
                    n as u8
                }
            },
            None => 2,
        },
        None => 2,
    }
}

/// The address that a text gives; 0.0.0.0 where it gives none.
pub open spec fn interface_of(s: Option<Seq<char>>) -> Seq<u8> {
    match s {
        Some(t) => match ipv4::address(t) {
            Some(a) => a,
            None => seq![0u8, 0u8, 0u8, 0u8],
        },
        None => seq![0u8, 0u8, 0u8, 0u8],
    }
}

/// The address of the interface that a variable gives.
pub fn interface_from(value: &Option<String>) -> (a: [u8; 4])
    ensures
        a@ == interface_of(text::optional(*value)),
{
    let any: [u8; 4] = [0, 0, 0, 0];
    assert(any@ =~= seq![0u8, 0u8, 0u8, 0u8]);
    match value {
        Some(s) => match ipv4::parse_ipv4(s.as_str()) {
            Some(a) => a,
            None => any,
        },
        None => any,
    }
}

/// The variables that the PTP profile of the node is set by.
#[derive(Debug, Default)]
pub struct PtpVariables {
    /// `st2059` picks the broadcast profile.
    pub profile: Option<String>,
    pub domain: Option<String>,
    pub priority1: Option<String>,
    pub priority2: Option<String>,
    pub clock_class: Option<String>,
    /// Interval of Sync in milliseconds.
    pub sync_ms: Option<String>,
    /// Interval of Announce in milliseconds.
    pub announce_ms: Option<String>,
}

/// Most milliseconds of an interval: more do not fit in 64 bits of nanoseconds.
pub const MAX_INTERVAL_MS: u64 = 18_446_744_073_709;

/// A byte that a text sets; where it is no number of one byte, the usual one.
pub open spec fn set_byte(s: Option<Seq<char>>, usual: u8) -> u8 {
    match s {
        Some(t) => match text::unsigned(t, 255) {
            Some(n) => n as u8,
            None => usual,
        },
        None => usual,
    }
}

/// An interval in nanoseconds that a text sets in milliseconds; where it is no
/// number, or an empty interval, the usual one.
pub open spec fn set_interval(s: Option<Seq<char>>, usual: u64) -> u64 {
    match s {
        Some(t) => match text::unsigned(t, MAX_INTERVAL_MS as nat) {
            Some(n) => if n == 0 {
                usual
            } else {
                (n * 1_000_000) as u64
            },
            None => usual,
        },
        None => usual,
    }
}

/// The profile that the others are changes to.
pub open spec fn base_profile(s: Option<Seq<char>>) -> PtpProfile {
    if s == Some("st2059"@) {
        ptp::broadcast_profile()
    } else {
        ptp::media_profile()
    }
}

/// The PTP profile that the variables describe.
pub open spec fn profile_of(vars: PtpVariables) -> PtpProfile {
    let base = base_profile(text::optional(vars.profile));
    PtpProfile {
        domain: set_byte(text::optional(vars.domain), base.domain),
        priority1: set_byte(text::optional(vars.priority1), base.priority1),
        priority2: set_byte(text::optional(vars.priority2), base.priority2),
        clock_class: set_byte(text::optional(vars.clock_class), base.clock_class),
        sync_interval: set_interval(text::optional(vars.sync_ms), base.sync_interval),
        announce_interval: set_interval(text::optional(vars.announce_ms), base.announce_interval),
    }
}

fn byte_from(value: &Option<String>, usual: u8) -> (n: u8)
    ensures
        n == set_byte(text::optional(*value), usual),
{
    match value {
        Some(s) => match text::parse_unsigned(text::chars_of(s.as_str()).as_slice(), 255) {
            Some(n) => n as u8,
            None => usual,
        },
        None => usual,
    }
}

fn interval_from(value: &Option<String>, usual: u64) -> (ns: u64)
    ensures
        ns == set_interval(text::optional(*value), usual),
{
    match value {
        Some(s) => match text::parse_unsigned(
            text::chars_of(s.as_str()).as_slice(),
            MAX_INTERVAL_MS,
        ) {
            Some(n) => if n == 0 {
                usual
            } else {
                n * 1_000_000
            },
            None => usual,
        },
        None => usual,
    }
}

/// The PTP profile of the node: the AES67 media profile, or that of ST 2059-2
/// where it is asked for, with the changes that the other variables make.
pub fn ptp_profile(vars: &PtpVariables) -> (p: PtpProfile)
    ensures
        p == profile_of(*vars),
{
    let broadcast: bool = match &vars.profile {
        Some(s) => text::same_text(s.as_str(), "st2059"),
        None => false,
    };
    let base: PtpProfile = if broadcast {
        PtpProfile::st2059()
    } else {
        PtpProfile::default()
    };
    PtpProfile {
        domain: byte_from(&vars.domain, base.domain),
        priority1: byte_from(&vars.priority1, base.priority1),
        priority2: byte_from(&vars.priority2, base.priority2),
        clock_class: byte_from(&vars.clock_class, base.clock_class),
        sync_interval: interval_from(&vars.sync_ms, base.sync_interval),
        announce_interval: interval_from(&vars.announce_ms, base.announce_interval),
    }
}

/// The variables that the node is configured by.
#[derive(Debug)]
pub struct Variables {
    pub name: Option<String>,
    pub iface: Option<String>,
    pub channels: Option<String>,
    pub ptp_slave: Option<String>,
    pub ptp_master: Option<String>,
    pub ptp: PtpVariables,
}

/// Whether `n` is the node that the variables describe.
pub open spec fn is_node_of(vars: Variables, nmos_port: u16, n: NodeInfo) -> bool {
    &&& n.name@ == (match vars.name {
        Some(s) => s@,
        None => "taktwerk"@,
    })
    &&& n.interface@ == interface_of(text::optional(vars.iface))
    &&& n.profile == StreamProfile::spec_aes67(channel_count(text::optional(vars.channels)))
    &&& n.ptp_slave == (match vars.ptp_slave {
        Some(s) => switched_on(s@),
        None => false,
    })
    &&& n.ptp_master == (match vars.ptp_master {
        Some(s) => switched_on(s@),
        None => false,
    })
    &&& n.ptp_domain == profile_of(vars.ptp).domain
    &&& n.nmos_host@ == ipv4::dotted(n.interface@)
    &&& n.nmos_port == nmos_port
}

/// The node that the variables describe, with the port of its NMOS interfaces.
pub fn node_info(vars: &Variables, nmos_port: u16) -> (n: NodeInfo)
    ensures
        n.name@ == (match vars.name {
            Some(s) => s@,
            None => "taktwerk"@,
        }),
        n.interface@ == interface_of(text::optional(vars.iface)),
        n.profile == StreamProfile::spec_aes67(channel_count(text::optional(vars.channels))),
        n.ptp_slave == (match vars.ptp_slave {
            Some(s) => switched_on(s@),
            None => false,
        }),
        n.ptp_master == (match vars.ptp_master {
            Some(s) => switched_on(s@),
            None => false,
        }),
        n.ptp_domain == profile_of(vars.ptp).domain,
        n.nmos_host@ == ipv4::dotted(interface_of(text::optional(vars.iface))),
        n.nmos_port == nmos_port,
        is_node_of(*vars, nmos_port, n),
{
    let name: String = match &vars.name {
        Some(s) => text::text(s.as_str()),
        None => text::text("taktwerk"),
    };
    let interface: [u8; 4] = interface_from(&vars.iface);
    NodeInfo {
        name,
        interface,
        profile: StreamProfile::aes67(channels_from(&vars.channels)),
        ptp_slave: flag(&vars.ptp_slave),
        ptp_master: flag(&vars.ptp_master),
        ptp_domain: ptp_profile(&vars.ptp).domain,
        nmos_host: ipv4::dotted_text(interface),
        nmos_port,
    }
}

} // verus!
