//! Names and records of RAVENNA sessions and NMOS nodes in DNS-SD.
//!
//! RAVENNA announces an audio session as an RTSP service of the subtype
//! `_ravenna_session`.

use crate::text;
use vstd::prelude::*;

verus! {

/// DNS-SD type (RTSP) of RAVENNA sessions.
pub const RAVENNA_SERVICE: &'static str = "_rtsp._tcp.local.";

/// RAVENNA subtype of audio sessions.
pub const RAVENNA_SUBTYPE: &'static str = "_ravenna_session._sub._rtsp._tcp.local.";

/// DNS-SD type of NMOS node APIs (IS-04).
pub const NMOS_NODE_SERVICE: &'static str = "_nmos-node._tcp.local.";

/// A resolved service, as the network reports it.
#[derive(Debug, Clone)]
pub struct ResolvedService {
    /// Full DNS-SD name of the instance.
    pub instance: String,
    pub host: String,
    /// The resolved address in dotted form, if there is one.
    pub addr: Option<String>,
    pub port: u16,
    /// The `path` property, if there is one.
    pub path: Option<String>,
}

/// A RAVENNA session that was found.
#[derive(Debug, Clone, PartialEq, Eq)]
pub struct RavennaSession {
    /// Full DNS-SD name of the instance.
    pub instance: String,
    /// Host name, without the dot at its end.
    pub host: String,
    /// The resolved address, if there is one.
    pub addr: Option<String>,
    /// RTSP port.
    pub port: u16,
    /// RTSP path of the description.
    pub path: String,
}

/// The name without dots at its end.
pub open spec fn without_dots(s: Seq<char>) -> Seq<char>
    decreases s.len(),
{
    if s.len() > 0 && s.last() == '.' {
        without_dots(s.drop_last())
    } else {
        s
    }
}

/// The path of a session without a `path` property: `/by-name/` and the first
/// label of its name.
pub open spec fn path_by_name(fullname: Seq<char>) -> Seq<char> {
    "/by-name/"@ + text::pieces(fullname, '.')[0]
}

/// The path of a session without a `path` property: `/by-name/<instance>`.
pub fn default_path(fullname: &str) -> (s: String)
    ensures
        s@ == path_by_name(fullname@),
{
    let v: Vec<char> = text::chars_of(fullname);
    let mut s: String = text::text("/by-name/");
    match text::piece(v.as_slice(), '.', 0) {
        Some(instance) => {
            text::push_chars(&mut s, instance);
        },
        None => {},
    }
    s
}

/// A host name without dots at its end.
pub fn host_name(host: &str) -> (s: String)
    ensures
        s@ == without_dots(host@),
{
    let v: Vec<char> = text::chars_of(host);
    let mut end: usize = v.len();
    assert(v@.take(end as int) =~= v@);
    while end > 0 && v[end - 1] == '.'
        invariant
            end <= v@.len(),
            without_dots(v@.take(end as int)) == without_dots(v@),
        decreases end,
    {
        assert(v@.take(end as int).drop_last() =~= v@.take(end - 1));
        end = end - 1;
    }
    assert(v@.subrange(0, end as int) =~= v@.take(end as int));
    text::string_of(vstd::slice::slice_subrange(v.as_slice(), 0, end))
}

/// The path of the description of a resolved service.
pub open spec fn session_path(found: ResolvedService) -> Seq<char> {
    match found.path {
        Some(p) => p@,
        None => path_by_name(found.instance@),
    }
}

/// The session of a resolved service: with the path it names, or else the one
/// that follows from its name.
pub fn session_of(found: ResolvedService) -> (s: RavennaSession)
    ensures
        s.instance == found.instance,
        s.host@ == without_dots(found.host@),
        s.addr == found.addr,
        s.port == found.port,
        s.path@ == match found.path {
            Some(p) => p@,
            None => path_by_name(found.instance@),
        },
        s.path@ == session_path(found),
{
    let path: String = match found.path {
        Some(p) => p,
        None => default_path(found.instance.as_str()),
    };
    RavennaSession {
        host: host_name(found.host.as_str()),
        addr: found.addr,
        port: found.port,
        path,
        instance: found.instance,
    }
}

/// The full name of a host in the local domain.
pub fn host_fqdn(host: &str) -> (s: String)
    ensures
        s@ == host@ + ".local."@,
{
    text::cat(host, ".local.")
}

/// The full name of a registered session.
pub fn session_fullname(instance: &str) -> (s: String)
    ensures
        s@ == instance@ + "."@ + RAVENNA_SUBTYPE@,
{
    let mut s: String = text::cat(instance, ".");
    text::push_text(&mut s, RAVENNA_SUBTYPE);
    s
}

/// A host name loses the dots at its end, all of them and nothing else.
pub proof fn host_name_loses_its_last_dots(host: Seq<char>, n: nat)
    requires
        host.len() == 0 || host.last() != '.',
    ensures
        without_dots(host + Seq::new(n, |i: int| '.')) == host,
    decreases n,
{
    let s = host + Seq::new(n, |i: int| '.');
    if n == 0 {
        assert(s =~= host);
    } else {
        host_name_loses_its_last_dots(host, (n - 1) as nat);
        assert(s.drop_last() =~= host + Seq::new((n - 1) as nat, |i: int| '.'));
    }
}

/// A service that names a path has its description there; one that does not has
/// it under the first label of its name.
pub proof fn path_is_the_one_named(found: ResolvedService, label: Seq<char>, rest: Seq<char>)
    requires
        text::laws::free_of(label, '.'),
    ensures
        found.path matches Some(p) ==> session_path(found) == p@,
        found.path is None && found.instance@ == label + seq!['.'] + rest ==> session_path(found)
            == "/by-name/"@ + label,
{
    text::laws::lemma_pieces_behind(label, '.', rest);
}

} // verus!
