//! SDP (RFC 4566) for AES67 and ST 2110-30 Level A.
//!
//! Building is strict: exactly the lines of Level A. Parsing is tolerant:
//! attributes that are not known are passed over. The clock reference of
//! RFC 7273 (`ts-refclk`, `mediaclk`) is read and written.

pub mod laws;

use crate::profile::{Encoding, StreamProfile};
use crate::ptime;
use crate::text;
use vstd::prelude::*;

verus! {

/// What can be wrong with an SDP description.
#[derive(Debug, Clone, PartialEq, Eq)]
pub enum SdpError {
    /// A mandatory line is missing, such as `m=audio`.
    Missing(&'static str),
    /// A value could not be read.
    Malformed(&'static str),
}

impl SdpError {
    /// The message for the log.
    pub fn message(&self) -> (s: String)
        ensures
            s@ == match *self {
                SdpError::Missing(what) => "SDP: Pflichtangabe fehlt: "@ + what@,
                SdpError::Malformed(what) => "SDP: ungueltiger Wert: "@ + what@,
            },
    {
        match self {
            SdpError::Missing(what) => {
                let mut s: String = text::text("SDP: Pflichtangabe fehlt: ");
                text::push_text(&mut s, what);
                s
            },
            SdpError::Malformed(what) => {
                let mut s: String = text::text("SDP: ungueltiger Wert: ");
                text::push_text(&mut s, what);
                s
            },
        }
    }
}

/// A PTP clock reference.
pub struct ClockModel {
    pub gmid: Seq<char>,
    pub domain: u8,
}

/// A PTP clock reference of RFC 7273 (`a=ts-refclk:ptp=...`).
#[derive(Debug, PartialEq, Eq)]
pub struct PtpRefClock {
    /// Identity of the grandmaster, such as `00-11-22-FF-FE-33-44-55`.
    pub gmid: String,
    /// PTP domain.
    pub domain: u8,
}

impl View for PtpRefClock {
    type V = ClockModel;

    open spec fn view(&self) -> ClockModel {
        ClockModel { gmid: self.gmid@, domain: self.domain }
    }
}

impl Clone for PtpRefClock {
    fn clone(&self) -> (r: Self)
        ensures
            r@ == self@,
    {
        PtpRefClock { gmid: self.gmid.clone(), domain: self.domain }
    }
}

/// The reference that an option holds.
pub open spec fn clock_view(c: Option<PtpRefClock>) -> Option<ClockModel> {
    match c {
        Some(rc) => Some(rc@),
        None => None,
    }
}

/// A copy of an optional reference.
pub fn copy_clock(c: &Option<PtpRefClock>) -> (r: Option<PtpRefClock>)
    ensures
        clock_view(r) == clock_view(*c),
{
    match c {
        Some(rc) => Some(rc.clone()),
        None => None,
    }
}

/// What an SDP description of an audio stream says.
pub struct SessionModel {
    pub session_name: Seq<char>,
    pub origin_unicast: Seq<char>,
    pub multicast_addr: Seq<char>,
    pub port: u16,
    pub payload_type: u8,
    pub profile: StreamProfile,
    pub refclk: Option<ClockModel>,
    pub mediaclk_offset: u32,
}

/// Description of an AES67 audio stream.
#[derive(Debug, PartialEq, Eq)]
pub struct AudioSession {
    pub session_name: String,
    /// Unicast source address for the `o=` line.
    pub origin_unicast: String,
    /// Multicast destination of the media.
    pub multicast_addr: String,
    pub port: u16,
    pub payload_type: u8,
    pub profile: StreamProfile,
    /// PTP clock reference (RFC 7273); without one the line is left out.
    pub refclk: Option<PtpRefClock>,
    /// `a=mediaclk:direct=<offset>`, the start offset of the media clock.
    pub mediaclk_offset: u32,
}

impl View for AudioSession {
    type V = SessionModel;

    open spec fn view(&self) -> SessionModel {
        SessionModel {
            session_name: self.session_name@,
            origin_unicast: self.origin_unicast@,
            multicast_addr: self.multicast_addr@,
            port: self.port,
            payload_type: self.payload_type,
            profile: self.profile,
            refclk: clock_view(self.refclk),
            mediaclk_offset: self.mediaclk_offset,
        }
    }
}

impl Clone for AudioSession {
    fn clone(&self) -> (r: Self)
        ensures
            r@ == self@,
    {
        AudioSession {
            session_name: self.session_name.clone(),
            origin_unicast: self.origin_unicast.clone(),
            multicast_addr: self.multicast_addr.clone(),
            port: self.port,
            payload_type: self.payload_type,
            profile: self.profile,
            refclk: copy_clock(&self.refclk),
            mediaclk_offset: self.mediaclk_offset,
        }
    }
}

// ---------------------------------------------------------------------------
// Building
// ---------------------------------------------------------------------------
impl SessionModel {
    /// `m=audio <port> RTP/AVP <payload type>`
    pub open spec fn media_line(self) -> Seq<char> {
        "m=audio "@ + text::decimal(self.port as nat) + " RTP/AVP "@ + text::decimal(
            self.payload_type as nat,
        )
    }

    /// `<rate>/<channels>`
    pub open spec fn rate_part(self) -> Seq<char> {
        text::decimal(self.profile.sample_rate as nat) + "/"@ + text::decimal(
            self.profile.channels as nat,
        )
    }

    /// `<encoding>/<rate>/<channels>`
    pub open spec fn encoding_part(self) -> Seq<char> {
        self.profile.encoding.name() + "/"@ + self.rate_part()
    }

    /// `a=rtpmap:<payload type> <encoding>/<rate>/<channels>`
    pub open spec fn rtpmap_line(self) -> Seq<char> {
        "a=rtpmap:"@ + (text::decimal(self.payload_type as nat) + " "@ + self.encoding_part())
    }

    /// `a=ts-refclk:ptp=IEEE1588-2008:<gmid>:<domain>`
    pub open spec fn refclk_lines(self) -> Seq<Seq<char>> {
        match self.refclk {
            Some(rc) => seq![
                "a=ts-refclk:ptp=IEEE1588-2008:"@ + rc.gmid + ":"@ + text::decimal(
                    rc.domain as nat,
                ),
            ],
            None => seq![],
        }
    }

    /// The lines of the description.
    pub open spec fn sdp_lines(self) -> Seq<Seq<char>> {
        seq![
            "v=0"@,
            "o=- 0 0 IN IP4 "@ + self.origin_unicast,
            "s="@ + self.session_name,
            "c=IN IP4 "@ + self.multicast_addr + "/32"@,
            "t=0 0"@,
            self.media_line(),
            self.rtpmap_line(),
            "a=ptime:"@ + ptime::millis(self.profile.ptime_us),
            "a=recvonly"@,
        ] + self.refclk_lines() + seq![
            "a=mediaclk:direct="@ + text::decimal(self.mediaclk_offset as nat),
        ]
    }
}

impl AudioSession {
    /// The `m=` line.
    fn media_text(&self) -> (s: String)
        ensures
            s@ == self@.media_line(),
    {
        let mut s: String = text::text("m=audio ");
        text::push_decimal(&mut s, self.port as u64);
        text::push_text(&mut s, " RTP/AVP ");
        text::push_decimal(&mut s, self.payload_type as u64);
        s
    }

    /// The `a=rtpmap` line.
    fn rtpmap_text(&self) -> (s: String)
        ensures
            s@ == self@.rtpmap_line(),
    {
        let mut rate: String = text::decimal_text(self.profile.sample_rate as u64);
        text::push_text(&mut rate, "/");
        text::push_decimal(&mut rate, self.profile.channels as u64);
        let mut encoding: String = text::cat(self.profile.encoding.rtpmap_name(), "/");
        text::push_text(&mut encoding, rate.as_str());
        let mut value: String = text::decimal_text(self.payload_type as u64);
        text::push_text(&mut value, " ");
        text::push_text(&mut value, encoding.as_str());
        text::cat("a=rtpmap:", value.as_str())
    }

    /// Builds a strict description that conforms to Level A.
    pub fn to_sdp(&self) -> (s: String)
        ensures
            s@ == text::joined(self@.sdp_lines()),
    {
        let mut s: String = String::new();
        let ghost mut done: Seq<Seq<char>> = Seq::empty();
        text::push_line(&mut s, "v=0", Ghost(done));
        proof {
            done = done.push("v=0"@);
        }
        let origin: String = text::cat("o=- 0 0 IN IP4 ", &self.origin_unicast);
        text::push_line(&mut s, &origin, Ghost(done));
        proof {
            done = done.push(origin@);
        }
        let name: String = text::cat("s=", &self.session_name);
        text::push_line(&mut s, &name, Ghost(done));
        proof {
            done = done.push(name@);
        }
        let mut conn: String = text::cat("c=IN IP4 ", &self.multicast_addr);
        text::push_text(&mut conn, "/32");
        text::push_line(&mut s, &conn, Ghost(done));
        proof {
            done = done.push(conn@);
        }
        text::push_line(&mut s, "t=0 0", Ghost(done));
        proof {
            done = done.push("t=0 0"@);
        }
        let media: String = self.media_text();
        text::push_line(&mut s, &media, Ghost(done));
        proof {
            done = done.push(media@);
        }
        let rtpmap: String = self.rtpmap_text();
        text::push_line(&mut s, &rtpmap, Ghost(done));
        proof {
            done = done.push(rtpmap@);
        }
        let mut time: String = text::text("a=ptime:");
        ptime::push_millis(&mut time, self.profile.ptime_us);
        text::push_line(&mut s, &time, Ghost(done));
        proof {
            done = done.push(time@);
        }
        text::push_line(&mut s, "a=recvonly", Ghost(done));
        proof {
            done = done.push("a=recvonly"@);
        }
        match &self.refclk {
            Some(rc) => {
                let mut clock: String = text::cat("a=ts-refclk:ptp=IEEE1588-2008:", &rc.gmid);
                text::push_text(&mut clock, ":");
                text::push_decimal(&mut clock, rc.domain as u64);
                text::push_line(&mut s, &clock, Ghost(done));
                proof {
                    done = done.push(clock@);
                }
            },
            None => {},
        }
        let mut offset: String = text::text("a=mediaclk:direct=");
        text::push_decimal(&mut offset, self.mediaclk_offset as u64);
        text::push_line(&mut s, &offset, Ghost(done));
        proof {
            done = done.push(offset@);
            assert(done =~= self@.sdp_lines());
        }
        s
    }
}

// ---------------------------------------------------------------------------
// Parsing
// ---------------------------------------------------------------------------
/// What an `a=rtpmap` line says.
#[derive(Debug, Clone, Copy, PartialEq, Eq, Structural)]
pub struct RtpMap {
    pub payload_type: u8,
    pub encoding: Encoding,
    pub sample_rate: u32,
    pub channels: u8,
}

/// What was gathered from the lines read so far.
pub struct DraftModel {
    pub session_name: Seq<char>,
    pub origin_unicast: Seq<char>,
    pub session_conn: Option<Seq<char>>,
    pub media_conn: Option<Seq<char>>,
    pub port: Option<u16>,
    pub payload_type: Option<u8>,
    pub rtpmap: Option<RtpMap>,
    pub ptime_us: Option<u32>,
    pub refclk: Option<ClockModel>,
    pub mediaclk_offset: u32,
    pub in_media: bool,
}

/// Word number `n` of the value of a line.
pub open spec fn nth_word(val: Seq<char>, n: int) -> Option<Seq<char>> {
    if 0 <= n < text::words(val).len() {
        Some(text::words(val)[n])
    } else {
        None
    }
}

/// Piece number `n` between the occurrences of `c`.
pub open spec fn nth_piece(s: Seq<char>, c: char, n: int) -> Option<Seq<char>> {
    if 0 <= n < text::pieces(s, c).len() {
        Some(text::pieces(s, c)[n])
    } else {
        None
    }
}

/// The 8-bit number that the text writes, if it is there and one.
pub open spec fn byte_in(s: Option<Seq<char>>) -> Option<u8> {
    match s {
        Some(t) => match text::unsigned(t, 255) {
            Some(n) => Some(n as u8),
            None => None,
        },
        None => None,
    }
}

/// The 16-bit number that the text writes, if it is there and one.
pub open spec fn short_in(s: Option<Seq<char>>) -> Option<u16> {
    match s {
        Some(t) => match text::unsigned(t, 0xffff) {
            Some(n) => Some(n as u16),
            None => None,
        },
        None => None,
    }
}

/// The 32-bit number that the text writes, if it is there and one.
pub open spec fn long_in(s: Option<Seq<char>>) -> Option<u32> {
    match s {
        Some(t) => match text::unsigned(t, 0xffff_ffff) {
            Some(n) => Some(n as u32),
            None => None,
        },
        None => None,
    }
}

/// The address of a `c=` line: `IN IP4 239.69.83.67/32` gives `239.69.83.67`.
pub open spec fn connection(val: Seq<char>) -> Option<Seq<char>> {
    match nth_word(val, 2) {
        Some(w) => Some(text::pieces(w, '/')[0]),
        None => None,
    }
}

/// The encoding with this name.
pub open spec fn encoding_named(name: Seq<char>) -> Option<Encoding> {
    if name == "L24"@ {
        Some(Encoding::L24)
    } else if name == "L16"@ {
        Some(Encoding::L16)
    } else {
        None
    }
}

/// What the value of an `rtpmap` attribute says; `None` where it is incomplete
/// or of another encoding. One channel is assumed where none is given.
pub open spec fn rtpmap_in(rest: Seq<char>) -> Option<RtpMap> {
    match (byte_in(nth_word(rest, 0)), nth_word(rest, 1)) {
        (Some(pt), Some(enc)) => {
            match (
                encoding_named(text::pieces(enc, '/')[0]),
                long_in(nth_piece(enc, '/', 1)),
            ) {
                (Some(encoding), Some(rate)) => Some(
                    RtpMap {
                        payload_type: pt,
                        encoding,
                        sample_rate: rate,
                        channels: match byte_in(nth_piece(enc, '/', 2)) {
                            Some(c) => c,
                            None => 1,
                        },
                    },
                ),
                _ => None,
            }
        },
        _ => None,
    }
}

/// What the value of a PTP clock reference says: the standard, the identity and
/// the domain, which is 0 where it is missing.
pub open spec fn refclk_in(rest: Seq<char>) -> Option<ClockModel> {
    match nth_piece(rest, ':', 1) {
        Some(gmid) => Some(
            ClockModel {
                gmid,
                domain: match byte_in(nth_piece(rest, ':', 2)) {
                    Some(d) => d,
                    None => 0,
                },
            },
        ),
        None => None,
    }
}

impl DraftModel {
    /// Nothing read yet.
    pub open spec fn blank() -> DraftModel {
        DraftModel {
            session_name: Seq::empty(),
            origin_unicast: Seq::empty(),
            session_conn: None,
            media_conn: None,
            port: None,
            payload_type: None,
            rtpmap: None,
            ptime_us: None,
            refclk: None,
            mediaclk_offset: 0,
            in_media: false,
        }
    }

    /// After the attribute `val`.
    pub open spec fn with_attribute(self, val: Seq<char>) -> DraftModel {
        match text::stripped(val, "rtpmap:"@) {
            Some(rest) => match rtpmap_in(rest) {
                Some(m) => DraftModel { rtpmap: Some(m), ..self },
                None => self,
            },
            None => match text::stripped(val, "ptime:"@) {
                Some(rest) => match ptime::micros(text::trimmed(rest)) {
                    Some(us) => DraftModel { ptime_us: Some(us), ..self },
                    None => self,
                },
                None => match text::stripped(val, "ts-refclk:ptp="@) {
                    Some(rest) => match refclk_in(rest) {
                        Some(rc) => DraftModel { refclk: Some(rc), ..self },
                        None => self,
                    },
                    None => match text::stripped(val, "mediaclk:direct="@) {
                        Some(rest) => match long_in(Some(text::trimmed(rest))) {
                            Some(off) => DraftModel { mediaclk_offset: off, ..self },
                            None => self,
                        },
                        None => self,
                    },
                },
            },
        }
    }

    /// After the media line with the value `val`. Another kind of media than
    /// audio only starts the media part.
    pub open spec fn with_media(self, val: Seq<char>) -> DraftModel {
        if nth_word(val, 0) == Some("audio"@) {
            DraftModel {
                in_media: true,
                port: short_in(nth_word(val, 1)),
                payload_type: byte_in(nth_word(val, 3)),
                ..self
            }
        } else {
            DraftModel { in_media: true, ..self }
        }
    }

    /// After the line with this tag and value.
    pub open spec fn with_field(self, tag: Seq<char>, val: Seq<char>) -> DraftModel {
        if tag == "s"@ {
            DraftModel { session_name: val, ..self }
        } else if tag == "o"@ {
            match nth_word(val, 5) {
                Some(addr) => DraftModel { origin_unicast: addr, ..self },
                None => self,
            }
        } else if tag == "c"@ {
            if self.in_media {
                DraftModel { media_conn: connection(val), ..self }
            } else {
                DraftModel { session_conn: connection(val), ..self }
            }
        } else if tag == "m"@ {
            self.with_media(val)
        } else if tag == "a"@ {
            self.with_attribute(val)
        } else {
            self
        }
    }

    /// After the line `raw`. A line without an equals sign is passed over.
    #[verifier::opaque]
    pub open spec fn with_line(self, raw: Seq<char>) -> DraftModel {
        match text::parted(text::without_crs(raw), '=') {
            Some((tag, val)) => self.with_field(tag, val),
            None => self,
        }
    }

    /// After all of the lines.
    pub open spec fn with_lines(self, lines: Seq<Seq<char>>) -> DraftModel
        decreases lines.len(),
    {
        if lines.len() == 0 {
            self
        } else {
            self.with_line(lines[0]).with_lines(lines.drop_first())
        }
    }

    /// The session; where it is incomplete, what is missing first.
    pub open spec fn finished(self) -> Result<SessionModel, Seq<char>> {
        match self.port {
            None => Err("m=audio"@),
            Some(port) => match self.rtpmap {
                None => Err("a=rtpmap"@),
                Some(m) => {
                    let conn = match self.media_conn {
                        Some(c) => Some(c),
                        None => self.session_conn,
                    };
                    match conn {
                        None => Err("c= (Multicast)"@),
                        Some(addr) => Ok(
                            SessionModel {
                                session_name: self.session_name,
                                origin_unicast: self.origin_unicast,
                                multicast_addr: addr,
                                port,
                                payload_type: match self.payload_type {
                                    Some(pt) => pt,
                                    None => m.payload_type,
                                },
                                profile: StreamProfile {
                                    sample_rate: m.sample_rate,
                                    channels: m.channels,
                                    ptime_us: match self.ptime_us {
                                        Some(us) => us,
                                        None => 1_000,
                                    },
                                    encoding: m.encoding,
                                },
                                refclk: self.refclk,
                                mediaclk_offset: self.mediaclk_offset,
                            },
                        ),
                    }
                },
            },
        }
    }
}

/// What parsing the text gives: the session, or what is missing.
pub open spec fn parsed(sdp: Seq<char>) -> Result<SessionModel, Seq<char>> {
    DraftModel::blank().with_lines(text::lines(sdp)).finished()
}

/// What was gathered from the lines read so far.
struct Draft {
    session_name: String,
    origin_unicast: String,
    session_conn: Option<String>,
    media_conn: Option<String>,
    port: Option<u16>,
    payload_type: Option<u8>,
    rtpmap: Option<RtpMap>,
    ptime_us: Option<u32>,
    refclk: Option<PtpRefClock>,
    mediaclk_offset: u32,
    in_media: bool,
}

impl View for Draft {
    type V = DraftModel;

    closed spec fn view(&self) -> DraftModel {
        DraftModel {
            session_name: self.session_name@,
            origin_unicast: self.origin_unicast@,
            session_conn: text::optional(self.session_conn),
            media_conn: text::optional(self.media_conn),
            port: self.port,
            payload_type: self.payload_type,
            rtpmap: self.rtpmap,
            ptime_us: self.ptime_us,
            refclk: clock_view(self.refclk),
            mediaclk_offset: self.mediaclk_offset,
            in_media: self.in_media,
        }
    }
}

/// The slice that an option holds.
spec fn opt_slice(s: Option<&[char]>) -> Option<Seq<char>> {
    match s {
        Some(t) => Some(t@),
        None => None,
    }
}

/// Word number `n`.
fn word_at<'a>(val: &'a [char], n: usize) -> (r: Option<&'a [char]>)
    ensures
        opt_slice(r) == nth_word(val@, n as int),
{
    text::word(val, n)
}

/// Piece number `n`.
fn piece_at<'a>(s: &'a [char], c: char, n: usize) -> (r: Option<&'a [char]>)
    ensures
        opt_slice(r) == nth_piece(s@, c, n as int),
{
    text::piece(s, c, n)
}

/// The 8-bit number in the text.
fn read_byte(s: Option<&[char]>) -> (r: Option<u8>)
    ensures
        r == byte_in(opt_slice(s)),
{
    match s {
        Some(t) => match text::parse_unsigned(t, 255) {
            Some(n) => Some(n as u8),
            None => None,
        },
        None => None,
    }
}

/// The 16-bit number in the text.
fn read_short(s: Option<&[char]>) -> (r: Option<u16>)
    ensures
        r == short_in(opt_slice(s)),
{
    match s {
        Some(t) => match text::parse_unsigned(t, 0xffff) {
            Some(n) => Some(n as u16),
            None => None,
        },
        None => None,
    }
}

/// The 32-bit number in the text.
fn read_long(s: Option<&[char]>) -> (r: Option<u32>)
    ensures
        r == long_in(opt_slice(s)),
{
    match s {
        Some(t) => match text::parse_unsigned(t, 0xffff_ffff) {
            Some(n) => Some(n as u32),
            None => None,
        },
        None => None,
    }
}

/// There is always a first piece.
proof fn lemma_first_piece(s: Seq<char>, c: char)
    ensures
        text::pieces(s, c).len() > 0,
{
}

/// The address of a `c=` line: `IN IP4 239.69.83.67/32` gives `239.69.83.67`.
pub fn parse_connection(val: &[char]) -> (r: Option<String>)
    ensures
        text::optional(r) == connection(val@),
{
    match word_at(val, 2) {
        Some(w) => {
            proof {
                lemma_first_piece(w@, '/');
            }
            match text::piece(w, '/', 0) {
                Some(addr) => Some(text::string_of(addr)),
                None => None,
            }
        },
        None => None,
    }
}

/// The encoding with this name.
fn read_encoding(name: &[char]) -> (r: Option<Encoding>)
    ensures
        r == encoding_named(name@),
{
    if text::is_text(name, "L24") {
        Some(Encoding::L24)
    } else if text::is_text(name, "L16") {
        Some(Encoding::L16)
    } else {
        None
    }
}

/// What the value of an `rtpmap` attribute says.
fn read_rtpmap(rest: &[char]) -> (r: Option<RtpMap>)
    ensures
        r == rtpmap_in(rest@),
{
    let pt: u8 = match read_byte(word_at(rest, 0)) {
        Some(pt) => pt,
        None => {
            return None;
        },
    };
    let enc: &[char] = match word_at(rest, 1) {
        Some(enc) => enc,
        None => {
            return None;
        },
    };
    proof {
        lemma_first_piece(enc@, '/');
    }
    let encoding: Encoding = match text::piece(enc, '/', 0) {
        Some(name) => match read_encoding(name) {
            Some(e) => e,
            None => {
                return None;
            },
        },
        None => {
            return None;
        },
    };
    let rate: u32 = match read_long(piece_at(enc, '/', 1)) {
        Some(rate) => rate,
        None => {
            return None;
        },
    };
    let channels: u8 = match read_byte(piece_at(enc, '/', 2)) {
        Some(c) => c,
        None => 1,
    };
    Some(RtpMap { payload_type: pt, encoding, sample_rate: rate, channels })
}

/// What the value of a PTP clock reference says.
fn read_refclk(rest: &[char]) -> (r: Option<PtpRefClock>)
    ensures
        clock_view(r) == refclk_in(rest@),
{
    match piece_at(rest, ':', 1) {
        Some(gmid) => {
            let domain: u8 = match read_byte(piece_at(rest, ':', 2)) {
                Some(d) => d,
                None => 0,
            };
            Some(PtpRefClock { gmid: text::string_of(gmid), domain })
        },
        None => None,
    }
}

impl Draft {
    /// Nothing read yet.
    fn new() -> (d: Self)
        ensures
            d@ == DraftModel::blank(),
    {
        Draft {
            session_name: String::new(),
            origin_unicast: String::new(),
            session_conn: None,
            media_conn: None,
            port: None,
            payload_type: None,
            rtpmap: None,
            ptime_us: None,
            refclk: None,
            mediaclk_offset: 0,
            in_media: false,
        }
    }

    /// Takes in an attribute. What is not known is passed over.
    fn parse_attribute(&mut self, val: &[char])
        ensures
            final(self)@ == old(self)@.with_attribute(val@),
    {
        match text::strip(val, "rtpmap:") {
            Some(rest) => {
                match read_rtpmap(rest) {
                    Some(m) => {
                        self.rtpmap = Some(m);
                    },
                    None => {},
                }
                return;
            },
            None => {},
        }
        match text::strip(val, "ptime:") {
            Some(rest) => {
                match ptime::parse_micros(text::trim(rest)) {
                    Some(us) => {
                        self.ptime_us = Some(us);
                    },
                    None => {},
                }
                return;
            },
            None => {},
        }
        match text::strip(val, "ts-refclk:ptp=") {
            Some(rest) => {
                match read_refclk(rest) {
                    Some(rc) => {
                        self.refclk = Some(rc);
                    },
                    None => {},
                }
                return;
            },
            None => {},
        }
        match text::strip(val, "mediaclk:direct=") {
            Some(rest) => {
                match read_long(Some(text::trim(rest))) {
                    Some(off) => {
                        self.mediaclk_offset = off;
                    },
                    None => {},
                }
            },
            None => {},
        }
    }

    /// Takes in a media line.
    fn parse_media(&mut self, val: &[char])
        ensures
            final(self)@ == old(self)@.with_media(val@),
    {
        self.in_media = true;
        match word_at(val, 0) {
            Some(kind) => {
                if text::is_text(kind, "audio") {
                    self.port = read_short(word_at(val, 1));
                    self.payload_type = read_byte(word_at(val, 3));
                }
            },
            None => {},
        }
    }

    /// Takes in a line.
    fn parse_line(&mut self, raw: &[char])
        ensures
            final(self)@ == old(self)@.with_line(raw@),
    {
        proof {
            reveal(DraftModel::with_line);
        }
        let line: &[char] = text::drop_crs(raw);
        let (tag, val): (&[char], &[char]) = match text::split_once(line, '=') {
            Some(p) => p,
            None => {
                return;
            },
        };
        if text::is_text(tag, "s") {
            self.session_name = text::string_of(val);
        } else if text::is_text(tag, "o") {
            match word_at(val, 5) {
                Some(addr) => {
                    self.origin_unicast = text::string_of(addr);
                },
                None => {},
            }
        } else if text::is_text(tag, "c") {
            let addr: Option<String> = parse_connection(val);
            if self.in_media {
                self.media_conn = addr;
            } else {
                self.session_conn = addr;
            }
        } else if text::is_text(tag, "m") {
            self.parse_media(val);
        } else if text::is_text(tag, "a") {
            self.parse_attribute(val);
        }
    }

    /// The session, where nothing is missing.
    fn finish(self) -> (r: Result<AudioSession, SdpError>)
        ensures
            match self@.finished() {
                Ok(m) => r matches Ok(s) && s@ == m,
                Err(what) => r matches Err(SdpError::Missing(t)) && t@ == what,
            },
    {
        let port: u16 = match self.port {
            Some(p) => p,
            None => {
                return Err(SdpError::Missing("m=audio"));
            },
        };
        let map: RtpMap = match self.rtpmap {
            Some(m) => m,
            None => {
                return Err(SdpError::Missing("a=rtpmap"));
            },
        };
        let payload_type: u8 = match self.payload_type {
            Some(pt) => pt,
            None => map.payload_type,
        };
        let conn: Option<String> = match self.media_conn {
            Some(c) => Some(c),
            None => self.session_conn,
        };
        let multicast_addr: String = match conn {
            Some(c) => c,
            None => {
                return Err(SdpError::Missing("c= (Multicast)"));
            },
        };
        let ptime_us: u32 = match self.ptime_us {
            Some(us) => us,
            None => 1_000,
        };
        Ok(
            AudioSession {
                session_name: self.session_name,
                origin_unicast: self.origin_unicast,
                multicast_addr,
                port,
                payload_type,
                profile: StreamProfile {
                    sample_rate: map.sample_rate,
                    channels: map.channels,
                    ptime_us,
                    encoding: map.encoding,
                },
                refclk: self.refclk,
                mediaclk_offset: self.mediaclk_offset,
            },
        )
    }
}

impl AudioSession {
    /// Parses a description tolerantly. It needs at least an `m=audio` line with
    /// a port, an `a=rtpmap` line and a `c=` line; of two `c=` lines the one in
    /// the media part counts. Without `a=ptime` one millisecond is assumed.
    pub fn parse(sdp: &str) -> (r: Result<AudioSession, SdpError>)
        ensures
            match parsed(sdp@) {
                Ok(m) => r matches Ok(s) && s@ == m,
                Err(what) => r matches Err(SdpError::Missing(t)) && t@ == what,
            },
    {
        let all: Vec<char> = text::chars_of(sdp);
        let mut draft: Draft = Draft::new();
        let mut at: usize = 0;
        assert(all@.skip(0) =~= all@);
        while at < all.len()
            invariant
                at <= all@.len(),
                DraftModel::blank().with_lines(text::lines(all@)) == draft@.with_lines(
                    text::lines(all@.skip(at as int)),
                ),
            decreases all@.len() - at,
        {
            let (line, next): (&[char], usize) = text::line_at(all.as_slice(), at);
            proof {
                let ls = text::lines(all@.skip(at as int));
                assert(ls.drop_first() =~= text::lines(all@.skip(next as int)));
                assert(ls[0] == line@);
            }
            draft.parse_line(line);
            at = next;
        }
        proof {
            assert(all@.skip(at as int) =~= Seq::<char>::empty());
        }
        draft.finish()
    }
}

} // verus!
