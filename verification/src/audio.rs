//! The seam to the audio device.
//!
//! The rest of the system knows the device as an [`AudioBackend`] only. A
//! backend is pulled for captured samples and pushed with samples to be played.

pub mod device;

use crate::profile::StreamProfile;
use crate::text;
use vstd::prelude::*;

verus! {

/// What can go wrong with a backend.
#[derive(Debug)]
pub enum AudioError {
    /// Not there on this platform, or not built in.
    Unavailable(&'static str),
    /// The device could not be opened.
    Open(String),
}

impl AudioError {
    /// The message for the log.
    pub fn message(&self) -> (s: String)
        ensures
            s@ == match *self {
                AudioError::Unavailable(what) => "Audio-Backend nicht verfuegbar: "@ + what@,
                AudioError::Open(what) => "Audio-Backend Oeffnen fehlgeschlagen: "@ + what@,
            },
    {
        match self {
            AudioError::Unavailable(what) => {
                let mut s: String = text::text("Audio-Backend nicht verfuegbar: ");
                text::push_text(&mut s, what);
                s
            },
            AudioError::Open(what) => {
                let mut s: String = text::text("Audio-Backend Oeffnen fehlgeschlagen: ");
                text::push_text(&mut s, what.as_str());
                s
            },
        }
    }
}

/// A block of interleaved samples, left-aligned.
pub type AudioBlock = Vec<i32>;

/// What is told of a backend between calls: the profile that it runs at, where
/// that is known, and the frames played so far.
pub struct BackendState {
    pub profile: Option<StreamProfile>,
    pub frames: int,
}

/// An audio device, as the endpoint sees it. What it may answer, and what that
/// makes of it, is named, and nothing else is asked of it.
pub trait AudioBackend: Send {
    /// What is told of the backend at this moment; nothing, where it says nothing.
    open spec fn state(&self) -> BackendState {
        BackendState { profile: None, frames: 0 }
    }

    /// Whether `name` may be the name of the backend.
    open spec fn is_named(&self, name: Seq<char>) -> bool {
        true
    }

    /// Whether `profile` may be the one that the backend runs at.
    open spec fn runs_at(&self, profile: StreamProfile) -> bool {
        true
    }

    /// Whether `r` may come of one capture of up to `max_frames` frames, and the
    /// backend be left in the state `after`.
    open spec fn captures(
        &self,
        max_frames: usize,
        r: Result<AudioBlock, AudioError>,
        after: BackendState,
    ) -> bool {
        true
    }

    /// Whether `r` may come of playing `samples` once, and the backend be left in
    /// the state `after`.
    open spec fn plays(
        &self,
        samples: Seq<i32>,
        r: Result<(), AudioError>,
        after: BackendState,
    ) -> bool {
        true
    }

    /// Readable name, for logs.
    fn name(&self) -> (s: &str)
        ensures
            self.is_named(s@),
    ;

    /// The profile that the backend runs at.
    fn profile(&self) -> (p: StreamProfile)
        ensures
            self.runs_at(p),
    ;

    /// Reads up to `max_frames` captured frames. Gives the samples read (frames
    /// times channels), possibly none.
    fn read_capture(&mut self, max_frames: usize) -> (r: Result<AudioBlock, AudioError>)
        requires
            max_frames * 255 <= usize::MAX,
        ensures
            old(self).captures(max_frames, r, final(self).state()),
    ;

    /// Hands received samples to the device.
    fn write_playback(&mut self, samples: &[i32]) -> (r: Result<(), AudioError>)
        ensures
            old(self).plays(samples@, r, final(self).state()),
    ;
}

/// The backend without a device: capture gives silence, and what is played is
/// counted and dropped.
pub struct NullBackend {
    profile: StreamProfile,
    frames_written: u64,
}

/// `n` samples of silence.
pub open spec fn silence(n: nat) -> Seq<i32> {
    Seq::new(n, |i: int| 0i32)
}

/// Whether `r` is the silence of `frames` frames.
pub open spec fn gives_silence(
    profile: StreamProfile,
    frames: usize,
    r: Result<AudioBlock, AudioError>,
) -> bool {
    r matches Ok(b) && b@ == silence((frames * profile.channels) as nat)
}

/// What is told of a backend without a device.
pub open spec fn null_state(profile: StreamProfile, written: int) -> BackendState {
    BackendState { profile: Some(profile), frames: written }
}

/// Frames played after `len` samples more, counted with 64 bits. Without channels
/// there are no frames.
pub open spec fn played(profile: StreamProfile, written: int, len: nat) -> int {
    if profile.channels == 0 {
        written
    } else {
        (written + len as int / profile.channels as int) % 0x1_0000_0000_0000_0000
    }
}

impl NullBackend {
    /// Frames handed over for playback so far, counted with 64 bits.
    pub closed spec fn written(&self) -> u64 {
        self.frames_written
    }

    /// The profile.
    pub closed spec fn shape(&self) -> StreamProfile {
        self.profile
    }

    pub fn new(profile: StreamProfile) -> (b: Self)
        ensures
            b.shape() == profile,
            b.written() == 0,
    {
        NullBackend { profile, frames_written: 0 }
    }

    /// How many frames were written for playback in all.
    pub fn frames_written(&self) -> (n: u64)
        ensures
            n == self.written(),
    {
        self.frames_written
    }
}

impl AudioBackend for NullBackend {
    open spec fn is_named(&self, name: Seq<char>) -> bool {
        name == "null (headless)"@
    }

    open spec fn runs_at(&self, profile: StreamProfile) -> bool {
        profile == self.shape()
    }

    open spec fn state(&self) -> BackendState {
        null_state(self.shape(), self.written() as int)
    }

    open spec fn captures(
        &self,
        max_frames: usize,
        r: Result<AudioBlock, AudioError>,
        after: BackendState,
    ) -> bool {
        gives_silence(self.shape(), max_frames, r) && after == self.state()
    }

    open spec fn plays(
        &self,
        samples: Seq<i32>,
        r: Result<(), AudioError>,
        after: BackendState,
    ) -> bool {
        r is Ok && after == null_state(
            self.shape(),
            played(self.shape(), self.written() as int, samples.len()),
        )
    }

    fn name(&self) -> &str {
        "null (headless)"
    }

    fn profile(&self) -> StreamProfile {
        self.profile
    }

    fn read_capture(&mut self, max_frames: usize) -> (r: Result<AudioBlock, AudioError>)
        ensures
            *final(self) == *old(self),
    {
        let ch: usize = self.profile.channels as usize;
        assert(max_frames * ch <= max_frames * 255) by (nonlinear_arith)
            requires
                ch <= 255,
        ;
        let n: usize = max_frames * ch;
        let mut block: Vec<i32> = Vec::new();
        while block.len() < n
            invariant
                block@.len() <= n,
                forall|j: int| 0 <= j < block@.len() ==> block@[j] == 0,
            decreases n - block@.len(),
        {
            block.push(0);
        }
        assert(block@ =~= silence(n as nat));
        Ok(block)
    }

    fn write_playback(&mut self, samples: &[i32]) -> (r: Result<(), AudioError>)
        ensures
            final(self).shape() == old(self).shape(),
            final(self).written() == played(
                old(self).shape(),
                old(self).written() as int,
                samples@.len(),
            ),
    {
        let ch: u64 = self.profile.channels as u64;
        if ch != 0 {
            let frames: u64 = samples.len() as u64 / ch;
            self.frames_written = self.frames_written.wrapping_add(frames);
        }
        Ok(())
    }
}

/// Whether a backend is the one without a device, at the given profile, and has
/// played nothing yet.
pub open spec fn is_headless<B: AudioBackend + ?Sized>(b: &B, profile: StreamProfile) -> bool {
    &&& forall|s: Seq<char>| #[trigger] b.is_named(s) <==> s == "null (headless)"@
    &&& forall|p: StreamProfile| #[trigger] b.runs_at(p) <==> p == profile
    &&& b.state() == null_state(profile, 0)
    &&& forall|n: usize, r: Result<AudioBlock, AudioError>, after: BackendState| #[trigger]
        b.captures(n, r, after) <==> gives_silence(profile, n, r) && after == b.state()
    &&& forall|s: Seq<i32>, r: Result<(), AudioError>, after: BackendState| #[trigger]
        b.plays(s, r, after) <==> r is Ok && after == null_state(
            profile,
            played(profile, 0, s.len()),
        )
}

/// Opens the backend for this platform: the one without a device.
pub fn open_default(profile: StreamProfile) -> (r: Result<Box<dyn AudioBackend>, AudioError>)
    ensures
        r matches Ok(b) && is_headless(&*b, profile),
{
    Ok(Box::new(NullBackend::new(profile)))
}

/// Which device is wanted in each direction; `None` is the default device of the
/// platform.
#[derive(Debug, Default, Clone)]
pub struct DeviceSelection {
    /// Capture device (from the workstation to the network).
    pub capture: Option<String>,
    /// Playback device (from the network to the workstation).
    pub playback: Option<String>,
}

/// Opens a backend for the wanted directions with the default devices.
pub fn open(
    profile: StreamProfile,
    capture: bool,
    playback: bool,
    use_device: bool,
) -> (b: Box<NullBackend>)
    ensures
        b.shape() == profile,
        b.written() == 0,
{
    let sel = DeviceSelection { capture: None, playback: None };
    open_with(profile, capture, playback, use_device, sel)
}

/// Opens a backend for the wanted directions. No device driver is built in here,
/// so it is always the one without a device, whatever is asked for.
pub fn open_with(
    profile: StreamProfile,
    capture: bool,
    playback: bool,
    use_device: bool,
    sel: DeviceSelection,
) -> (b: Box<NullBackend>)
    ensures
        b.shape() == profile,
        b.written() == 0,
{
    Box::new(NullBackend::new(profile))
}

/// Level, in frames, at which a playback buffer is held.
pub open spec fn level(sample_rate: u32) -> int {
    if sample_rate / 100 < 2 {
        2
    } else {
        sample_rate as int / 100
    }
}

/// Level, in frames, at which a playback buffer is held: 10 ms, at least two
/// frames.
pub fn target_frames(sample_rate: u32) -> (n: usize)
    ensures
        n == (if sample_rate / 100 < 2 {
            2
        } else {
            sample_rate / 100
        }),
        n == level(sample_rate),
{
    let n: usize = sample_rate as usize / 100;
    if n < 2 {
        2
    } else {
        n
    }
}

/// What is played counts: two blocks of whole frames count as both together, a
/// frame for each sample of a channel, in 64 bits.
pub proof fn played_frames_add_up(profile: StreamProfile, written: u64, m: nat, n: nat)
    requires
        profile.channels > 0,
    ensures
        played(profile, written as int, m * (profile.channels as nat)) == (written + m)
            % 0x1_0000_0000_0000_0000,
        played(
            profile,
            played(profile, written as int, m * (profile.channels as nat)),
            n * (profile.channels as nat),
        ) == (written + m + n) % 0x1_0000_0000_0000_0000,
        silence(n).len() == n,
        forall|i: int| 0 <= i < n ==> silence(n)[i] == 0,
{
    let c = profile.channels as int;
    vstd::arithmetic::div_mod::lemma_div_multiples_vanish(m as int, c);
    vstd::arithmetic::div_mod::lemma_div_multiples_vanish(n as int, c);
    assert(c * m == m * c) by (nonlinear_arith);
    assert(c * n == n * c) by (nonlinear_arith);
    let w = (written + m) as int;
    vstd::arithmetic::div_mod::lemma_add_mod_noop(w, n as int, 0x1_0000_0000_0000_0000);
    vstd::arithmetic::div_mod::lemma_mod_twice(w, 0x1_0000_0000_0000_0000);
    vstd::arithmetic::div_mod::lemma_add_mod_noop(
        w % 0x1_0000_0000_0000_0000,
        n as int,
        0x1_0000_0000_0000_0000,
    );
}

/// A backend without a device gives silence: as many samples as the frames have
/// over all channels, all of them zero, and it never fails.
pub proof fn capture_without_a_device_is_silence(
    profile: StreamProfile,
    frames: usize,
    r: Result<AudioBlock, AudioError>,
)
    requires
        gives_silence(profile, frames, r),
    ensures
        r matches Ok(b) && b@.len() == frames * profile.channels && forall|i: int|
            0 <= i < b@.len() ==> #[trigger] b@[i] == 0,
{
    assert(frames * profile.channels >= 0) by (nonlinear_arith);
}

/// A playback buffer is held at the frames of 10 ms, a hundredth of a second, and
/// at two at least.
pub proof fn level_is_ten_milliseconds(sample_rate: u32)
    ensures
        level(sample_rate) >= 2,
        sample_rate >= 200 ==> level(sample_rate) * 100 <= sample_rate < (level(sample_rate) + 1)
            * 100,
        sample_rate < 200 ==> level(sample_rate) == 2,
{
}

} // verus!
