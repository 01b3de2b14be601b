//! What a device driver needs besides the device: the ring buffers between its
//! callbacks and the endpoint, the sample conversions, and the choice of a
//! device by name.

use crate::bytes;
use crate::profile::StreamProfile;
use crate::text;
use crate::utf8;
use std::collections::VecDeque;
use vstd::prelude::*;

verus! {

/// Most samples that a ring buffer holds: one second.
pub fn max_samples(profile: &StreamProfile) -> (n: usize)
    requires
        profile.sample_rate * profile.channels <= usize::MAX,
    ensures
        n == profile.sample_rate * profile.channels,
{
    profile.sample_rate as usize * profile.channels as usize
}

/// Name of a direction, for messages.
pub fn dir_label(input: bool) -> (s: &'static str)
    ensures
        s@ == (if input {
            "Eingabegerät"@
        } else {
            "Ausgabegerät"@
        }),
{
    if input {
        "Eingabegerät"
    } else {
        "Ausgabegerät"
    }
}

/// The last `cap` samples.
pub open spec fn newest(s: Seq<i32>, cap: nat) -> Seq<i32> {
    if s.len() <= cap {
        s
    } else {
        s.skip(s.len() - cap)
    }
}

/// Appends samples to a ring buffer and drops the oldest beyond `cap`.
pub fn push_capped(buf: &mut VecDeque<i32>, samples: &[i32], cap: usize)
    ensures
        final(buf)@ == newest(old(buf)@ + samples@, cap as nat),
{
    let mut i: usize = 0;
    while i < samples.len()
        invariant
            i <= samples@.len(),
            buf@ == old(buf)@ + samples@.take(i as int),
        decreases samples@.len() - i,
    {
        buf.push_back(samples[i]);
        i = i + 1;
        assert(buf@ =~= old(buf)@ + samples@.take(i as int));
    }
    assert(samples@.take(samples@.len() as int) =~= samples@);
    let ghost all = old(buf)@ + samples@;
    let ghost mut dropped: int = 0;
    assert(all.skip(0) =~= all);
    while buf.len() > cap
        invariant
            0 <= dropped <= all.len(),
            buf@ == all.skip(dropped),
            all == old(buf)@ + samples@,
            dropped == 0 || all.len() - dropped >= cap,
        decreases buf@.len(),
    {
        let _ = buf.pop_front();
        proof {
            dropped = dropped + 1;
            assert(buf@ =~= all.skip(dropped));
        }
    }
    assert(buf@ =~= newest(all, cap as nat));
}

/// What is read from a ring buffer: the oldest samples, and silence where there
/// are too few.
pub open spec fn read_out(s: Seq<i32>, want: nat) -> Seq<i32> {
    if s.len() >= want {
        s.take(want as int)
    } else {
        s + crate::audio::silence((want - s.len()) as nat)
    }
}

/// What is left in a ring buffer after `want` samples were read.
pub open spec fn left_over(s: Seq<i32>, want: nat) -> Seq<i32> {
    if s.len() >= want {
        s.skip(want as int)
    } else {
        Seq::empty()
    }
}

/// Takes `want` samples from a ring buffer; silence fills what is missing.
pub fn pop_or_silence(buf: &mut VecDeque<i32>, want: usize) -> (out: Vec<i32>)
    ensures
        out@ == read_out(old(buf)@, want as nat),
        final(buf)@ == left_over(old(buf)@, want as nat),
{
    let mut out: Vec<i32> = Vec::new();
    assert(old(buf)@.skip(0) =~= old(buf)@);
    while out.len() < want
        invariant
            out@.len() <= want,
            out@ == read_out(old(buf)@, out@.len()),
            buf@ == left_over(old(buf)@, out@.len()),
        decreases want - out@.len(),
    {
        let ghost n = out@.len();
        let s: i32 = match buf.pop_front() {
            Some(s) => s,
            None => 0,
        };
        out.push(s);
        proof {
            assert(out@ =~= read_out(old(buf)@, n + 1));
            assert(buf@ =~= left_over(old(buf)@, n + 1));
        }
    }
    out
}

/// A 16-bit sample, left-aligned in 32 bits.
pub fn widen(s: i16) -> (w: i32)
    ensures
        w == s * 0x1_0000,
{
    s as i32 * 0x1_0000
}

/// The upper 16 bits of a left-aligned sample.
pub fn narrow(s: i32) -> (n: i16)
    ensures
        n == (s as int) / 0x1_0000,
{
    bytes::to_signed16((bytes::to_bits32(s) / 0x1_0000) as u16)
}

/// A 16-bit sample survives the way through 32 bits.
pub proof fn widened_sample_narrows_back(s: i16)
    ensures
        (s * 0x1_0000) / 0x1_0000 == s,
{
}

// ---------------------------------------------------------------------------
// Choice of a device
// ---------------------------------------------------------------------------
/// Whether `part` occurs in `s`.
pub open spec fn contains(s: Seq<char>, part: Seq<char>) -> bool {
    exists|i: int|
        #![trigger s.subrange(i, i + part.len())]
        0 <= i && i + part.len() <= s.len() && s.subrange(i, i + part.len()) == part
}

/// Whether `part` occurs in `s`.
pub fn contains_text(s: &str, part: &str) -> (r: bool)
    ensures
        r == contains(s@, part@),
{
    let a: Vec<char> = text::chars_of(s);
    let p: Vec<char> = text::chars_of(part);
    if p.len() > a.len() {
        return false;
    }
    let mut i: usize = 0;
    while i <= a.len() - p.len()
        invariant
            p@.len() <= a@.len(),
            a@ == s@,
            p@ == part@,
            i <= a@.len() - p@.len() + 1,
            forall|j: int|
                0 <= j < i ==> #[trigger] a@.subrange(j, j + p@.len()) != p@,
        decreases a@.len() + 1 - i,
    {
        let window: &[char] = vstd::slice::slice_subrange(a.as_slice(), i, i + p.len());
        if text::same_chars(window, p.as_slice()) {
            assert(s@.subrange(i as int, i + part@.len()) == part@);
            return true;
        }
        if i == usize::MAX {
            return false;
        }
        i = i + 1;
    }
    false
}

/// Whether device `i` is called `want`, capital and small ASCII letters alike.
pub open spec fn exact_match(names: Seq<Option<String>>, i: int, want: Seq<char>) -> bool {
    names[i] matches Some(n) && text::lower(n@) == text::lower(want)
}

/// Whether `want` occurs in the name of device `i`, in small letters.
pub open spec fn partial_match(names: Seq<Option<String>>, i: int, want: Seq<char>) -> bool {
    names[i] matches Some(n) && contains(utf8::lowercase_text(n@), utf8::lowercase_text(want))
}

/// Chooses a device by name: the first one whose name is the wanted one, or else
/// the first one whose name holds it. A name that fits no device gives none, so
/// that a wanted device is never replaced silently. `names` holds the devices in
/// order, `None` where a device has no readable name.
pub fn pick_by_name(names: &Vec<Option<String>>, want: &str) -> (r: Option<usize>)
    ensures
        match r {
            Some(i) => i < names@.len() && {
                ||| exact_match(names@, i as int, want@) && forall|j: int|
                    0 <= j < i ==> !#[trigger] exact_match(names@, j, want@)
                ||| partial_match(names@, i as int, want@) && (forall|j: int|
                    0 <= j < names@.len() ==> !#[trigger] exact_match(names@, j, want@)) && forall|
                    j: int,
                |
                    0 <= j < i ==> !#[trigger] partial_match(names@, j, want@)
            },
            None => {
                &&& forall|j: int|
                    0 <= j < names@.len() ==> !#[trigger] exact_match(names@, j, want@)
                &&& forall|j: int|
                    0 <= j < names@.len() ==> !#[trigger] partial_match(names@, j, want@)
            },
        },
{
    let want_chars: Vec<char> = text::chars_of(want);
    let want_small: Vec<char> = text::to_lower(want_chars.as_slice());
    let mut i: usize = 0;
    while i < names.len()
        invariant
            i <= names@.len(),
            want_small@ == text::lower(want@),
            forall|j: int| 0 <= j < i ==> !#[trigger] exact_match(names@, j, want@),
        decreases names@.len() - i,
    {
        match &names[i] {
            Some(n) => {
                let chars: Vec<char> = text::chars_of(n.as_str());
                let small: Vec<char> = text::to_lower(chars.as_slice());
                if text::same_chars(small.as_slice(), want_small.as_slice()) {
                    return Some(i);
                }
            },
            None => {},
        }
        i = i + 1;
    }
    let want_low: String = utf8::lowercase(want);
    let mut k: usize = 0;
    while k < names.len()
        invariant
            k <= names@.len(),
            want_low@ == utf8::lowercase_text(want@),
            forall|j: int| 0 <= j < names@.len() ==> !#[trigger] exact_match(names@, j, want@),
            forall|j: int| 0 <= j < k ==> !#[trigger] partial_match(names@, j, want@),
        decreases names@.len() - k,
    {
        match &names[k] {
            Some(n) => {
                let low: String = utf8::lowercase(n.as_str());
                if contains_text(low.as_str(), want_low.as_str()) {
                    return Some(k);
                }
            },
            None => {},
        }
        k = k + 1;
    }
    None
}

/// The message for a direction without a default device.
pub fn no_device(input: bool) -> (s: String)
    ensures
        s@ == "kein "@ + (if input {
            "Eingabegerät"@
        } else {
            "Ausgabegerät"@
        }),
{
    let mut s: String = text::text("kein ");
    text::push_text(&mut s, dir_label(input));
    s
}

/// The message for a name that fits no device.
pub fn no_device_named(input: bool, want: &str) -> (s: String)
    ensures
        s@ == "kein "@ + (if input {
            "Eingabegerät"@
        } else {
            "Ausgabegerät"@
        }) + " mit Name ~ \""@ + want@ + "\""@,
{
    let mut s: String = no_device(input);
    text::push_text(&mut s, " mit Name ~ \"");
    text::push_text(&mut s, want);
    text::push_text(&mut s, "\"");
    s
}

/// A ring buffer keeps the newest samples, at most as many as it holds, in their
/// order.
pub proof fn newest_samples_stay(s: Seq<i32>, more: Seq<i32>, cap: nat, i: int)
    ensures
        ({
            let all = s + more;
            let kept = newest(all, cap);
            &&& kept.len() == vstd::math::min(all.len() as int, cap as int)
            &&& 0 <= i < kept.len() ==> kept[kept.len() - 1 - i] == all[all.len() - 1 - i]
        }),
{
}

/// A ring buffer gives its samples in their order, each once, and then silence:
/// what is read in two goes is what is read in one.
pub proof fn samples_are_read_in_order(s: Seq<i32>, a: nat, b: nat, i: int)
    ensures
        read_out(s, a).len() == a,
        0 <= i < a ==> read_out(s, a)[i] == (if i < s.len() {
            s[i]
        } else {
            0
        }),
        read_out(s, a) + read_out(left_over(s, a), b) == read_out(s, a + b),
        left_over(left_over(s, a), b) == left_over(s, a + b),
        left_over(s, a).len() == vstd::math::max(s.len() - a, 0),
{
    assert(read_out(s, a) + read_out(left_over(s, a), b) =~= read_out(s, a + b));
    assert(left_over(left_over(s, a), b) =~= left_over(s, a + b));
}

/// A text holds what it was put together from, and a text holds nothing that is
/// longer than it.
pub proof fn text_holds_its_parts(a: Seq<char>, part: Seq<char>, b: Seq<char>)
    ensures
        contains(a + part + b, part),
        a.len() < part.len() ==> !contains(a, part),
{
    let s = a + part + b;
    let i = a.len() as int;
    assert(s.subrange(i, i + part.len()) =~= part);
}

/// A device is found by its name in letters of any size, and by no other name.
pub proof fn device_is_found_by_its_name(names: Seq<Option<String>>, i: int, want: Seq<char>)
    ensures
        names[i] matches Some(n) ==> (exact_match(names, i, want) <==> n@.len() == want.len()
            && forall|k: int|
            0 <= k < want.len() ==> text::small(n@[k]) == text::small(#[trigger] want[k])),
        names[i] is None ==> !exact_match(names, i, want) && !partial_match(names, i, want),
{
    if let Some(n) = names[i] {
        let a = text::lower(n@);
        let b = text::lower(want);
        assert(a.len() == n@.len() && b.len() == want.len());
        if a == b {
            assert forall|k: int| 0 <= k < want.len() implies text::small(n@[k]) == text::small(
                #[trigger] want[k],
            ) by {
                assert(a[k] == b[k]);
            }
        }
        if n@.len() == want.len() && forall|k: int|
            0 <= k < want.len() ==> text::small(n@[k]) == text::small(#[trigger] want[k]) {
            assert forall|k: int| 0 <= k < a.len() implies a[k] == b[k] by {
                assert(text::small(n@[k]) == text::small(want[k]));
            }
            assert(a =~= b);
        }
    }
}

} // verus!
