//! Audio queues, levels, device choice and the rhythm of the mixer.
//!
//! Samples are only moved here, whatever they are; the arithmetic on them is done
//! by the program around the library.

use crate::search;
use crate::single::{F32, ONE_BITS, ZERO_BITS};
use crate::text;
use crate::text::{contains, decimal_text, join2, join3, to_chars, to_lower};
use crate::types::AudioDeviceInfo;
use std::collections::VecDeque;
use vstd::prelude::*;

verus! {

/// Output rate in frames a second.
pub const OUT_RATE: u32 = 48_000;

/// Frames of one quantum: 10 ms.
pub const QUANTUM_FRAMES: usize = 480;

/// Bytes of one quantum: stereo, 16 bits.
pub const QUANTUM_BYTES: usize = 1920;

/// The backlog that is kept at most: 2 s.
pub const MAX_FIFO_FRAMES: usize = 96_000;

/// Nanoseconds of one quantum.
pub const QUANTUM_NS: u64 = 10_000_000;

/// A mixer that is later than this starts its rhythm over.
pub const STALL_NS: u64 = 100_000_000;

/// The bits of the lowest and the highest gain, -60 and 12 decibels.
pub const DB_MIN_BITS: u32 = 0xc270_0000;

pub const DB_MAX_BITS: u32 = 0x4140_0000;

/// Is this a gain in decibels that the mixer offers?
pub open spec fn db_ok(db: F32) -> bool {
    F32 { bits: DB_MIN_BITS }.at_most(db) && db.at_most(F32 { bits: DB_MAX_BITS })
}

#[derive(Debug, Clone, PartialEq, Eq)]
pub enum AudioError {
    NoHost(String),
    Backend(String),
}

/// What an `AudioError` says.
pub enum AudioErrorView {
    NoHost(Seq<char>),
    Backend(Seq<char>),
}

impl View for AudioError {
    type V = AudioErrorView;

    open spec fn view(&self) -> AudioErrorView {
        match self {
            AudioError::NoHost(m) => AudioErrorView::NoHost(m@),
            AudioError::Backend(m) => AudioErrorView::Backend(m@),
        }
    }
}

/// An outcome by the views of its error.
pub open spec fn outcome<T>(r: Result<T, AudioError>) -> Result<T, AudioErrorView> {
    match r {
        Ok(v) => Ok(v),
        Err(e) => Err(e@),
    }
}

impl AudioError {
    /// The text of the error.
    pub open spec fn text(self) -> Seq<char> {
        match self {
            AudioError::NoHost(m) => "no audio host available: "@ + m@,
            AudioError::Backend(m) => "device query failed: "@ + m@,
        }
    }

    /// The text of the error, for the user.
    pub fn message(&self) -> (s: String)
        ensures
            s@ == self.text(),
    {
        match self {
            AudioError::NoHost(m) => join2("no audio host available: ", m.as_str()),
            AudioError::Backend(m) => join2("device query failed: ", m.as_str()),
        }
    }
}

// ---------------------------------------------------------------------------
// Queues
// ---------------------------------------------------------------------------

/// The newest `n` entries, or all where there are fewer.
pub open spec fn newest<T>(s: Seq<T>, n: nat) -> Seq<T> {
    if s.len() > n {
        s.skip(s.len() - n)
    } else {
        s
    }
}

/// Drops the oldest samples of a queue that holds more than two seconds.
pub fn truncate_fifo<T>(fifo: &mut VecDeque<T>)
    ensures
        final(fifo)@ == newest(old(fifo)@, (MAX_FIFO_FRAMES * 2) as nat),
{
    let cap: usize = MAX_FIFO_FRAMES * 2;
    let ghost start = fifo@;
    assert(start.skip(0) =~= start);
    while fifo.len() > cap
        invariant
            cap == MAX_FIFO_FRAMES * 2,
            fifo@.len() <= start.len(),
            fifo@ == start.skip(start.len() - fifo@.len()),
            start.len() > cap ==> fifo@.len() >= cap,
            start.len() <= cap ==> fifo@ == start,
        decreases fifo@.len(),
    {
        let ghost before = fifo@;
        fifo.pop_front();
        assert(fifo@ =~= start.skip(start.len() - fifo@.len()));
    }
}

/// A queue that was cut never holds more than two seconds, and it keeps the
/// newest samples.
pub proof fn law_queue_is_bounded<T>(s: Seq<T>, i: int)
    ensures
        newest(s, (MAX_FIFO_FRAMES * 2) as nat).len() <= MAX_FIFO_FRAMES * 2,
        0 < i <= newest(s, (MAX_FIFO_FRAMES * 2) as nat).len() ==> newest(
            s,
            (MAX_FIFO_FRAMES * 2) as nat,
        )[newest(s, (MAX_FIFO_FRAMES * 2) as nat).len() - i] == s[s.len() - i],
{
}

/// Interleaved samples of any number of channels as interleaved stereo: the
/// first two channels of each frame, or the only one twice.
pub open spec fn stereo<T>(data: Seq<T>, channels: nat) -> Seq<T>
    decreases data.len(),
{
    if data.len() == 0 || channels == 0 {
        Seq::empty()
    } else {
        let n = if channels <= data.len() {
            channels
        } else {
            data.len()
        };
        let right = if n > 1 {
            data[1]
        } else {
            data[0]
        };
        seq![data[0], right] + stereo(data.skip(n as int), channels)
    }
}

/// Appends samples of a device as interleaved stereo.
pub fn push_channels_as_stereo<T: Copy>(fifo: &mut VecDeque<T>, data: &[T], channels: usize)
    ensures
        final(fifo)@ == old(fifo)@ + stereo(data@, channels as nat),
{
    let ghost start = fifo@;
    if channels == 0 {
        assert(fifo@ =~= start + stereo(data@, 0));
        return;
    }
    let total: usize = data.len();
    let mut i: usize = 0;
    assert(data@.skip(0) =~= data@);
    while i < total
        invariant
            total == data@.len(),
            i <= total,
            channels > 0,
            start + stereo(data@, channels as nat) == fifo@ + stereo(
                data@.skip(i as int),
                channels as nat,
            ),
        decreases total - i,
    {
        let n: usize = if channels <= total - i {
            channels
        } else {
            total - i
        };
        let left = data[i];
        let right = if n > 1 {
            data[i + 1]
        } else {
            left
        };
        let ghost before = fifo@;
        let ghost rest = data@.skip(i as int);
        fifo.push_back(left);
        fifo.push_back(right);
        proof {
            assert(rest.skip(n as int) =~= data@.skip(i + n));
            assert(stereo(rest, channels as nat) == seq![left, right] + stereo(
                data@.skip(i + n),
                channels as nat,
            ));
            assert(before + (seq![left, right] + stereo(data@.skip(i + n), channels as nat))
                =~= fifo@ + stereo(data@.skip(i + n), channels as nat));
        }
        i += n;
    }
    assert(fifo@ + Seq::<T>::empty() =~= fifo@);
}

/// Stereo comes in pairs, one for each frame that was begun, so that queues of
/// stereo samples always hold whole frames.
pub proof fn law_stereo_is_whole<T>(data: Seq<T>, channels: nat)
    requires
        channels > 0,
    ensures
        stereo(data, channels).len() % 2 == 0,
        stereo(data, channels).len() == 2 * ((data.len() + channels - 1) / channels as int),
    decreases data.len(),
{
    let c = channels as int;
    if data.len() == 0 {
        assert((c - 1) / c == 0) by (nonlinear_arith)
            requires
                c > 0,
        ;
    } else {
        let n = if channels <= data.len() {
            channels
        } else {
            data.len()
        };
        let rest = data.skip(n as int);
        law_stereo_is_whole(rest, channels);
        let d = data.len() as int;
        if channels <= data.len() {
            assert((d + c - 1) / c == (d - c + c - 1) / c + 1) by (nonlinear_arith)
                requires
                    c > 0,
            ;
        } else {
            assert((d + c - 1) / c == 1) by (nonlinear_arith)
                requires
                    0 < d < c,
            ;
            assert((c - 1) / c == 0) by (nonlinear_arith)
                requires
                    c > 0,
            ;
        }
    }
}

/// The sample at an index of a queue, or `silence` behind its end.
pub fn sample_at<T: Copy>(fifo: &VecDeque<T>, i: usize, silence: T) -> (r: T)
    ensures
        r == (if i < fifo@.len() {
            fifo@[i as int]
        } else {
            silence
        }),
{
    if i < fifo.len() {
        fifo[i]
    } else {
        silence
    }
}

/// Ends the reading of one quantum from a queue of stereo frames. `need_frames`
/// is what the quantum needed, `read_frames` how far the reading got. Where the
/// queue was too short it is emptied, which heals the phase, and the answer is
/// false; else the frames that were read are dropped.
pub fn settle<T>(fifo: &mut VecDeque<T>, need_frames: usize, read_frames: usize) -> (whole: bool)
    ensures
        whole == (old(fifo)@.len() / 2 >= need_frames),
        !whole ==> final(fifo)@.len() == 0,
        whole ==> final(fifo)@ == old(fifo)@.skip(
            2 * (if read_frames <= old(fifo)@.len() / 2 {
                read_frames as int
            } else {
                (old(fifo)@.len() / 2) as int
            }),
        ),
{
    let avail: usize = fifo.len() / 2;
    if avail < need_frames {
        fifo.clear();
        return false;
    }
    let consumed: usize = if read_frames <= avail {
        read_frames
    } else {
        avail
    };
    let ghost start = fifo@;
    let mut i: usize = 0;
    assert(start.skip(0) =~= start);
    while i < consumed * 2
        invariant
            consumed * 2 <= start.len(),
            start.len() <= usize::MAX,
            i <= consumed * 2,
            fifo@ == start.skip(i as int),
        decreases consumed * 2 - i,
    {
        fifo.pop_front();
        i += 1;
        assert(fifo@ =~= start.skip(i as int));
    }
    true
}

// ---------------------------------------------------------------------------
// Levels
// ---------------------------------------------------------------------------

/// Linear gains and mutes of the two sources.
#[derive(Debug, Clone, Copy, PartialEq, Eq, Structural)]
pub struct MixerLevels {
    pub mic_gain: F32,
    pub system_gain: F32,
    pub mic_muted: bool,
    pub system_muted: bool,
}

impl Default for MixerLevels {
    fn default() -> (r: Self)
        ensures
            r.mic_gain.bits == ONE_BITS,
            r.system_gain.bits == ONE_BITS,
            !r.mic_muted,
            !r.system_muted,
    {
        Self {
            mic_gain: F32 { bits: ONE_BITS },
            system_gain: F32 { bits: ONE_BITS },
            mic_muted: false,
            system_muted: false,
        }
    }
}

impl MixerLevels {
    /// The gain that the microphone (or else the system sound) is mixed with;
    /// `None` where it is muted and adds nothing.
    pub fn gain_of(&self, mic: bool) -> (r: Option<F32>)
        ensures
            mic ==> r == (if self.mic_muted {
                None
            } else {
                Some(self.mic_gain)
            }),
            !mic ==> r == (if self.system_muted {
                None
            } else {
                Some(self.system_gain)
            }),
    {
        if mic {
            if self.mic_muted {
                None
            } else {
                Some(self.mic_gain)
            }
        } else if self.system_muted {
            None
        } else {
            Some(self.system_gain)
        }
    }
}

/// Live levels that the windows and the mixer share, and the peak of the mix
/// since it was last looked at.
#[derive(Debug, Clone, Copy, PartialEq, Eq, Structural)]
pub struct SharedLevels {
    pub sys_gain_bits: u32,
    pub mic_gain_bits: u32,
    pub sys_mute: bool,
    pub mic_mute: bool,
    pub peak_bits: u32,
}

impl SharedLevels {
    pub fn new(levels: MixerLevels) -> (r: Self)
        ensures
            r.sys_gain_bits == levels.system_gain.bits,
            r.mic_gain_bits == levels.mic_gain.bits,
            r.sys_mute == levels.system_muted,
            r.mic_mute == levels.mic_muted,
            r.peak_bits == 0,
    {
        Self {
            sys_gain_bits: levels.system_gain.bits,
            mic_gain_bits: levels.mic_gain.bits,
            sys_mute: levels.system_muted,
            mic_mute: levels.mic_muted,
            peak_bits: 0,
        }
    }

    /// The levels as they are now.
    pub fn snapshot(&self) -> (r: MixerLevels)
        ensures
            r.system_gain.bits == self.sys_gain_bits,
            r.mic_gain.bits == self.mic_gain_bits,
            r.system_muted == self.sys_mute,
            r.mic_muted == self.mic_mute,
    {
        MixerLevels {
            system_gain: F32 { bits: self.sys_gain_bits },
            mic_gain: F32 { bits: self.mic_gain_bits },
            system_muted: self.sys_mute,
            mic_muted: self.mic_mute,
        }
    }

    /// Sets the linear gain of the microphone, or else of the system sound.
    pub fn set_gain(&mut self, mic: bool, linear: F32)
        ensures
            *final(self) == (if mic {
                SharedLevels { mic_gain_bits: linear.bits, ..*old(self) }
            } else {
                SharedLevels { sys_gain_bits: linear.bits, ..*old(self) }
            }),
    {
        if mic {
            self.mic_gain_bits = linear.bits;
        } else {
            self.sys_gain_bits = linear.bits;
        }
    }

    pub fn set_muted(&mut self, mic: bool, muted: bool)
        ensures
            *final(self) == (if mic {
                SharedLevels { mic_mute: muted, ..*old(self) }
            } else {
                SharedLevels { sys_mute: muted, ..*old(self) }
            }),
    {
        if mic {
            self.mic_mute = muted;
        } else {
            self.sys_mute = muted;
        }
    }

    pub fn muted(&self, mic: bool) -> (r: bool)
        ensures
            r == (if mic {
                self.mic_mute
            } else {
                self.sys_mute
            }),
    {
        if mic {
            self.mic_mute
        } else {
            self.sys_mute
        }
    }

    /// The levels after a peak of the mix was seen.
    pub open spec fn observed(self, peak: F32) -> SharedLevels {
        let seen = peak.clamped(F32 { bits: ZERO_BITS }, F32 { bits: ONE_BITS });
        SharedLevels {
            peak_bits: if seen.bits > self.peak_bits {
                seen.bits
            } else {
                self.peak_bits
            },
            ..self
        }
    }

    /// Takes note of a peak of the mix, limited to the range from 0 to 1.
    pub fn observe_peak(&mut self, peak: F32)
        ensures
            *final(self) == old(self).observed(peak),
    {
        let seen = peak.clamp_to(F32 { bits: ZERO_BITS }, F32 { bits: ONE_BITS });
        if seen.bits > self.peak_bits {
            self.peak_bits = seen.bits;
        }
    }

    /// The highest peak since the last call.
    pub fn take_peak(&mut self) -> (r: F32)
        ensures
            r.bits == old(self).peak_bits,
            *final(self) == (SharedLevels { peak_bits: 0, ..*old(self) }),
    {
        let r = F32 { bits: self.peak_bits };
        self.peak_bits = 0;
        r
    }
}

/// The peak that is kept is the larger of the two as numbers, and it lies between
/// 0 and 1.
pub proof fn law_peak_is_highest(l: SharedLevels, a: F32)
    requires
        !a.nan(),
        a.bits < 0x8000_0000,
        l.peak_bits <= ONE_BITS,
    ensures
        ({
            let zero = F32 { bits: ZERO_BITS };
            let one = F32 { bits: ONE_BITS };
            let kept = F32 { bits: l.observed(a).peak_bits };
            &&& zero.at_most(kept) && kept.at_most(one)
            &&& (F32 { bits: l.peak_bits }).at_most(kept)
            &&& a.clamped(zero, one).at_most(kept)
            &&& kept == F32 { bits: l.peak_bits } || kept == a.clamped(zero, one)
        }),
{
}

// ---------------------------------------------------------------------------
// Devices
// ---------------------------------------------------------------------------

/// The descriptions of the devices with a name, in order.
pub open spec fn named_devices(names: Seq<String>, input: bool, shown: Seq<AudioDeviceInfo>) -> bool
    decreases names.len(),
{
    if names.len() == 0 {
        shown.len() == 0
    } else if names.last()@.len() > 0 {
        &&& shown.len() > 0
        &&& shown.last().name@ == names.last()@
        &&& shown.last().is_input == input
        &&& !shown.last().is_loopback
        &&& named_devices(names.drop_last(), input, shown.drop_last())
    } else {
        named_devices(names.drop_last(), input, shown)
    }
}

fn describe_devices(listed: Result<Vec<String>, String>, input: bool) -> (r: Result<
    Vec<AudioDeviceInfo>,
    AudioError,
>)
    ensures
        match listed {
            Err(m) => r matches Err(e) && e@ == AudioErrorView::Backend(m@),
            Ok(names) => r matches Ok(ds) && named_devices(names@, input, ds@),
        },
{
    let names = match listed {
        Ok(v) => v,
        Err(m) => {
            return Err(AudioError::Backend(m));
        },
    };
    let mut out: Vec<AudioDeviceInfo> = Vec::new();
    let mut i: usize = 0;
    while i < names.len()
        invariant
            i <= names@.len(),
            named_devices(names@.take(i as int), input, out@),
        decreases names@.len() - i,
    {
        let ghost before = out@;
        assert(names@.take(i + 1).drop_last() == names@.take(i as int));
        assert(names@.take(i + 1).last() == names@[i as int]);
        if !names[i].as_str().is_empty() {
            out.push(AudioDeviceInfo { name: names[i].clone(), is_input: input, is_loopback: false });
            assert(out@.drop_last() == before);
        }
        i += 1;
    }
    assert(names@.take(names@.len() as int) == names@);
    Ok(out)
}

/// Describes the input devices by the names that the audio system listed.
/// Disconnected devices have no name and are left out.
pub fn list_input_devices(listed: Result<Vec<String>, String>) -> (r: Result<
    Vec<AudioDeviceInfo>,
    AudioError,
>)
    ensures
        match listed {
            Err(m) => r matches Err(e) && e@ == AudioErrorView::Backend(m@),
            Ok(names) => r matches Ok(ds) && named_devices(names@, true, ds@),
        },
{
    describe_devices(listed, true)
}

/// Describes the output devices by the names that the audio system listed.
pub fn list_output_devices(listed: Result<Vec<String>, String>) -> (r: Result<
    Vec<AudioDeviceInfo>,
    AudioError,
>)
    ensures
        match listed {
            Err(m) => r matches Err(e) && e@ == AudioErrorView::Backend(m@),
            Ok(names) => r matches Ok(ds) && named_devices(names@, false, ds@),
        },
{
    describe_devices(listed, false)
}

/// The same text but for the case of ASCII letters.
pub open spec fn same_ascii(a: Seq<char>, b: Seq<char>) -> bool {
    &&& a.len() == b.len()
    &&& forall|i: int|
        0 <= i < a.len() ==> text::ascii_lower(#[trigger] a[i]) == text::ascii_lower(b[i])
}

fn lower_char(c: char) -> (r: u32)
    ensures
        r == text::ascii_lower(c) as u32,
{
    let u: u32 = c as u32;
    if 65 <= u && u <= 90 {
        u + 32
    } else {
        u
    }
}

fn eq_ignore_case(a: &str, b: &str) -> (r: bool)
    ensures
        r == same_ascii(a@, b@),
{
    let x = to_chars(a);
    let y = to_chars(b);
    if x.len() != y.len() {
        return false;
    }
    let mut i: usize = 0;
    while i < x.len()
        invariant
            x@ == a@,
            y@ == b@,
            x@.len() == y@.len(),
            i <= x@.len(),
            forall|k: int|
                0 <= k < i ==> text::ascii_lower(#[trigger] a@[k]) == text::ascii_lower(b@[k]),
        decreases x@.len() - i,
    {
        if lower_char(x[i]) != lower_char(y[i]) {
            assert(text::ascii_lower(a@[i as int]) != text::ascii_lower(b@[i as int]));
            return false;
        }
        i += 1;
    }
    true
}

/// The input device that was asked for.
#[derive(Debug, Clone, Copy, PartialEq, Eq, Structural)]
pub enum InputChoice {
    /// The system's default.
    Default,
    /// The listed device at this index.
    Listed(usize),
}

/// Does the name, in lower case, contain the wanted text?
pub open spec fn name_has(want: Seq<char>) -> spec_fn(String) -> bool {
    |name: String| text::has_part(text::lowercase(name@), want)
}

/// Asks a query for the system's default device?
pub open spec fn wants_default(query: Seq<char>) -> bool {
    same_ascii(query, "default"@) || query.len() == 0
}

fn first_match(names: &Vec<String>, want: &Vec<char>) -> (r: usize)
    ensures
        r == search::first_where(names@, name_has(want@)),
        r <= names@.len(),
{
    let mut i: usize = 0;
    while i < names.len()
        invariant
            i <= names@.len(),
            forall|k: int| 0 <= k < i ==> !name_has(want@)(#[trigger] names@[k]),
        decreases names@.len() - i,
    {
        let have = to_chars(to_lower(names[i].as_str()).as_str());
        if contains(have.as_slice(), want.as_slice()) {
            proof {
                assert(name_has(want@)(names@[i as int]));
                search::lemma_first_where(names@, name_has(want@), i as int);
            }
            return i;
        }
        i += 1;
    }
    proof {
        search::lemma_first_where(names@, name_has(want@), i as int);
    }
    i
}

/// Finds an input device: "default" or nothing is the system's default, anything
/// else the first listed device whose name contains it, whatever the letter case.
pub fn find_input_device(
    query: &str,
    has_default: bool,
    listed: Result<Vec<String>, String>,
) -> (r: Result<InputChoice, AudioError>)
    ensures
        r matches Ok(InputChoice::Listed(i)) ==> (listed matches Ok(names) && i < names@.len()
            && text::has_part(text::lowercase(names@[i as int]@), text::lowercase(query@)) && forall|
            k: int,
        |
            0 <= k < i ==> !text::has_part(
                text::lowercase(#[trigger] names@[k]@),
                text::lowercase(query@),
            )),
        outcome(r) == (if wants_default(query@) {
            if has_default {
                Ok::<InputChoice, AudioErrorView>(InputChoice::Default)
            } else {
                Err(AudioErrorView::NoHost("no default input device"@))
            }
        } else {
            match listed {
                Err(m) => Err(AudioErrorView::Backend(m@)),
                Ok(names) => {
                    let i = search::first_where(names@, name_has(text::lowercase(query@)));
                    if i < names@.len() {
                        Ok(InputChoice::Listed(i as usize))
                    } else {
                        Err(
                            AudioErrorView::Backend(
                                "input '"@ + query@
                                    + "' not found — see `qcapture --list-audio`"@,
                            ),
                        )
                    }
                },
            }
        }),
{
    if eq_ignore_case(query, "default") || query.is_empty() {
        if has_default {
            return Ok(InputChoice::Default);
        }
        return Err(AudioError::NoHost("no default input device".to_owned()));
    }
    let names = match listed {
        Ok(v) => v,
        Err(m) => {
            return Err(AudioError::Backend(m));
        },
    };
    let i = first_match(&names, &to_chars(to_lower(query).as_str()));
    proof {
        search::law_first_where(names@, name_has(text::lowercase(query@)));
        assert forall|k: int| 0 <= k < i implies !text::has_part(
            text::lowercase(#[trigger] names@[k]@),
            text::lowercase(query@),
        ) by {
            assert(!name_has(text::lowercase(query@))(names@[k]));
        }
    }
    if i < names.len() {
        Ok(InputChoice::Listed(i))
    } else {
        Err(
            AudioError::Backend(
                join3("input '", query, "' not found — see `qcapture --list-audio`"),
            ),
        )
    }
}

/// Checks that a microphone is there, by the rule that finds it.
pub fn check_mic_exists(
    query: &str,
    has_default: bool,
    listed: Result<Vec<String>, String>,
) -> (r: Result<(), AudioError>)
    ensures
        wants_default(query@) ==> (r is Ok <==> has_default),
        !wants_default(query@) ==> (r is Ok <==> (listed matches Ok(names) && search::first_where(
            names@,
            name_has(text::lowercase(query@)),
        ) < names@.len())),
        r matches Err(e) ==> e@ == (if wants_default(query@) {
            AudioErrorView::NoHost("no default input device"@)
        } else {
            match listed {
                Err(m) => AudioErrorView::Backend(m@),
                Ok(_) => AudioErrorView::Backend(
                    "input '"@ + query@ + "' not found — see `qcapture --list-audio`"@,
                ),
            }
        }),
{
    match find_input_device(query, has_default, listed) {
        Ok(_) => Ok(()),
        Err(e) => Err(e),
    }
}

/// Finds the device that hears the system's own sound: the first whose name
/// contains "monitor".
pub fn find_monitor(listed: Result<Vec<String>, String>) -> (r: Result<usize, AudioError>)
    ensures
        outcome(r) == (match listed {
            Err(m) => Err::<usize, AudioErrorView>(AudioErrorView::Backend(m@)),
            Ok(names) => {
                let i = search::first_where(names@, name_has("monitor"@));
                if i < names@.len() {
                    Ok(i as usize)
                } else {
                    Err(
                        AudioErrorView::Backend(
                            "no loopback monitor device (need PipeWire/ALSA monitor)"@,
                        ),
                    )
                }
            },
        }),
{
    let names = match listed {
        Ok(v) => v,
        Err(m) => {
            return Err(AudioError::Backend(m));
        },
    };
    let i = first_match(&names, &to_chars("monitor"));
    if i < names.len() {
        Ok(i)
    } else {
        Err(
            AudioError::Backend(
                "no loopback monitor device (need PipeWire/ALSA monitor)".to_owned(),
            ),
        )
    }
}

// ---------------------------------------------------------------------------
// Stream configurations
// ---------------------------------------------------------------------------

#[derive(Debug, Clone, Copy, PartialEq, Eq, Structural)]
pub enum SampleFormat {
    F32,
    I16,
    U16,
    Other,
}

/// A range of configurations that a device supports.
#[derive(Debug, Clone, Copy, PartialEq, Eq, Structural)]
pub struct StreamRange {
    pub format: SampleFormat,
    pub min_rate: u32,
    pub max_rate: u32,
    pub channels: u16,
}

impl StreamRange {
    pub open spec fn wf(self) -> bool {
        self.min_rate <= self.max_rate
    }

    /// The rate of the range nearest to the output rate.
    pub open spec fn rate(self) -> u32 {
        if OUT_RATE < self.min_rate {
            self.min_rate
        } else if OUT_RATE > self.max_rate {
            self.max_rate
        } else {
            OUT_RATE
        }
    }

    /// How far that rate is from the output rate.
    pub open spec fn distance(self) -> int {
        if self.rate() >= OUT_RATE {
            self.rate() - OUT_RATE
        } else {
            OUT_RATE - self.rate()
        }
    }

    /// Can the range be used at all?
    pub open spec fn usable(self) -> bool {
        self.format != SampleFormat::Other
    }

    /// The rank of the sample format.
    pub open spec fn format_rank(self) -> int {
        match self.format {
            SampleFormat::F32 => 0,
            SampleFormat::I16 => 1,
            SampleFormat::U16 => 2,
            SampleFormat::Other => 3,
        }
    }

    /// Lower is better: first the format, then a rate near the output rate, and
    /// stereo before mono before more.
    pub open spec fn score(self) -> int {
        self.format_rank() * 1_000_000 + self.distance() + (if self.channels == 2 {
            0int
        } else if self.channels == 1 {
            500
        } else {
            2000
        })
    }

    /// Lower is better where the rate is given: the format, then few channels.
    pub open spec fn score_at_rate(self) -> int {
        self.format_rank() * 1000 + self.channels
    }

    /// Does the range hold the rate?
    pub open spec fn holds(self, rate: u32) -> bool {
        self.min_rate <= rate <= self.max_rate
    }

    fn exec_rate(&self) -> (r: u32)
        ensures
            r == self.rate(),
    {
        if OUT_RATE < self.min_rate {
            self.min_rate
        } else if OUT_RATE > self.max_rate {
            self.max_rate
        } else {
            OUT_RATE
        }
    }

    fn exec_distance(&self) -> (r: i64)
        ensures
            r == self.distance(),
    {
        let rate = self.exec_rate();
        if rate >= OUT_RATE {
            (rate - OUT_RATE) as i64
        } else {
            (OUT_RATE - rate) as i64
        }
    }

    fn exec_format_rank(&self) -> (r: i64)
        ensures
            r == self.format_rank(),
    {
        match self.format {
            SampleFormat::F32 => 0,
            SampleFormat::I16 => 1,
            SampleFormat::U16 => 2,
            SampleFormat::Other => 3,
        }
    }

    fn exec_score(&self) -> (r: i64)
        ensures
            r == self.score(),
    {
        let pen: i64 = if self.channels == 2 {
            0
        } else if self.channels == 1 {
            500
        } else {
            2000
        };
        self.exec_format_rank() * 1_000_000 + self.exec_distance() + pen
    }

    fn exec_score_at_rate(&self) -> (r: i64)
        ensures
            r == self.score_at_rate(),
    {
        self.exec_format_rank() * 1000 + self.channels as i64
    }
}

fn no_config() -> (e: AudioError)
    ensures
        e@ == AudioErrorView::Backend("input has no usable config"@),
{
    AudioError::Backend("input has no usable config".to_owned())
}

/// Picks the configuration of an input device: F32 before I16 before U16, a rate
/// near 48 kHz, stereo preferred; the first of equals. Returns its index and
/// rate.
pub fn best_config(ranges: &Vec<StreamRange>) -> (r: Result<(usize, u32), AudioError>)
    requires
        forall|i: int| 0 <= i < ranges@.len() ==> (#[trigger] ranges@[i]).wf(),
    ensures
        match r {
            Ok((i, rate)) => {
                &&& i < ranges@.len()
                &&& ranges@[i as int].usable()
                &&& rate == ranges@[i as int].rate()
                &&& forall|k: int|
                    0 <= k < ranges@.len() && (#[trigger] ranges@[k]).usable()
                        ==> ranges@[i as int].score() <= ranges@[k].score() && (k < i
                        ==> ranges@[i as int].score() < ranges@[k].score())
            },
            Err(e) => {
                &&& e@ == AudioErrorView::Backend("input has no usable config"@)
                &&& forall|k: int| 0 <= k < ranges@.len() ==> !(#[trigger] ranges@[k]).usable()
            },
        },
{
    let mut best: Option<usize> = None;
    let mut best_score: i64 = 0;
    let mut i: usize = 0;
    while i < ranges.len()
        invariant
            i <= ranges@.len(),
            match best {
                Some(b) => {
                    &&& b < i
                    &&& ranges@[b as int].usable()
                    &&& best_score == ranges@[b as int].score()
                    &&& forall|k: int|
                        0 <= k < i && (#[trigger] ranges@[k]).usable() ==> best_score
                            <= ranges@[k].score() && (k < b ==> best_score < ranges@[k].score())
                },
                None => forall|k: int| 0 <= k < i ==> !(#[trigger] ranges@[k]).usable(),
            },
        decreases ranges@.len() - i,
    {
        let c = ranges[i];
        if c.format != SampleFormat::Other {
            let score = c.exec_score();
            let better = match best {
                Some(_) => score < best_score,
                None => true,
            };
            if better {
                best = Some(i);
                best_score = score;
            }
        }
        i += 1;
    }
    match best {
        Some(b) => Ok((b, ranges[b].exec_rate())),
        None => Err(no_config()),
    }
}

/// Picks the configuration of a device that runs at a given rate: the best format
/// among the ranges that hold the rate, then the fewest channels; the first of
/// equals.
pub fn config_at_rate(ranges: &Vec<StreamRange>, rate: u32) -> (r: Result<usize, AudioError>)
    ensures
        match r {
            Ok(i) => {
                &&& i < ranges@.len()
                &&& ranges@[i as int].holds(rate)
                &&& forall|k: int|
                    0 <= k < ranges@.len() && (#[trigger] ranges@[k]).holds(rate)
                        ==> ranges@[i as int].score_at_rate() <= ranges@[k].score_at_rate() && (k
                        < i ==> ranges@[i as int].score_at_rate() < ranges@[k].score_at_rate())
            },
            Err(e) => {
                &&& e@ == AudioErrorView::Backend("input has no usable config"@)
                &&& forall|k: int| 0 <= k < ranges@.len() ==> !(#[trigger] ranges@[k]).holds(rate)
            },
        },
{
    let mut best: Option<usize> = None;
    let mut best_score: i64 = 0;
    let mut i: usize = 0;
    while i < ranges.len()
        invariant
            i <= ranges@.len(),
            match best {
                Some(b) => {
                    &&& b < i
                    &&& ranges@[b as int].holds(rate)
                    &&& best_score == ranges@[b as int].score_at_rate()
                    &&& forall|k: int|
                        0 <= k < i && (#[trigger] ranges@[k]).holds(rate) ==> best_score
                            <= ranges@[k].score_at_rate() && (k < b ==> best_score
                            < ranges@[k].score_at_rate())
                },
                None => forall|k: int| 0 <= k < i ==> !(#[trigger] ranges@[k]).holds(rate),
            },
        decreases ranges@.len() - i,
    {
        let c = ranges[i];
        if c.min_rate <= rate && rate <= c.max_rate {
            let score = c.exec_score_at_rate();
            let better = match best {
                Some(_) => score < best_score,
                None => true,
            };
            if better {
                best = Some(i);
                best_score = score;
            }
        }
        i += 1;
    }
    match best {
        Some(b) => Ok(b),
        None => Err(no_config()),
    }
}

/// The rate nearest to 48 kHz that a device supports; 48 kHz where it says
/// nothing.
pub fn best_rate(ranges: &Vec<StreamRange>) -> (r: u32)
    requires
        forall|i: int| 0 <= i < ranges@.len() ==> (#[trigger] ranges@[i]).wf(),
    ensures
        ranges@.len() == 0 ==> r == OUT_RATE,
        ranges@.len() > 0 ==> exists|i: int|
            {
                &&& 0 <= i < ranges@.len()
                &&& r == (#[trigger] ranges@[i]).rate()
                &&& forall|k: int|
                    0 <= k < ranges@.len() ==> ranges@[i].distance() <= (
                    #[trigger] ranges@[k]).distance() && (k < i ==> ranges@[i].distance()
                        < ranges@[k].distance())
            },
{
    if ranges.len() == 0 {
        return OUT_RATE;
    }
    let mut b: usize = 0;
    let mut i: usize = 1;
    while i < ranges.len()
        invariant
            1 <= i <= ranges@.len(),
            b < i,
            forall|k: int|
                0 <= k < i ==> ranges@[b as int].distance() <= (#[trigger] ranges@[k]).distance()
                    && (k < b ==> ranges@[b as int].distance() < ranges@[k].distance()),
        decreases ranges@.len() - i,
    {
        if ranges[i].exec_distance() < ranges[b].exec_distance() {
            b = i;
        }
        i += 1;
    }
    ranges[b].exec_rate()
}

// ---------------------------------------------------------------------------
// The mixer
// ---------------------------------------------------------------------------

/// What to record: the system's sound, and a microphone by name.
#[derive(Debug, Clone, PartialEq, Eq)]
pub struct AudioConfig {
    pub capture_system: bool,
    pub mic_query: Option<String>,
}

/// Refuses a configuration without any source.
pub fn check_sources(config: &AudioConfig) -> (r: Result<(), AudioError>)
    ensures
        outcome(r) == (if !config.capture_system && config.mic_query is None {
            Err::<(), AudioErrorView>(AudioErrorView::Backend("no audio source selected"@))
        } else {
            Ok(())
        }),
{
    if !config.capture_system && config.mic_query.is_none() {
        return Err(AudioError::Backend("no audio source selected".to_owned()));
    }
    Ok(())
}

/// Refuses to start where no source could be opened.
pub fn check_available(system_open: bool, config: &AudioConfig) -> (r: Result<(), AudioError>)
    ensures
        outcome(r) == (if !system_open && config.mic_query is None {
            Err::<(), AudioErrorView>(
                AudioErrorView::Backend("no audio source available (no loopback device, no mic)"@),
            )
        } else {
            Ok(())
        }),
{
    if !system_open && config.mic_query.is_none() {
        return Err(
            AudioError::Backend(
                "no audio source available (no loopback device, no mic)".to_owned(),
            ),
        );
    }
    Ok(())
}

/// What the mixer has done.
#[derive(Debug, Clone, Copy, PartialEq, Eq, Structural)]
pub struct AudioStats {
    pub quanta_emitted: u64,
    pub sys_underruns: u64,
    pub mic_underruns: u64,
    pub mic_packets_dropped: u64,
}

impl Default for AudioStats {
    fn default() -> (r: Self)
        ensures
            r == (AudioStats {
                quanta_emitted: 0,
                sys_underruns: 0,
                mic_underruns: 0,
                mic_packets_dropped: 0,
            }),
    {
        Self { quanta_emitted: 0, sys_underruns: 0, mic_underruns: 0, mic_packets_dropped: 0 }
    }
}

/// What the mixer does next.
#[derive(Debug, Clone, Copy, PartialEq, Eq, Structural)]
pub enum MixerTurn {
    /// Stop for good.
    Stop,
    /// Throw the inputs away and emit nothing: the audio clock stands still with
    /// the video clock.
    Idle,
    /// Mix and emit one quantum.
    Mix,
}

/// Decides what the mixer does next.
pub fn mixer_turn(stop: bool, paused: bool) -> (r: MixerTurn)
    ensures
        r == (if stop {
            MixerTurn::Stop
        } else if paused {
            MixerTurn::Idle
        } else {
            MixerTurn::Mix
        }),
{
    if stop {
        MixerTurn::Stop
    } else if paused {
        MixerTurn::Idle
    } else {
        MixerTurn::Mix
    }
}

/// The books of the mixer thread.
#[derive(Debug, Clone, Copy, PartialEq, Eq, Structural)]
pub struct Mixer {
    pub stats: AudioStats,
    pub sys_seen: bool,
    pub mic_seen: bool,
    /// When the next quantum is due.
    pub deadline_ns: u64,
}

impl Mixer {
    /// A mixer whose first quantum is due one quantum from now.
    pub fn new(now_ns: u64) -> (r: Self)
        requires
            now_ns + QUANTUM_NS <= u64::MAX,
        ensures
            r.stats == (AudioStats {
                quanta_emitted: 0,
                sys_underruns: 0,
                mic_underruns: 0,
                mic_packets_dropped: 0,
            }),
            !r.sys_seen,
            !r.mic_seen,
            r.deadline_ns == now_ns + QUANTUM_NS,
    {
        Self {
            stats: AudioStats::default(),
            sys_seen: false,
            mic_seen: false,
            deadline_ns: now_ns + QUANTUM_NS,
        }
    }

    /// A packet of the microphone, or else of the system's sound, arrived.
    pub fn note_packet(&mut self, mic: bool)
        ensures
            *final(self) == (if mic {
                Mixer { mic_seen: true, ..*old(self) }
            } else {
                Mixer { sys_seen: true, ..*old(self) }
            }),
    {
        if mic {
            self.mic_seen = true;
        } else {
            self.sys_seen = true;
        }
    }

    /// Books a quantum: `sys` and `mic` tell of each source whether it delivered
    /// the whole quantum, `None` where it is not recorded. A shortfall counts
    /// once the source has delivered something; `eager` counts the system's sound
    /// from the start.
    pub fn note_quantum(&mut self, sys: Option<bool>, mic: Option<bool>, eager: bool)
        requires
            old(self).stats.quanta_emitted < u64::MAX,
            old(self).stats.sys_underruns < u64::MAX,
            old(self).stats.mic_underruns < u64::MAX,
        ensures
            final(self).stats.quanta_emitted == old(self).stats.quanta_emitted + 1,
            final(self).stats.sys_underruns == old(self).stats.sys_underruns + (if sys == Some(
                false,
            ) && (eager || old(self).sys_seen) {
                1int
            } else {
                0
            }),
            final(self).stats.mic_underruns == old(self).stats.mic_underruns + (if mic == Some(
                false,
            ) && old(self).mic_seen {
                1int
            } else {
                0
            }),
            final(self).stats.mic_packets_dropped == old(self).stats.mic_packets_dropped,
            final(self).sys_seen == old(self).sys_seen,
            final(self).mic_seen == old(self).mic_seen,
            final(self).deadline_ns == old(self).deadline_ns,
    {
        if let Some(whole) = sys {
            if !whole && (eager || self.sys_seen) {
                self.stats.sys_underruns = self.stats.sys_underruns + 1;
            }
        }
        if let Some(whole) = mic {
            if !whole && self.mic_seen {
                self.stats.mic_underruns = self.stats.mic_underruns + 1;
            }
        }
        self.stats.quanta_emitted = self.stats.quanta_emitted + 1;
    }

    /// When the next quantum is due, after one was emitted at `now_ns`. A mixer
    /// that stalled starts its rhythm over and does not catch up.
    pub open spec fn next_deadline(self, now_ns: u64) -> int {
        if now_ns > self.deadline_ns && now_ns - self.deadline_ns > STALL_NS {
            now_ns + QUANTUM_NS
        } else {
            self.deadline_ns + QUANTUM_NS
        }
    }

    /// Ends a turn: how long to sleep until the quantum that was due, and when
    /// the next is.
    pub fn pace(&mut self, now_ns: u64) -> (sleep_ns: u64)
        requires
            old(self).deadline_ns + QUANTUM_NS <= u64::MAX,
            now_ns + QUANTUM_NS <= u64::MAX,
        ensures
            sleep_ns == (if now_ns < old(self).deadline_ns {
                old(self).deadline_ns - now_ns
            } else {
                0
            }),
            final(self).deadline_ns == old(self).next_deadline(now_ns),
            final(self).stats == old(self).stats,
            final(self).sys_seen == old(self).sys_seen,
            final(self).mic_seen == old(self).mic_seen,
    {
        let sleep_ns: u64 = self.deadline_ns.saturating_sub(now_ns);
        if now_ns > self.deadline_ns && now_ns - self.deadline_ns > STALL_NS {
            self.deadline_ns = now_ns;
        }
        self.deadline_ns = self.deadline_ns + QUANTUM_NS;
        sleep_ns
    }
}

/// Quanta keep the pace of the clock: a mixer that is in time emits one every
/// 10 ms, and after a stall it owes at most the quanta of 100 ms.
pub proof fn law_mixer_keeps_pace(m: Mixer, now_ns: u64)
    ensures
        now_ns <= m.deadline_ns ==> m.next_deadline(now_ns) == m.deadline_ns + QUANTUM_NS,
        m.next_deadline(now_ns) + STALL_NS >= now_ns + QUANTUM_NS,
        m.next_deadline(now_ns) > m.deadline_ns,
{
}

/// The name of the pipe through which ffmpeg gets the mixed sound.
pub fn audio_pipe_name(pid: u32, n: u64) -> (r: String)
    ensures
        r@ == "\\\\.\\pipe\\qcapture-audio-"@ + text::decimal(pid as nat) + "-"@ + text::decimal(
            n as nat,
        ),
{
    let mut r = join3(
        "\\\\.\\pipe\\qcapture-audio-",
        decimal_text(pid as u64).as_str(),
        "-",
    );
    r.append(decimal_text(n).as_str());
    r
}

// ---------------------------------------------------------------------------
// What holds on every input
// ---------------------------------------------------------------------------

/// Every whole frame of a device with several channels keeps its first two, left and
/// right; one channel is heard on both sides.
pub proof fn law_stereo_keeps_left_and_right<T>(data: Seq<T>, channels: nat, k: int)
    requires
        channels > 0,
        0 <= k,
        k * channels + channels <= data.len(),
    ensures
        2 * k + 1 < stereo(data, channels).len(),
        stereo(data, channels)[2 * k] == data[k * channels],
        channels >= 2 ==> stereo(data, channels)[2 * k + 1] == data[k * channels + 1],
        channels == 1 ==> stereo(data, channels)[2 * k + 1] == data[k],
    decreases data.len(),
{
    let c = channels as int;
    assert(0 <= k * c) by (nonlinear_arith)
        requires
            0 <= k,
            0 < c,
    ;
    let rest = data.skip(c);
    if k > 0 {
        assert(k * c == (k - 1) * c + c) by (nonlinear_arith);
        assert(0 <= (k - 1) * c) by (nonlinear_arith)
            requires
                1 <= k,
                0 < c,
        ;
        law_stereo_keeps_left_and_right(rest, channels, k - 1);
        assert(stereo(data, channels).skip(2) =~= stereo(rest, channels));
        assert(stereo(data, channels)[2 * k] == stereo(rest, channels)[2 * (k - 1)]);
        assert(stereo(data, channels)[2 * k + 1] == stereo(rest, channels)[2 * (k - 1) + 1]);
    } else {
        assert(0 * c == 0) by (nonlinear_arith);
    }
}

/// Whole frames of stereo come out as they came.
pub proof fn law_stereo_stays<T>(data: Seq<T>)
    requires
        data.len() % 2 == 0,
    ensures
        stereo(data, 2) == data,
    decreases data.len(),
{
    if data.len() > 0 {
        let rest = data.skip(2);
        law_stereo_stays(rest);
        assert(stereo(data, 2) =~= data);
    } else {
        assert(stereo(data, 2) =~= data);
    }
}

/// Each sample of one channel is heard on both sides.
pub proof fn law_mono_is_doubled<T>(data: Seq<T>, i: int)
    requires
        0 <= i < data.len(),
    ensures
        stereo(data, 1).len() == 2 * data.len(),
        stereo(data, 1)[2 * i] == data[i],
        stereo(data, 1)[2 * i + 1] == data[i],
{
    law_stereo_is_whole(data, 1);
    law_stereo_keeps_left_and_right(data, 1, i);
}

/// A queue keeps two seconds of 48 kHz stereo, and all of a shorter one.
pub proof fn law_queue_keeps_two_seconds<T>(s: Seq<T>)
    ensures
        newest(s, (MAX_FIFO_FRAMES * 2) as nat).len() == (if s.len() < 192_000 {
            s.len()
        } else {
            192_000
        }),
        s.len() <= 192_000 ==> newest(s, (MAX_FIFO_FRAMES * 2) as nat) == s,
{
}

/// A quantum is 10 ms of 48 kHz stereo in 16 bits.
pub proof fn law_quantum_is_ten_milliseconds()
    ensures
        QUANTUM_FRAMES * 100 == OUT_RATE,
        QUANTUM_BYTES == QUANTUM_FRAMES * 4,
        QUANTUM_NS * 100 == 1_000_000_000,
        OUT_RATE == 48_000,
{
}

/// Gains go from -60 to 12 decibels. A number below zero has the sign bit, and
/// numbers of one sign are ordered as their bits.
pub proof fn law_gain_range(db: F32)
    ensures
        db.bits < 0x8000_0000 ==> (db_ok(db) <==> db.bits <= 0x4140_0000),
        db.bits >= 0x8000_0000 ==> (db_ok(db) <==> db.bits <= 0xc270_0000),
{
}

/// The peak never falls until it is taken, follows a louder one, and is 1 at most.
pub proof fn law_peak_follows(l: SharedLevels, peak: F32)
    requires
        peak.bits <= 0x7f80_0000,
    ensures
        l.observed(peak).peak_bits >= l.peak_bits,
        peak.bits <= 0x3f80_0000 ==> l.observed(peak).peak_bits >= peak.bits,
        peak.bits > 0x3f80_0000 ==> l.observed(peak).peak_bits >= 0x3f80_0000,
        l.peak_bits <= 0x3f80_0000 ==> l.observed(peak).peak_bits <= 0x3f80_0000,
        l.observed(peak).sys_gain_bits == l.sys_gain_bits,
        l.observed(peak).mic_gain_bits == l.mic_gain_bits,
        l.observed(peak).sys_mute == l.sys_mute,
        l.observed(peak).mic_mute == l.mic_mute,
{
}

/// All devices with a name are described, in order, and no others.
pub proof fn law_named_devices(names: Seq<String>, input: bool, shown: Seq<AudioDeviceInfo>, j: int)
    requires
        named_devices(names, input, shown),
    ensures
        shown.len() <= names.len(),
        0 <= j < shown.len() ==> shown[j].is_input == input && !shown[j].is_loopback
            && shown[j].name@.len() > 0,
        (forall|i: int| 0 <= i < names.len() ==> (#[trigger] names[i])@.len() > 0) ==> shown.len()
            == names.len() && (0 <= j < shown.len() ==> shown[j].name@ == names[j]@),
        (forall|i: int| 0 <= i < names.len() ==> (#[trigger] names[i])@.len() == 0) ==> shown.len()
            == 0,
    decreases names.len(),
{
    if names.len() > 0 {
        let head = names.drop_last();
        if names.last()@.len() > 0 {
            law_named_devices(head, input, shown.drop_last(), j);
        } else {
            law_named_devices(head, input, shown, j);
        }
        assert((forall|i: int| 0 <= i < names.len() ==> (#[trigger] names[i])@.len() > 0) ==> (
        forall|i: int| 0 <= i < head.len() ==> (#[trigger] head[i])@.len() > 0)) by {
            assert forall|i: int|
                (forall|k: int| 0 <= k < names.len() ==> (#[trigger] names[k])@.len() > 0) && 0 <= i
                    < head.len() implies (#[trigger] head[i])@.len() > 0 by {
                assert(head[i] == names[i]);
            }
        }
        assert((forall|i: int| 0 <= i < names.len() ==> (#[trigger] names[i])@.len() == 0) ==> (
        forall|i: int| 0 <= i < head.len() ==> (#[trigger] head[i])@.len() == 0)) by {
            assert forall|i: int|
                (forall|k: int| 0 <= k < names.len() ==> (#[trigger] names[k])@.len() == 0) && 0
                    <= i < head.len() implies (#[trigger] head[i])@.len() == 0 by {
                assert(head[i] == names[i]);
            }
        }
    }
}

/// Each device with a name is described.
pub proof fn law_no_device_is_lost(
    names: Seq<String>,
    input: bool,
    shown: Seq<AudioDeviceInfo>,
    i: int,
)
    requires
        named_devices(names, input, shown),
        0 <= i < names.len(),
        names[i]@.len() > 0,
    ensures
        exists|j: int| 0 <= j < shown.len() && #[trigger] shown[j].name@ == names[i]@,
    decreases names.len(),
{
    if i == names.len() - 1 {
        assert(shown[shown.len() - 1].name@ == names[i]@);
    } else if names.last()@.len() > 0 {
        law_no_device_is_lost(names.drop_last(), input, shown.drop_last(), i);
        let j = choose|j: int|
            0 <= j < shown.drop_last().len() && #[trigger] shown.drop_last()[j].name@
                == names.drop_last()[i]@;
        assert(shown[j].name@ == names[i]@);
    } else {
        law_no_device_is_lost(names.drop_last(), input, shown, i);
        assert(names.drop_last()[i] == names[i]);
    }
}

/// The default device is asked for by nothing or by its name in any letter case.
pub proof fn law_default_device(query: Seq<char>)
    ensures
        query.len() == 0 ==> wants_default(query),
        query.len() > 0 ==> (wants_default(query) <==> query.map_values(
            |c: char| text::ascii_lower(c),
        ) == seq!['d', 'e', 'f', 'a', 'u', 'l', 't']),
{
    reveal_strlit("default");
    let d = "default"@;
    assert(d =~= seq!['d', 'e', 'f', 'a', 'u', 'l', 't']);
    assert(forall|i: int| 0 <= i < 7 ==> text::ascii_lower(d[i]) == d[i]);
    let low = query.map_values(|c: char| text::ascii_lower(c));
    if same_ascii(query, d) {
        assert(low =~= d);
    }
    if low == d {
        assert forall|i: int| 0 <= i < query.len() implies text::ascii_lower(#[trigger] query[i])
            == text::ascii_lower(d[i]) by {
            assert(low[i] == d[i]);
        }
    }
}

/// The rate of a range is its nearest to 48 kHz, and the distance is how far that is.
pub proof fn law_nearest_rate(r: StreamRange, rate: u32)
    requires
        r.min_rate <= rate <= r.max_rate,
    ensures
        r.min_rate <= r.rate() <= r.max_rate,
        r.distance() >= 0,
        r.rate() == 48_000 + r.distance() || r.rate() == 48_000 - r.distance(),
        rate >= 48_000 + r.distance() || rate <= 48_000 - r.distance(),
        r.holds(48_000) ==> r.rate() == 48_000,
        r.holds(rate),
{
}

/// Among usable ranges of usual rates the sample format decides first: floats, then
/// signed and then unsigned 16-bit samples.
pub proof fn law_format_decides(a: StreamRange, b: StreamRange)
    requires
        a.min_rate <= a.max_rate,
        b.min_rate <= b.max_rate,
        a.min_rate <= 900_000,
    ensures
        a.format == SampleFormat::F32 && b.format == SampleFormat::I16 ==> a.score() < b.score(),
        a.format == SampleFormat::F32 && b.format == SampleFormat::U16 ==> a.score() < b.score(),
        a.format == SampleFormat::I16 && b.format == SampleFormat::U16 ==> a.score() < b.score(),
        a.usable() <==> a.format == SampleFormat::F32 || a.format == SampleFormat::I16 || a.format
            == SampleFormat::U16,
{
}

/// Among ranges of one format, stereo comes before mono and mono before more at the
/// same rate, and the nearer rate comes first with the same channels.
pub proof fn law_stereo_and_near_rates_are_preferred(a: StreamRange, b: StreamRange)
    requires
        a.format == b.format,
    ensures
        a.rate() == b.rate() && a.channels == 2 && b.channels != 2 ==> a.score() < b.score(),
        a.rate() == b.rate() && a.channels == 1 && b.channels != 1 && b.channels != 2 ==> a.score()
            < b.score(),
        a.channels == b.channels && a.distance() < b.distance() ==> a.score() < b.score(),
{
}

/// At a given rate the format decides, and then the smaller number of channels.
pub proof fn law_few_channels_at_a_rate(a: StreamRange, b: StreamRange)
    ensures
        a.format == b.format && a.channels < b.channels ==> a.score_at_rate() < b.score_at_rate(),
        a.format == SampleFormat::F32 && b.format == SampleFormat::I16 && a.channels < 1000
            ==> a.score_at_rate() < b.score_at_rate(),
        a.format == SampleFormat::I16 && b.format == SampleFormat::U16 && a.channels < 1000
            ==> a.score_at_rate() < b.score_at_rate(),
        a.format == SampleFormat::U16 && b.format == SampleFormat::Other && a.channels < 1000
            ==> a.score_at_rate() < b.score_at_rate(),
{
}

/// The next quantum is due 10 ms after the last; a mixer that is more than 100 ms late
/// counts from now.
pub proof fn law_next_quantum(m: Mixer, now_ns: u64)
    ensures
        now_ns <= m.deadline_ns + 100_000_000 ==> m.next_deadline(now_ns) == m.deadline_ns
            + 10_000_000,
        now_ns > m.deadline_ns + 100_000_000 ==> m.next_deadline(now_ns) == now_ns + 10_000_000,
{
}

/// What the errors of the sound say.
pub proof fn law_sound_errors(e: AudioError)
    ensures
        e matches AudioError::NoHost(m) ==> e.text() == "no audio host available: "@ + m@,
        e matches AudioError::Backend(m) ==> e.text() == "device query failed: "@ + m@,
{
}

/// A device is found by a part of its name, whatever the letter case.
pub proof fn law_device_by_name(name: String, want: Seq<char>)
    ensures
        name_has(want)(name) <==> text::has_part(text::lowercase(name@), want),
{
}

/// The weights of the choice: a step in the format is worth a million hertz, mono
/// costs 500 and more than two channels 2000.
pub proof fn law_weights_of_the_choice(a: StreamRange, b: StreamRange)
    requires
        a.rate() == b.rate(),
    ensures
        a.channels == b.channels && a.format == SampleFormat::F32 && b.format == SampleFormat::I16
            ==> b.score() - a.score() == 1_000_000,
        a.channels == b.channels && a.format == SampleFormat::I16 && b.format == SampleFormat::U16
            ==> b.score() - a.score() == 1_000_000,
        a.format == b.format && a.channels == 2 && b.channels == 1 ==> b.score() - a.score() == 500,
        a.format == b.format && a.channels == 2 && b.channels > 2 ==> b.score() - a.score() == 2000,
        a.channels == b.channels && a.format == SampleFormat::F32 && b.format == SampleFormat::I16
            ==> b.score_at_rate() - a.score_at_rate() == 1000,
{
}

} // verus!
