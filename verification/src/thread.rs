//! What the widget's recording thread does: the encoder it takes, the checks
//! before the start, and its report.

use crate::advanced::{rate_from_adv, AdvCfg, EncoderSel, RateSel};
use crate::audio::AudioStats;
use crate::capture;
use crate::capture::display_index;
use crate::encode;
use crate::encode::{
    best_h264, best_hevc, rate_control_args, resolve_auto_encoder, supports, EncodeError,
    FfmpegInfo,
};
use crate::pump::encoder_name;
use crate::session;
use crate::session::{audio_note, audio_report, RecordTarget};
use crate::settings::TargetSel;
use crate::text;
use crate::text::{decimal_text, join2, join3};
use crate::types::{DisplayInfo, EncoderKind, Os, RateControl};
use crate::widget;
use vstd::prelude::*;

verus! {

/// What the thread records with.
#[derive(Debug, Clone, PartialEq, Eq)]
pub struct ThreadPlan {
    /// The encoder of the ffmpeg child; `None` is the system's own encoder.
    pub kind: Option<EncoderKind>,
    /// HEVC, where the system's own encoder records.
    pub hevc: bool,
    /// What the report says of the choice.
    pub note: String,
}

/// The encoder once drawing and cursor effects have had their way: they need the
/// ffmpeg child.
pub open spec fn settled_encoder(asked: EncoderSel, burns_in: bool) -> EncoderSel {
    if burns_in && !asked.by_ffmpeg() {
        EncoderSel::Nvenc
    } else {
        asked
    }
}

/// What is said of an encoder that gave way.
pub open spec fn switch_words(asked: EncoderSel, burns_in: bool) -> Seq<char> {
    if burns_in && !asked.by_ffmpeg() {
        " (auto-switched to NVENC for drawing/cursor-fx)"@
    } else {
        Seq::empty()
    }
}

/// The encoder that takes the place of the system's own off Windows, or what is
/// wrong.
pub open spec fn stand_in(asked: EncoderSel, probe: Result<FfmpegInfo, EncodeError>) -> Result<
    EncoderKind,
    Seq<char>,
> {
    match probe {
        Err(e) => Err(e.text()),
        Ok(info) => match asked {
            EncoderSel::Auto => Ok(encode::auto_encoder(info)),
            EncoderSel::H264 => match encode::h264_choice(info) {
                Some(k) => Ok(k),
                None => Err("this ffmpeg has no H.264 encoder"@),
            },
            _ => match encode::hevc_choice(info) {
                Some(k) => Ok(k),
                None => Err("this ffmpeg has no HEVC encoder"@),
            },
        },
    }
}

fn find_stand_in(asked: EncoderSel, probe: &Result<FfmpegInfo, EncodeError>) -> (r: Result<
    EncoderKind,
    String,
>)
    ensures
        text::said(r) == stand_in(asked, *probe),
{
    match probe {
        Err(e) => Err(e.message()),
        Ok(info) => match asked {
            EncoderSel::Auto => Ok(resolve_auto_encoder(info)),
            EncoderSel::H264 => match best_h264(info) {
                Some(k) => Ok(k),
                None => Err("this ffmpeg has no H.264 encoder".to_owned()),
            },
            _ => match best_hevc(info) {
                Some(k) => Ok(k),
                None => Err("this ffmpeg has no HEVC encoder".to_owned()),
            },
        },
    }
}

/// What is said of the stand-in.
pub open spec fn stand_in_words(kind: EncoderKind) -> Seq<char> {
    " (using "@ + kind.label_spec() + " — no MediaFoundation off Windows)"@
}

/// What keeps the thread from recording. `burns_in` is whether there is live
/// drawing or a cursor effect.
pub open spec fn thread_fault(
    adv: AdvCfg,
    burns_in: bool,
    os: Os,
    probe: Result<FfmpegInfo, EncodeError>,
) -> Option<Seq<char>> {
    let enc = settled_encoder(adv.encoder, burns_in);
    if !enc.by_ffmpeg() && adv.rc != RateSel::Cbr {
        Some("rate modes (VBR/CQP/CRF) need an ffmpeg encoder (NVENC/AMF/QSV/x264)"@)
    } else if !enc.by_ffmpeg() && os != Os::Windows {
        match stand_in(enc, probe) {
            Err(m) => Some(m),
            Ok(_) => None,
        }
    } else {
        None
    }
}

impl ThreadPlan {
    /// Is this what the settings ask for?
    pub open spec fn follows(
        self,
        adv: AdvCfg,
        burns_in: bool,
        os: Os,
        probe: Result<FfmpegInfo, EncodeError>,
    ) -> bool {
        let enc = settled_encoder(adv.encoder, burns_in);
        if enc.by_ffmpeg() {
            self.kind == enc.vendor() && !self.hevc && self.note@ == switch_words(
                adv.encoder,
                burns_in,
            )
        } else if os != Os::Windows {
            stand_in(enc, probe) matches Ok(k) && self.kind == Some(k) && !self.hevc && self.note@
                == stand_in_words(k)
        } else {
            self.kind is None && self.hevc == (enc == EncoderSel::Hevc) && self.note@.len() == 0
        }
    }
}

/// Chooses the encoder. Live drawing and cursor effects make the system's own one
/// give way; other rate modes than CBR need an ffmpeg encoder; off Windows the
/// system's own encoders are stood in for. `probe` is what the system's ffmpeg
/// said; only a stand-in looks at it.
pub fn plan_thread(
    adv: &AdvCfg,
    burns_in: bool,
    os: Os,
    probe: &Result<FfmpegInfo, EncodeError>,
) -> (r: Result<ThreadPlan, String>)
    ensures
        match thread_fault(*adv, burns_in, os, *probe) {
            Some(m) => r matches Err(e) && e@ == m,
            None => r matches Ok(p) && p.follows(*adv, burns_in, os, *probe),
        },
{
    let switched = burns_in && !adv.encoder.is_ffmpeg();
    let enc = if switched {
        EncoderSel::Nvenc
    } else {
        adv.encoder
    };
    if !enc.is_ffmpeg() && adv.rc != RateSel::Cbr {
        return Err(
            "rate modes (VBR/CQP/CRF) need an ffmpeg encoder (NVENC/AMF/QSV/x264)".to_owned(),
        );
    }
    if let Some(kind) = enc.vendor_kind() {
        let note = if switched {
            " (auto-switched to NVENC for drawing/cursor-fx)".to_owned()
        } else {
            String::new()
        };
        return Ok(ThreadPlan { kind: Some(kind), hevc: false, note });
    }
    if os != Os::Windows {
        match find_stand_in(enc, probe) {
            Ok(kind) => Ok(
                ThreadPlan {
                    kind: Some(kind),
                    hevc: false,
                    note: join3(" (using ", kind.label(), " — no MediaFoundation off Windows)"),
                },
            ),
            Err(m) => Err(m),
        }
    } else {
        Ok(ThreadPlan { kind: None, hevc: enc == EncoderSel::Hevc, note: String::new() })
    }
}

/// Live drawing and cursor effects are recorded by the ffmpeg child, and so is
/// every rate mode but CBR; off Windows everything is.
pub proof fn law_thread_paths(
    adv: AdvCfg,
    plan: ThreadPlan,
    burns_in: bool,
    os: Os,
    probe: Result<FfmpegInfo, EncodeError>,
)
    requires
        thread_fault(adv, burns_in, os, probe) is None,
        plan.follows(adv, burns_in, os, probe),
    ensures
        burns_in || adv.rc != RateSel::Cbr || os != Os::Windows ==> plan.kind is Some,
        plan.kind is None ==> adv.rate() is Cbr,
{
}

/// What keeps the ffmpeg child from starting.
pub open spec fn child_fault(kind: EncoderKind, adv: AdvCfg, info: FfmpegInfo) -> Option<Seq<char>> {
    let name = encode::encoder_name_of(kind, EncoderKind::LibX264);
    if !encode::provides(info, kind) {
        Some("this ffmpeg has no "@ + name + " — pick another encoder"@)
    } else {
        match encode::rate_args(name, adv.rate(), adv.fps) {
            Err(e) => Some(e.text()),
            Ok(_) => None,
        }
    }
}

/// Checks the ffmpeg child before anything starts, and gives its rate control.
pub fn check_child(kind: EncoderKind, adv: &AdvCfg, info: &FfmpegInfo) -> (r: Result<
    RateControl,
    String,
>)
    requires
        adv.fps * 4 <= u32::MAX,
    ensures
        match child_fault(kind, *adv, *info) {
            Some(m) => r matches Err(e) && e@ == m,
            None => r == Ok::<RateControl, String>(adv.rate()),
        },
{
    let name = encoder_name(kind);
    if !supports(kind, info) {
        return Err(join3("this ffmpeg has no ", name, " — pick another encoder"));
    }
    let rate = match rate_from_adv(adv) {
        Ok(v) => v,
        Err(m) => {
            return Err(m);
        },
    };
    match rate_control_args(name, &rate, adv.fps) {
        Ok(_) => Ok(rate),
        Err(e) => Err(e.message()),
    }
}

/// Audio that does not start ends the recording only where a microphone was asked
/// for.
pub fn audio_trouble(mic: bool, reason: &str) -> (r: Result<(), String>)
    ensures
        mic ==> (r matches Err(m) && m@ == "audio pipeline: "@ + reason@),
        !mic ==> r is Ok,
{
    if mic {
        Err(join2("audio pipeline: ", reason))
    } else {
        Ok(())
    }
}

/// Cursor effects need a cursor position, which only Windows gives.
pub fn check_effects(os: Os, cursor_fx: bool) -> (r: Result<(), String>)
    ensures
        os != Os::Windows && cursor_fx ==> (r matches Err(m) && m@
            == "cursor fx is Windows-only in this release"@),
        os == Os::Windows || !cursor_fx ==> r is Ok,
{
    if os != Os::Windows && cursor_fx {
        Err("cursor fx is Windows-only in this release".to_owned())
    } else {
        Ok(())
    }
}

/// A coordinate on the monitor: nothing lies left of it or above it.
pub open spec fn on_monitor(v: i32) -> u32 {
    if v < 0 {
        0
    } else {
        v as u32
    }
}

fn clip(v: i32) -> (r: u32)
    ensures
        r == on_monitor(v),
{
    if v < 0 {
        0
    } else {
        v as u32
    }
}

/// What the thread records, and the canvas that it gets: only a screen has one.
pub fn thread_target(target: &TargetSel, canvas: Option<(u32, u32)>) -> (r: (
    RecordTarget,
    Option<(u32, u32)>,
))
    ensures
        match *target {
            TargetSel::Screen(s) => r.0 == RecordTarget::Screen(s) && r.1 == canvas,
            TargetSel::Window(t) => r.0 == RecordTarget::Window(t) && r.1 is None,
            TargetSel::Region { screen, rect } => r.0 == (RecordTarget::Region {
                screen,
                x: on_monitor(rect.x),
                y: on_monitor(rect.y),
                w: rect.w,
                h: rect.h,
            }) && r.1 is None,
        },
{
    match target {
        TargetSel::Screen(s) => (RecordTarget::Screen(*s), canvas),
        TargetSel::Window(t) => (RecordTarget::Window(t.clone()), None),
        TargetSel::Region { screen, rect } => (
            RecordTarget::Region {
                screen: *screen,
                x: clip(rect.x),
                y: clip(rect.y),
                w: rect.w,
                h: rect.h,
            },
            None,
        ),
    }
}

/// Looks up a screen of the widget's list; 0 is the primary one.
pub fn display_of(screens: &Vec<DisplayInfo>, s: u32) -> (r: Result<usize, String>)
    ensures
        match capture::display_at(screens@, s as nat) {
            Some(d) => r matches Ok(i) && i < screens@.len() && screens@[i as int] == d,
            None => r matches Err(m) && m@ == (if s == 0 {
                "no displays detected"@
            } else {
                widget::gone(s)
            }),
        },
{
    match display_index(screens, s as usize) {
        Some(i) => Ok(i),
        None => {
            if s == 0 {
                Err("no displays detected".to_owned())
            } else {
                Err(
                    join3(
                        "screen ",
                        decimal_text(s as u64).as_str(),
                        " not in the display list — reopen the widget",
                    ),
                )
            }
        },
    }
}

/// The report of a recording by the ffmpeg child. `secs` and `mb` are the time and
/// the size, written out.
pub fn child_saved_line(
    output: &str,
    written: u64,
    secs: &str,
    mb: &str,
    kind: EncoderKind,
    audio: Option<AudioStats>,
    note: &str,
) -> (s: String)
    ensures
        s@ == "Saved "@ + output@ + " — "@ + text::decimal(written as nat) + " frames in "@ + secs@
            + "s, "@ + mb@ + " MB via "@ + encode::encoder_name_of(kind, EncoderKind::LibX264) + (
        match audio {
            Some(a) if a.quanta_emitted > 0 => session::audio_words(a),
            _ => Seq::empty(),
        }) + note@,
{
    let mut s = join3("Saved ", output, " — ");
    s.append(decimal_text(written).as_str());
    s.append(" frames in ");
    s.append(secs);
    s.append("s, ");
    s.append(mb);
    s.append(" MB via ");
    s.append(encoder_name(kind));
    s.append(audio_note(audio).as_str());
    s.append(note);
    s
}

/// The report of a recording by the system's own encoder; `audio` is `None` where
/// none was recorded.
pub fn own_saved_line(output: &str, secs: &str, mb: &str, audio: Option<AudioStats>) -> (s: String)
    ensures
        s@ == "Saved "@ + output@ + " — "@ + secs@ + "s, "@ + mb@ + " MB"@ + (match audio {
            Some(a) => session::audio_words(a),
            None => Seq::empty(),
        }),
{
    let note = match audio {
        Some(a) => audio_report(a),
        None => String::new(),
    };
    let mut s = join3("Saved ", output, " — ");
    s.append(secs);
    s.append("s, ");
    s.append(mb);
    s.append(" MB");
    s.append(note.as_str());
    s
}

// ---------------------------------------------------------------------------
// What holds on every input
// ---------------------------------------------------------------------------

/// The system's encoders give way to NVENC where pixels change, and an encoder of
/// ffmpeg stays.
pub proof fn law_encoder_that_is_taken(asked: EncoderSel, burns_in: bool)
    ensures
        asked == EncoderSel::Nvenc || asked == EncoderSel::Amf || asked == EncoderSel::Qsv || asked
            == EncoderSel::X264 || !burns_in ==> settled_encoder(asked, burns_in) == asked
            && switch_words(asked, burns_in).len() == 0,
        burns_in && (asked == EncoderSel::Auto || asked == EncoderSel::H264 || asked
            == EncoderSel::Hevc) ==> settled_encoder(asked, burns_in) == EncoderSel::Nvenc
            && switch_words(asked, burns_in)
            == " (auto-switched to NVENC for drawing/cursor-fx)"@,
{
}

/// Off Windows the best encoder of ffmpeg stands in for the system's: H.264 for H.264
/// and HEVC for HEVC, and without ffmpeg there is none.
pub proof fn law_stand_ins(info: FfmpegInfo, e: EncodeError, asked: EncoderSel)
    ensures
        stand_in(EncoderSel::Auto, Ok(info)) == Ok::<EncoderKind, Seq<char>>(
            encode::auto_encoder(info),
        ),
        encode::h264_choice(info) matches Some(k) ==> stand_in(EncoderSel::H264, Ok(info)) == Ok::<
            EncoderKind,
            Seq<char>,
        >(k),
        encode::h264_choice(info) is None ==> stand_in(EncoderSel::H264, Ok(info)) is Err,
        encode::hevc_choice(info) matches Some(k) ==> stand_in(EncoderSel::Hevc, Ok(info)) == Ok::<
            EncoderKind,
            Seq<char>,
        >(k),
        encode::hevc_choice(info) is None ==> stand_in(EncoderSel::Hevc, Ok(info)) is Err,
        stand_in(asked, Err(e)) == Err::<EncoderKind, Seq<char>>(e.text()),
{
}

/// A recording of the widget is refused where a rate mode has no encoder for it, or
/// where off Windows nothing can stand in for the system's encoder.
pub proof fn law_refused_threads(
    adv: AdvCfg,
    burns_in: bool,
    os: Os,
    probe: Result<FfmpegInfo, EncodeError>,
)
    ensures
        thread_fault(adv, burns_in, os, probe) is None <==> {
            let enc = settled_encoder(adv.encoder, burns_in);
            enc == EncoderSel::Nvenc || enc == EncoderSel::Amf || enc == EncoderSel::Qsv || enc
                == EncoderSel::X264 || (adv.rc == RateSel::Cbr && (os == Os::Windows || stand_in(
                enc,
                probe,
            ) is Ok))
        },
{
}

/// The encoder of a planned recording: the vendor's that was chosen, the one that
/// stands in, or the system's own with HEVC where that was asked for.
pub proof fn law_planned_thread(
    plan: ThreadPlan,
    adv: AdvCfg,
    burns_in: bool,
    os: Os,
    probe: Result<FfmpegInfo, EncodeError>,
)
    requires
        plan.follows(adv, burns_in, os, probe),
    ensures
        adv.encoder == EncoderSel::Nvenc ==> plan.kind == Some(EncoderKind::H264Nvenc),
        adv.encoder == EncoderSel::Amf ==> plan.kind == Some(EncoderKind::H264Amf),
        adv.encoder == EncoderSel::Qsv ==> plan.kind == Some(EncoderKind::H264Qsv),
        adv.encoder == EncoderSel::X264 ==> plan.kind == Some(EncoderKind::LibX264),
        burns_in && (adv.encoder == EncoderSel::Auto || adv.encoder == EncoderSel::H264
            || adv.encoder == EncoderSel::Hevc) ==> plan.kind == Some(EncoderKind::H264Nvenc),
        plan.hevc <==> adv.encoder == EncoderSel::Hevc && !burns_in && os == Os::Windows,
        plan.kind is None ==> plan.note@.len() == 0,
        plan.kind is Some && !burns_in && adv.encoder == EncoderSel::Auto ==> stand_in(
            EncoderSel::Auto,
            probe,
        ) == Ok::<EncoderKind, Seq<char>>(plan.kind->0),
        plan.kind is Some && !burns_in && adv.encoder == EncoderSel::Hevc ==> stand_in(
            EncoderSel::Hevc,
            probe,
        ) == Ok::<EncoderKind, Seq<char>>(plan.kind->0),
        plan.kind is Some && !burns_in && adv.encoder == EncoderSel::H264 ==> stand_in(
            EncoderSel::H264,
            probe,
        ) == Ok::<EncoderKind, Seq<char>>(plan.kind->0),
{
}

/// The child starts where ffmpeg has the encoder and the encoder has the mode.
pub proof fn law_children_that_start(kind: EncoderKind, adv: AdvCfg, info: FfmpegInfo)
    ensures
        child_fault(kind, adv, info) is None <==> encode::provides(info, kind) && encode::rate_args(
            encode::encoder_name_of(kind, EncoderKind::LibX264),
            adv.rate(),
            adv.fps,
        ) is Ok,
{
}

/// A place left of or above the monitor is its edge, and any other place stays.
pub proof fn law_place_on_the_monitor(v: i32)
    ensures
        v >= 0 ==> on_monitor(v) == v,
        v < 0 ==> on_monitor(v) == 0,
{
}

/// The remark on an encoder that stands in names it.
pub proof fn law_stand_in_remark(kind: EncoderKind)
    ensures
        stand_in_words(kind) == " (using "@ + kind.label_spec()
            + " — no MediaFoundation off Windows)"@,
{
}

/// What is said where the widget's recording cannot start.
pub proof fn law_thread_refusals(
    adv: AdvCfg,
    burns_in: bool,
    os: Os,
    info: FfmpegInfo,
    kind: EncoderKind,
)
    ensures
        encode::h264_choice(info) is None ==> stand_in(EncoderSel::H264, Ok(info)) == Err::<
            EncoderKind,
            Seq<char>,
        >("this ffmpeg has no H.264 encoder"@),
        encode::hevc_choice(info) is None ==> stand_in(EncoderSel::Hevc, Ok(info)) == Err::<
            EncoderKind,
            Seq<char>,
        >("this ffmpeg has no HEVC encoder"@),
        !burns_in && adv.encoder == EncoderSel::Auto && adv.rc != RateSel::Cbr ==> thread_fault(
            adv,
            burns_in,
            os,
            Ok(info),
        ) == Some("rate modes (VBR/CQP/CRF) need an ffmpeg encoder (NVENC/AMF/QSV/x264)"@),
        !encode::provides(info, kind) ==> child_fault(kind, adv, info) == Some(
            "this ffmpeg has no "@ + encode::encoder_name_of(kind, EncoderKind::LibX264)
                + " — pick another encoder"@,
        ),
{
}

} // verus!
