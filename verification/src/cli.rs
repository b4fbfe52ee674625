//! The `record` command: what its flags ask for, and what is wrong with them.

use crate::audio;
use crate::audio::{DB_MAX_BITS, DB_MIN_BITS};
use crate::encode;
use crate::encode::{
    output_with_extension, parse_canvas, parse_encoder_kind, resolve_auto_encoder, EncodeError,
    FfmpegInfo,
};
use crate::pace::SECOND_NS;
use crate::single::F32;
use crate::style::StyleArgs;
use crate::text;
use crate::text::{decimal_text, join3, same, to_lower};
use crate::types::{Container, EncoderKind, Os, RateControl};
use vstd::prelude::*;

verus! {

/// The flags of the `record` command.
#[derive(Debug, Clone, PartialEq, Eq)]
pub struct RecordArgs {
    /// Screen position; 0 is the primary display.
    pub screen: u32,
    /// Region `x,y,w,h` in physical pixels, relative to the monitor.
    pub region: Option<String>,
    /// Part of the title of the window to record.
    pub window_title: Option<String>,
    /// The screen that the region lies on.
    pub region_screen: u32,
    pub fps: u32,
    /// Fixed output canvas `WxH`.
    pub canvas: Option<String>,
    pub encoder: String,
    /// Video bitrate in kbps.
    pub bitrate: u32,
    /// Rate control: cbr, vbr, cqp or crf.
    pub rc: String,
    pub qp: Option<u8>,
    pub crf: Option<u8>,
    pub maxrate: Option<u32>,
    pub output: Option<String>,
    /// Seconds to record.
    pub duration: Option<u64>,
    /// Seconds to wait before the recording starts.
    pub countdown: Option<u64>,
    pub no_cursor: bool,
    pub no_audio: bool,
    pub mic: Option<String>,
    /// Gains in decibels.
    pub system_gain: F32,
    pub mic_gain: F32,
    pub system_mute: bool,
    pub mic_mute: bool,
    /// The document whose annotations are burned in.
    pub annotate: Option<String>,
    pub draw: bool,
    pub draw_test: Option<u64>,
    pub pause_at: Option<u64>,
    pub resume_at: Option<u64>,
    pub cursor_highlight: bool,
    pub cursor_ripple: bool,
    pub style: StyleArgs,
}

/// How the frames reach the file.
#[derive(Debug, Clone, Copy, PartialEq, Eq, Structural)]
pub enum PathSel {
    /// The native Windows encoder.
    Mf { hevc: bool },
    /// The ffmpeg child with this encoder.
    Ffmpeg(EncoderKind),
    /// The ffmpeg child; which encoder it gets is settled by what it provides.
    FfmpegLater,
}

impl RecordArgs {
    /// Does the recording change pixels on their way? That takes the ffmpeg path.
    pub open spec fn burns_in(self) -> bool {
        self.annotate is Some || self.draw || self.draw_test is Some || self.cursor_highlight
            || self.cursor_ripple
    }

    /// Does the recording open the drawing window?
    pub open spec fn draws(self) -> bool {
        self.draw || self.draw_test is Some
    }

    /// Exec form of `burns_in`.
    pub fn needs_pixels(&self) -> (r: bool)
        ensures
            r == self.burns_in(),
    {
        self.annotate.is_some() || self.draw || self.draw_test.is_some() || self.cursor_highlight
            || self.cursor_ripple
    }

    /// Exec form of `draws`.
    pub fn opens_panel(&self) -> (r: bool)
        ensures
            r == self.draws(),
    {
        self.draw || self.draw_test.is_some()
    }
}

/// The rate control that a lower-case mode name asks for, or what is wrong.
pub open spec fn rate_of(
    rc: Seq<char>,
    bitrate: u32,
    maxrate: Option<u32>,
    qp: Option<u8>,
    crf: Option<u8>,
) -> Result<RateControl, Seq<char>> {
    if rc == "cbr"@ {
        Ok(RateControl::Cbr { bitrate_kbps: bitrate })
    } else if rc == "vbr"@ {
        Ok(
            RateControl::Vbr {
                target_kbps: bitrate,
                max_kbps: match maxrate {
                    Some(m) => m,
                    None => (bitrate * 3 / 2) as u32,
                },
            },
        )
    } else if rc == "cqp"@ {
        match qp {
            Some(q) => Ok(RateControl::Cqp { qp: q }),
            None => Err("--rc cqp needs --qp N (0..51)"@),
        }
    } else if rc == "crf"@ {
        Ok(
            RateControl::Crf {
                crf: match crf {
                    Some(c) => c,
                    None => 23,
                },
            },
        )
    } else {
        Err("unknown --rc '"@ + rc + "' (want cbr|vbr|cqp|crf)"@)
    }
}

/// Reads the rate control from the flags; `rc` is the mode's name in lower case.
pub fn rate_from_flags(
    rc: &str,
    bitrate: u32,
    maxrate: Option<u32>,
    qp: Option<u8>,
    crf: Option<u8>,
) -> (r: Result<RateControl, String>)
    requires
        bitrate * 3 <= u32::MAX,
    ensures
        text::said(r) == rate_of(rc@, bitrate, maxrate, qp, crf),
{
    if same(rc, "cbr") {
        Ok(RateControl::Cbr { bitrate_kbps: bitrate })
    } else if same(rc, "vbr") {
        Ok(
            RateControl::Vbr {
                target_kbps: bitrate,
                max_kbps: match maxrate {
                    Some(m) => m,
                    None => bitrate * 3 / 2,
                },
            },
        )
    } else if same(rc, "cqp") {
        match qp {
            Some(q) => Ok(RateControl::Cqp { qp: q }),
            None => Err("--rc cqp needs --qp N (0..51)".to_owned()),
        }
    } else if same(rc, "crf") {
        Ok(
            RateControl::Crf {
                crf: match crf {
                    Some(c) => c,
                    None => 23,
                },
            },
        )
    } else {
        Err(join3("unknown --rc '", rc, "' (want cbr|vbr|cqp|crf)"))
    }
}

/// The path that a lower-case encoder name asks for, or what is wrong with it.
pub open spec fn asked_path(os: Os, enc: Seq<char>) -> Result<PathSel, Seq<char>> {
    if os != Os::Windows {
        Ok(PathSel::FfmpegLater)
    } else if enc == "auto"@ || enc == "h264"@ {
        Ok(PathSel::Mf { hevc: false })
    } else if enc == "hevc"@ || enc == "h265"@ {
        Ok(PathSel::Mf { hevc: true })
    } else {
        match encode::kind_named(text::lowercase(enc)) {
            Ok(kind) => Ok(PathSel::Ffmpeg(kind)),
            Err(e) => Err(e.text()),
        }
    }
}

fn path_for(os: Os, enc: &str) -> (r: Result<PathSel, String>)
    ensures
        text::said(r) == asked_path(os, enc@),
{
    if os != Os::Windows {
        Ok(PathSel::FfmpegLater)
    } else if same(enc, "auto") || same(enc, "h264") {
        Ok(PathSel::Mf { hevc: false })
    } else if same(enc, "hevc") || same(enc, "h265") {
        Ok(PathSel::Mf { hevc: true })
    } else {
        match parse_encoder_kind(enc) {
            Ok(kind) => Ok(PathSel::Ffmpeg(kind)),
            Err(e) => Err(e.message()),
        }
    }
}

/// What the `record` command does.
#[derive(Debug, Clone, PartialEq, Eq)]
pub struct RecordPlan {
    pub path: PathSel,
    /// Was a native encoder given up for ffmpeg?
    pub switched: bool,
    pub rate: RateControl,
    pub canvas: Option<(u32, u32)>,
    /// A frame rate that the canvas names and the recording ignores.
    pub ignored_fps: Option<u32>,
    /// `None` names the file by the time.
    pub output: Option<String>,
    pub show_cursor: bool,
    /// Does the drawing window open?
    pub draw: bool,
}

/// The path after a native encoder has given way to what burns in.
pub open spec fn final_path(
    asked: PathSel,
    burns_in: bool,
    probe: Result<FfmpegInfo, EncodeError>,
) -> Result<PathSel, Seq<char>> {
    if asked is Mf && burns_in {
        match probe {
            Ok(info) => Ok(PathSel::Ffmpeg(encode::auto_encoder(info))),
            Err(e) => Err(e.text()),
        }
    } else {
        Ok(asked)
    }
}

/// What is wrong with the numbers among the flags.
pub open spec fn range_fault(args: RecordArgs) -> Option<Seq<char>> {
    if args.fps == 0 || args.fps > 240 {
        Some("--fps must be 1..240"@)
    } else if args.bitrate < 500 || args.bitrate > 100_000 {
        Some("--bitrate must be 500..100000 kbps"@)
    } else if args.region is Some && args.canvas is Some {
        Some("--region and --canvas are mutually exclusive (region already fixes output size)"@)
    } else if !audio::db_ok(args.system_gain) {
        Some("--system-gain must be -60..+12 dB"@)
    } else if !audio::db_ok(args.mic_gain) {
        Some("--mic-gain must be -60..+12 dB"@)
    } else {
        None
    }
}

/// What is wrong with the encoder and the rate control. `enc` and `rc` are the
/// names in lower case.
pub open spec fn codec_fault(
    args: RecordArgs,
    enc: Seq<char>,
    rc: Seq<char>,
    os: Os,
    probe: Result<FfmpegInfo, EncodeError>,
) -> Option<Seq<char>> {
    match (
        asked_path(os, enc),
        rate_of(rc, args.bitrate, args.maxrate, args.qp, args.crf),
    ) {
        (Err(m), _) => Some(m),
        (_, Err(m)) => Some(m),
        (Ok(asked), Ok(rate)) => match final_path(asked, args.burns_in(), probe) {
            Err(m) => Some(m),
            Ok(path) => if path is Mf && !(rate is Cbr) {
                Some(
                    "--rc modes need an ffmpeg encoder (--encoder nvenc|amf|qsv|x264); MF is CBR-only"@,
                )
            } else {
                None
            },
        },
    }
}

/// What is wrong with the canvas and the countdown.
pub open spec fn frame_fault(args: RecordArgs) -> Option<Seq<char>> {
    let bad_canvas = match args.canvas {
        Some(c) => match encode::canvas_in(c@) {
            Err(m) => Some("ffmpeg probe failed: "@ + m),
            Ok(_) => None,
        },
        None => None,
    };
    match bad_canvas {
        Some(m) => Some(m),
        None => match args.countdown {
            Some(s) => if 1 <= s <= 30 {
                None
            } else {
                Some("--countdown must be 1..30 seconds"@)
            },
            None => None,
        },
    }
}

/// What is wrong with the flags: the first fault.
pub open spec fn record_fault(
    args: RecordArgs,
    enc: Seq<char>,
    rc: Seq<char>,
    os: Os,
    probe: Result<FfmpegInfo, EncodeError>,
) -> Option<Seq<char>> {
    match range_fault(args) {
        Some(m) => Some(m),
        None => match codec_fault(args, enc, rc, os, probe) {
            Some(m) => Some(m),
            None => frame_fault(args),
        },
    }
}

impl RecordPlan {
    /// Is this what flags without a fault ask for?
    pub open spec fn follows(
        self,
        args: RecordArgs,
        enc: Seq<char>,
        rc: Seq<char>,
        os: Os,
        probe: Result<FfmpegInfo, EncodeError>,
    ) -> bool {
        &&& asked_path(os, enc) matches Ok(asked) && final_path(asked, args.burns_in(), probe)
            == Ok::<PathSel, Seq<char>>(self.path) && self.switched == (asked is Mf
            && args.burns_in())
        &&& rate_of(rc, args.bitrate, args.maxrate, args.qp, args.crf) == Ok::<
            RateControl,
            Seq<char>,
        >(self.rate)
        &&& match args.canvas {
            None => self.canvas is None && self.ignored_fps is None,
            Some(c) => encode::canvas_in(c@) matches Ok((w, h, f)) && self.canvas == Some((w, h))
                && self.ignored_fps == (match f {
                Some(n) if n != args.fps => Some(n),
                _ => None,
            }),
        }
        &&& match args.output {
            None => self.output is None,
            Some(o) => self.output matches Some(p) && p@ == encode::with_ext(o@, Container::Mp4),
        }
        &&& self.show_cursor == !args.no_cursor
        &&& self.draw == args.draws()
    }
}

fn check_ranges(args: &RecordArgs) -> (r: Result<(), String>)
    ensures
        match range_fault(*args) {
            Some(m) => r matches Err(e) && e@ == m,
            None => r is Ok,
        },
{
    if args.fps == 0 || args.fps > 240 {
        return Err("--fps must be 1..240".to_owned());
    }
    if args.bitrate < 500 || args.bitrate > 100_000 {
        return Err("--bitrate must be 500..100000 kbps".to_owned());
    }
    if args.region.is_some() && args.canvas.is_some() {
        return Err(
            "--region and --canvas are mutually exclusive (region already fixes output size)".to_owned(),
        );
    }
    let lo = F32 { bits: DB_MIN_BITS };
    let hi = F32 { bits: DB_MAX_BITS };
    if !args.system_gain.within(lo, hi) {
        return Err("--system-gain must be -60..+12 dB".to_owned());
    }
    if !args.mic_gain.within(lo, hi) {
        return Err("--mic-gain must be -60..+12 dB".to_owned());
    }
    Ok(())
}

/// Plans a recording from the flags, the encoder's and the rate control's names
/// being in lower case already. `probe` is what the system's ffmpeg said; only a
/// native encoder that has to give way looks at it.
pub fn plan_record_lower(
    args: &RecordArgs,
    enc: &str,
    rc: &str,
    os: Os,
    probe: &Result<FfmpegInfo, EncodeError>,
) -> (r: Result<RecordPlan, String>)
    ensures
        match record_fault(*args, enc@, rc@, os, *probe) {
            Some(m) => r matches Err(e) && e@ == m,
            None => r matches Ok(p) && p.follows(*args, enc@, rc@, os, *probe),
        },
{
    if let Err(m) = check_ranges(args) {
        return Err(m);
    }
    let asked = match path_for(os, enc) {
        Ok(p) => p,
        Err(m) => {
            return Err(m);
        },
    };
    let rate = match rate_from_flags(rc, args.bitrate, args.maxrate, args.qp, args.crf) {
        Ok(v) => v,
        Err(m) => {
            return Err(m);
        },
    };
    let native = match asked {
        PathSel::Mf { .. } => true,
        _ => false,
    };
    let switched = native && args.needs_pixels();
    let path = if switched {
        match probe {
            Ok(info) => PathSel::Ffmpeg(resolve_auto_encoder(info)),
            Err(e) => {
                return Err(e.message());
            },
        }
    } else {
        asked
    };
    let constant = match rate {
        RateControl::Cbr { .. } => true,
        _ => false,
    };
    if native && !switched && !constant {
        return Err(
            "--rc modes need an ffmpeg encoder (--encoder nvenc|amf|qsv|x264); MF is CBR-only".to_owned(),
        );
    }
    let mut canvas: Option<(u32, u32)> = None;
    let mut ignored_fps: Option<u32> = None;
    if let Some(c) = &args.canvas {
        match parse_canvas(c.as_str()) {
            Ok((w, h, f)) => {
                canvas = Some((w, h));
                if let Some(n) = f {
                    if n != args.fps {
                        ignored_fps = Some(n);
                    }
                }
            },
            Err(e) => {
                return Err(e.message());
            },
        }
    }
    if let Some(s) = args.countdown {
        if s < 1 || s > 30 {
            return Err("--countdown must be 1..30 seconds".to_owned());
        }
    }
    let output = match &args.output {
        Some(o) => Some(output_with_extension(o.as_str(), Container::Mp4)),
        None => None,
    };
    Ok(
        RecordPlan {
            path,
            switched,
            rate,
            canvas,
            ignored_fps,
            output,
            show_cursor: !args.no_cursor,
            draw: args.opens_panel(),
        },
    )
}

/// Plans a recording from the flags.
pub fn plan_record(args: &RecordArgs, os: Os, probe: &Result<FfmpegInfo, EncodeError>) -> (r:
    Result<RecordPlan, String>)
    ensures
        ({
            let enc = text::lowercase(args.encoder@);
            let rc = text::lowercase(args.rc@);
            match record_fault(*args, enc, rc, os, *probe) {
                Some(m) => r matches Err(e) && e@ == m,
                None => r matches Ok(p) && p.follows(*args, enc, rc, os, *probe),
            }
        }),
{
    let enc = to_lower(args.encoder.as_str());
    let rc = to_lower(args.rc.as_str());
    plan_record_lower(args, enc.as_str(), rc.as_str(), os, probe)
}

/// Does the plan depend on what the system's ffmpeg says? It does where flags that
/// are in order so far ask for a native encoder and for changed pixels. `enc` and
/// `rc` are the names in lower case.
pub open spec fn needs_probe(args: RecordArgs, enc: Seq<char>, rc: Seq<char>, os: Os) -> bool {
    &&& range_fault(args) is None
    &&& asked_path(os, enc) matches Ok(asked) && asked is Mf
    &&& rate_of(rc, args.bitrate, args.maxrate, args.qp, args.crf) is Ok
    &&& args.burns_in()
}

/// Must ffmpeg be probed for the plan of these flags?
pub fn asks_ffmpeg(args: &RecordArgs, os: Os) -> (r: bool)
    ensures
        r == needs_probe(
            *args,
            text::lowercase(args.encoder@),
            text::lowercase(args.rc@),
            os,
        ),
{
    if check_ranges(args).is_err() || !args.needs_pixels() {
        return false;
    }
    let enc = to_lower(args.encoder.as_str());
    let rc = to_lower(args.rc.as_str());
    let native = match path_for(os, enc.as_str()) {
        Ok(PathSel::Mf { .. }) => true,
        _ => false,
    };
    native && rate_from_flags(rc.as_str(), args.bitrate, args.maxrate, args.qp, args.crf).is_ok()
}

/// Where the plan does not depend on ffmpeg, it is the same whatever ffmpeg says.
pub proof fn law_probe_only_where_needed(
    args: RecordArgs,
    plan: RecordPlan,
    enc: Seq<char>,
    rc: Seq<char>,
    os: Os,
    one: Result<FfmpegInfo, EncodeError>,
    other: Result<FfmpegInfo, EncodeError>,
)
    requires
        !needs_probe(args, enc, rc, os),
    ensures
        record_fault(args, enc, rc, os, one) == record_fault(args, enc, rc, os, other),
        record_fault(args, enc, rc, os, one) is None ==> (plan.follows(args, enc, rc, os, one)
            <==> plan.follows(args, enc, rc, os, other)),
{
}

/// What changes pixels never takes the native encoder, the native encoder records
/// at a constant rate only, and off Windows there is no native encoder.
pub proof fn law_paths(
    args: RecordArgs,
    plan: RecordPlan,
    enc: Seq<char>,
    rc: Seq<char>,
    os: Os,
    probe: Result<FfmpegInfo, EncodeError>,
)
    requires
        record_fault(args, enc, rc, os, probe) is None,
        plan.follows(args, enc, rc, os, probe),
    ensures
        plan.path is Mf ==> os == Os::Windows && !args.burns_in() && !plan.draw && plan.rate is Cbr,
        os != Os::Windows ==> plan.path == PathSel::FfmpegLater && !plan.switched,
        plan.canvas is Some ==> args.region is None,
{
}

/// The note on a canvas whose frame rate is ignored.
pub fn canvas_note(ignored: u32, fps: u32) -> (s: String)
    ensures
        s@ == "warning: --canvas fps "@ + text::decimal(ignored as nat) + " ignored, using --fps "@
            + text::decimal(fps as nat) + " (single clock)"@,
{
    let mut s = join3(
        "warning: --canvas fps ",
        decimal_text(ignored as u64).as_str(),
        " ignored, using --fps ",
    );
    s.append(decimal_text(fps as u64).as_str());
    s.append(" (single clock)");
    s
}

/// The note on a native encoder that gave way.
pub fn switch_note(kind: EncoderKind) -> (s: String)
    ensures
        s@ == "auto-switched to "@ + kind.label_spec()
            + " for annotations/drawing/cursor-fx (MF is video-only)"@,
{
    join3(
        "auto-switched to ",
        kind.label(),
        " for annotations/drawing/cursor-fx (MF is video-only)",
    )
}

/// The file that a recording without `--output` gets, by the local time written as
/// `YYYYMMDD_hhmmss`.
pub fn default_output(stamp: &str) -> (s: String)
    ensures
        s@ == "qcapture_"@ + stamp@ + ".mp4"@,
{
    join3("qcapture_", stamp, ".mp4")
}

/// The encoder that a lower-case name gets off Windows, or what is wrong.
pub open spec fn portable_encoder(
    name: Seq<char>,
    probe: Result<FfmpegInfo, EncodeError>,
) -> Result<EncoderKind, Seq<char>> {
    if name == "auto"@ || name == "h264"@ || name == "hevc"@ || name == "h265"@ {
        match probe {
            Err(e) => Err(e.text()),
            Ok(info) => if name == "auto"@ {
                Ok(encode::auto_encoder(info))
            } else if name == "h264"@ {
                match encode::h264_choice(info) {
                    Some(k) => Ok(k),
                    None => Err(
                        "this ffmpeg has no H.264 encoder — see `qcapture --probe-ffmpeg`"@,
                    ),
                }
            } else {
                match encode::hevc_choice(info) {
                    Some(k) => Ok(k),
                    None => Err("this ffmpeg has no HEVC encoder — try --encoder x264"@),
                }
            },
        }
    } else {
        match encode::kind_named(text::lowercase(name)) {
            Ok(k) => Ok(k),
            Err(e) => Err(e.text()),
        }
    }
}

/// The encoder that the flags get off Windows.
pub fn settle_encoder(args: &RecordArgs, probe: &Result<FfmpegInfo, EncodeError>) -> (r: Result<
    EncoderKind,
    String,
>)
    ensures
        text::said(r) == portable_encoder(text::lowercase(args.encoder@), *probe),
{
    resolve_unix_encoder(to_lower(args.encoder.as_str()).as_str(), probe)
}

/// Settles the encoder off Windows: vendor names stand for themselves, `auto` and
/// the bare families take what ffmpeg provides. `name` is in lower case.
pub fn resolve_unix_encoder(name: &str, probe: &Result<FfmpegInfo, EncodeError>) -> (r: Result<
    EncoderKind,
    String,
>)
    ensures
        text::said(r) == portable_encoder(name@, *probe),
{
    let auto = same(name, "auto");
    let h264 = same(name, "h264");
    if auto || h264 || same(name, "hevc") || same(name, "h265") {
        let info = match probe {
            Ok(info) => info,
            Err(e) => {
                return Err(e.message());
            },
        };
        if auto {
            Ok(resolve_auto_encoder(info))
        } else if h264 {
            match encode::best_h264(info) {
                Some(k) => Ok(k),
                None => Err(
                    "this ffmpeg has no H.264 encoder — see `qcapture --probe-ffmpeg`".to_owned(),
                ),
            }
        } else {
            match encode::best_hevc(info) {
                Some(k) => Ok(k),
                None => Err("this ffmpeg has no HEVC encoder — try --encoder x264".to_owned()),
            }
        }
    } else {
        match parse_encoder_kind(name) {
            Ok(k) => Ok(k),
            Err(e) => Err(e.message()),
        }
    }
}

/// When the recording pauses and resumes, in seconds, or what is wrong with the
/// two flags.
pub open spec fn pause_span(pause_at: Option<u64>, resume_at: Option<u64>) -> Result<
    Option<(u64, u64)>,
    Seq<char>,
> {
    match (pause_at, resume_at) {
        (None, None) => Ok(None),
        (Some(p), Some(r)) => if p < r {
            Ok(Some((p, r)))
        } else {
            Err("--pause-at must be < --resume-at"@)
        },
        (Some(_), None) => Err("--resume-at is required with --pause-at"@),
        (None, Some(_)) => Err("--pause-at is required with --resume-at"@),
    }
}

/// Reads the timed pause.
pub fn pause_times(pause_at: Option<u64>, resume_at: Option<u64>) -> (r: Result<
    Option<(u64, u64)>,
    String,
>)
    ensures
        text::said(r) == pause_span(pause_at, resume_at),
{
    match (pause_at, resume_at) {
        (None, None) => Ok(None),
        (Some(p), Some(r)) => {
            if p < r {
                Ok(Some((p, r)))
            } else {
                Err("--pause-at must be < --resume-at".to_owned())
            }
        },
        (Some(_), None) => Err("--resume-at is required with --pause-at".to_owned()),
        (None, Some(_)) => Err("--pause-at is required with --resume-at".to_owned()),
    }
}

/// What the countdown loop does next.
#[derive(Debug, Clone, Copy, PartialEq, Eq, Structural)]
pub enum CountdownStep {
    /// The time has come.
    Go,
    /// The user has called it off.
    Cancelled,
    /// Wait a little; where a number of seconds is given, show it first.
    Wait(Option<u64>),
}

/// The countdown before a recording.
#[derive(Debug, Clone, Copy, PartialEq, Eq, Structural)]
pub struct Countdown {
    pub end_ns: u64,
    /// The number shown last; one more than the whole where none was.
    pub shown: u64,
}

impl Countdown {
    /// Starts a countdown of so many seconds.
    pub fn new(secs: u64, now_ns: u64) -> (r: Self)
        requires
            1 <= secs <= 30,
            now_ns + secs * SECOND_NS <= u64::MAX,
        ensures
            r.end_ns == now_ns + secs * SECOND_NS,
            r.shown == secs + 1,
    {
        Self { end_ns: now_ns + secs * SECOND_NS, shown: secs + 1 }
    }

    /// The seconds left to show at a time, begun ones counted.
    pub open spec fn left(self, now_ns: u64) -> int {
        if now_ns < self.end_ns {
            (self.end_ns - now_ns) / SECOND_NS as int + 1
        } else {
            1
        }
    }

    /// One turn of the loop at time `now_ns`; `after_ns` is the clock read again
    /// for the number to show. Numbers only come down.
    pub fn step(&mut self, now_ns: u64, after_ns: u64, cancelled: bool) -> (r: CountdownStep)
        ensures
            final(self).end_ns == old(self).end_ns,
            ({
                let left = old(self).left(after_ns);
                if now_ns >= old(self).end_ns {
                    r == CountdownStep::Go && final(self).shown == old(self).shown
                } else if cancelled {
                    r == CountdownStep::Cancelled && final(self).shown == old(self).shown
                } else if left < old(self).shown {
                    r == CountdownStep::Wait(Some(left as u64)) && final(self).shown == left
                } else {
                    r == CountdownStep::Wait(None) && final(self).shown == old(self).shown
                }
            }),
    {
        if now_ns >= self.end_ns {
            return CountdownStep::Go;
        }
        if cancelled {
            return CountdownStep::Cancelled;
        }
        let left: u64 = if after_ns < self.end_ns {
            (self.end_ns - after_ns) / SECOND_NS + 1
        } else {
            1
        };
        if left < self.shown {
            self.shown = left;
            CountdownStep::Wait(Some(left))
        } else {
            CountdownStep::Wait(None)
        }
    }
}

/// Once it runs, the countdown shows numbers from the full one down to 1: each
/// second takes one off, and the last second shows 1.
pub proof fn law_countdown_numbers(c: Countdown, secs: u64, start_ns: u64, now_ns: u64)
    requires
        1 <= secs <= 30,
        start_ns < now_ns < c.end_ns,
        c.end_ns == start_ns + secs * SECOND_NS,
    ensures
        1 <= c.left(now_ns) <= secs,
        c.end_ns - now_ns < SECOND_NS ==> c.left(now_ns) == 1,
        now_ns + SECOND_NS < c.end_ns ==> c.left((now_ns + SECOND_NS) as u64) == c.left(now_ns) - 1,
{
}

// ---------------------------------------------------------------------------
// What holds on every input
// ---------------------------------------------------------------------------

/// The drawing window opens for drawing and for its test, and every one of the flags
/// that change pixels counts.
pub proof fn law_flags_that_change_pixels(a: RecordArgs)
    ensures
        a.draws() <==> a.draw || a.draw_test is Some,
        a.burns_in() <==> a.draws() || a.annotate is Some || a.cursor_highlight || a.cursor_ripple,
{
}

/// A mode takes its own numbers. Without a ceiling a variable rate gets half as much
/// again as the target, without a quality CRF gets 23, and CQP needs its quantiser.
pub proof fn law_rate_flags(
    bitrate: u32,
    maxrate: Option<u32>,
    qp: Option<u8>,
    crf: Option<u8>,
    rc: Seq<char>,
)
    requires
        bitrate * 3 <= u32::MAX,
    ensures
        rate_of("cbr"@, bitrate, maxrate, qp, crf) == Ok::<RateControl, Seq<char>>(
            RateControl::Cbr { bitrate_kbps: bitrate },
        ),
        rate_of("vbr"@, bitrate, maxrate, qp, crf) matches Ok(
            RateControl::Vbr { target_kbps, max_kbps },
        ) && target_kbps == bitrate && (maxrate matches Some(m) ==> max_kbps == m) && (maxrate
            is None ==> 2 * max_kbps <= 3 * bitrate < 2 * max_kbps + 2),
        qp matches Some(q) ==> rate_of("cqp"@, bitrate, maxrate, qp, crf) == Ok::<
            RateControl,
            Seq<char>,
        >(RateControl::Cqp { qp: q }),
        qp is None ==> rate_of("cqp"@, bitrate, maxrate, qp, crf) is Err,
        crf matches Some(c) ==> rate_of("crf"@, bitrate, maxrate, qp, crf) == Ok::<
            RateControl,
            Seq<char>,
        >(RateControl::Crf { crf: c }),
        crf is None ==> rate_of("crf"@, bitrate, maxrate, qp, crf) == Ok::<RateControl, Seq<char>>(
            RateControl::Crf { crf: 23 },
        ),
        rc != "cbr"@ && rc != "vbr"@ && rc != "cqp"@ && rc != "crf"@ ==> rate_of(
            rc,
            bitrate,
            maxrate,
            qp,
            crf,
        ) is Err,
{
    reveal_strlit("cbr");
    reveal_strlit("vbr");
    reveal_strlit("cqp");
    reveal_strlit("crf");
    assert("cbr"@[0] == 'c' && "cbr"@[1] == 'b' && "vbr"@[0] == 'v' && "cqp"@[1] == 'q'
        && "crf"@[1] == 'r' && "cqp"@[0] == 'c' && "crf"@[0] == 'c');
}

/// On Windows the system's encoder records H.264 and HEVC, and every other selector
/// asks ffmpeg for that encoder; elsewhere ffmpeg is asked later.
pub proof fn law_encoder_flag(os: Os, enc: Seq<char>)
    ensures
        os != Os::Windows ==> asked_path(os, enc) == Ok::<PathSel, Seq<char>>(PathSel::FfmpegLater),
        os == Os::Windows ==> {
            &&& asked_path(os, enc) == Ok::<PathSel, Seq<char>>(PathSel::Mf { hevc: false }) <==> (
            enc == "auto"@ || enc == "h264"@)
            &&& asked_path(os, enc) == Ok::<PathSel, Seq<char>>(PathSel::Mf { hevc: true }) <==> (
            enc == "hevc"@ || enc == "h265"@)
            &&& asked_path(os, enc) matches Ok(PathSel::Ffmpeg(k)) ==> encode::kind_named(
                text::lowercase(enc),
            ) == Ok::<EncoderKind, encode::EncodeErrorView>(k)
            &&& asked_path(os, enc) is Err ==> encode::kind_named(text::lowercase(enc)) is Err
        },
{
    reveal_strlit("auto");
    reveal_strlit("h264");
    reveal_strlit("hevc");
    reveal_strlit("h265");
    assert("auto"@[0] == 'a' && "h264"@[0] == 'h' && "hevc"@[0] == 'h' && "h265"@[0] == 'h');
    assert("h264"@[3] == '4' && "h265"@[3] == '5' && "hevc"@[3] == 'c');
}

/// The system's encoder gives way to the one that ffmpeg has where pixels change, and
/// nothing else changes its way.
pub proof fn law_native_gives_way(
    asked: PathSel,
    burns_in: bool,
    info: FfmpegInfo,
    e: EncodeError,
)
    ensures
        burns_in && asked is Mf ==> final_path(asked, burns_in, Ok(info)) == Ok::<
            PathSel,
            Seq<char>,
        >(PathSel::Ffmpeg(encode::auto_encoder(info))) && final_path(asked, burns_in, Err(e))
            is Err,
        !burns_in || !(asked is Mf) ==> final_path(asked, burns_in, Ok(info)) == Ok::<
            PathSel,
            Seq<char>,
        >(asked) && final_path(asked, burns_in, Err(e)) == Ok::<PathSel, Seq<char>>(asked),
{
}

/// The ranges of the numbers: 1 to 240 frames a second, 500 to 100000 kbps, gains of
/// -60 to 12 decibels; and a region excludes a canvas.
pub proof fn law_ranges_of_flags(a: RecordArgs)
    ensures
        range_fault(a) is None <==> {
            &&& 1 <= a.fps <= 240
            &&& 500 <= a.bitrate <= 100_000
            &&& !(a.region is Some && a.canvas is Some)
            &&& audio::db_ok(a.system_gain)
            &&& audio::db_ok(a.mic_gain)
        },
{
}

/// A canvas has to be readable, and a countdown takes 1 to 30 seconds.
pub proof fn law_canvas_and_countdown_flags(a: RecordArgs)
    ensures
        frame_fault(a) is None <==> {
            &&& a.canvas matches Some(c) ==> encode::canvas_in(c@) is Ok
            &&& a.countdown matches Some(s) ==> 1 <= s <= 30
        },
{
}

/// A recording is planned just where every check is passed, and the system's encoder
/// takes a constant rate only.
pub proof fn law_refused_recordings(
    a: RecordArgs,
    enc: Seq<char>,
    rc: Seq<char>,
    os: Os,
    probe: Result<FfmpegInfo, EncodeError>,
)
    ensures
        record_fault(a, enc, rc, os, probe) is None <==> {
            &&& range_fault(a) is None
            &&& frame_fault(a) is None
            &&& asked_path(os, enc) is Ok
            &&& rate_of(rc, a.bitrate, a.maxrate, a.qp, a.crf) is Ok
            &&& final_path(asked_path(os, enc)->Ok_0, a.burns_in(), probe) matches Ok(p) && (p is Mf
                ==> rate_of(rc, a.bitrate, a.maxrate, a.qp, a.crf)->Ok_0 is Cbr)
        },
{
}

/// What a plan takes over from the flags.
pub proof fn law_plan_follows_the_flags(
    a: RecordArgs,
    plan: RecordPlan,
    enc: Seq<char>,
    rc: Seq<char>,
    os: Os,
    probe: Result<FfmpegInfo, EncodeError>,
)
    requires
        plan.follows(a, enc, rc, os, probe),
    ensures
        plan.show_cursor == !a.no_cursor,
        plan.draw == (a.draw || a.draw_test is Some),
        a.canvas is None ==> plan.canvas is None && plan.ignored_fps is None,
        a.canvas matches Some(c) ==> (encode::canvas_in(c@) matches Ok((w, h, f)) && plan.canvas
            == Some((w, h)) && (plan.ignored_fps is Some <==> f is Some && f != Some(a.fps))
            && (plan.ignored_fps is Some ==> plan.ignored_fps == f)),
        a.output is None ==> plan.output is None,
        a.output matches Some(o) ==> (plan.output matches Some(p) && p@ == encode::with_ext(
            o@,
            Container::Mp4,
        )),
        Ok::<RateControl, Seq<char>>(plan.rate) == rate_of(rc, a.bitrate, a.maxrate, a.qp, a.crf),
        plan.switched <==> a.burns_in() && (asked_path(os, enc) matches Ok(p) && p is Mf),
        !plan.switched ==> asked_path(os, enc) == Ok::<PathSel, Seq<char>>(plan.path),
        plan.switched ==> (probe matches Ok(info) && plan.path == PathSel::Ffmpeg(
            encode::auto_encoder(info),
        )),
{
}

/// ffmpeg has to be asked only where the system's encoder would have to give way.
pub proof fn law_when_ffmpeg_is_asked(a: RecordArgs, enc: Seq<char>, rc: Seq<char>, os: Os)
    requires
        needs_probe(a, enc, rc, os),
    ensures
        os == Os::Windows,
        a.burns_in(),
        enc == "auto"@ || enc == "h264"@ || enc == "hevc"@ || enc == "h265"@,
{
}

/// Off Windows `auto`, `h264` and `hevc` take the best that ffmpeg has, and any other
/// name that encoder, whatever ffmpeg has.
pub proof fn law_portable_encoders(info: FfmpegInfo, e: EncodeError, name: Seq<char>)
    ensures
        portable_encoder("auto"@, Ok(info)) == Ok::<EncoderKind, Seq<char>>(
            encode::auto_encoder(info),
        ),
        encode::h264_choice(info) matches Some(k) ==> portable_encoder("h264"@, Ok(info)) == Ok::<
            EncoderKind,
            Seq<char>,
        >(k),
        encode::h264_choice(info) is None ==> portable_encoder("h264"@, Ok(info)) is Err,
        encode::hevc_choice(info) matches Some(k) ==> portable_encoder("hevc"@, Ok(info)) == Ok::<
            EncoderKind,
            Seq<char>,
        >(k) && portable_encoder("h265"@, Ok(info)) == Ok::<EncoderKind, Seq<char>>(k),
        encode::hevc_choice(info) is None ==> portable_encoder("hevc"@, Ok(info)) is Err
            && portable_encoder("h265"@, Ok(info)) is Err,
        name == "auto"@ || name == "h264"@ || name == "hevc"@ || name == "h265"@
            ==> portable_encoder(name, Err(e)) == Err::<EncoderKind, Seq<char>>(e.text()),
        name != "auto"@ && name != "h264"@ && name != "hevc"@ && name != "h265"@ ==> {
            &&& portable_encoder(name, Ok(info)) == portable_encoder(name, Err(e))
            &&& encode::kind_named(text::lowercase(name)) matches Ok(k) ==> portable_encoder(
                name,
                Ok(info),
            ) == Ok::<EncoderKind, Seq<char>>(k)
            &&& encode::kind_named(text::lowercase(name)) is Err ==> portable_encoder(
                name,
                Ok(info),
            ) is Err
        },
{
    reveal_strlit("auto");
    reveal_strlit("h264");
    reveal_strlit("hevc");
    reveal_strlit("h265");
    assert("auto"@[0] == 'a' && "h264"@[0] == 'h' && "hevc"@[0] == 'h' && "h265"@[0] == 'h');
    assert("h264"@[3] == '4' && "h265"@[3] == '5' && "hevc"@[3] == 'c');
}

/// A pause has both of its ends, the first before the second, or none.
pub proof fn law_pause_flags(p: u64, r: u64)
    ensures
        pause_span(None, None) == Ok::<Option<(u64, u64)>, Seq<char>>(None),
        pause_span(Some(p), Some(r)) is Ok <==> p < r,
        p < r ==> pause_span(Some(p), Some(r)) == Ok::<Option<(u64, u64)>, Seq<char>>(
            Some((p, r)),
        ),
        pause_span(Some(p), None) is Err,
        pause_span(None, Some(r)) is Err,
{
}

/// The number that is shown is the seconds that are left, the one that runs counted.
pub proof fn law_countdown_seconds(c: Countdown, now_ns: u64)
    ensures
        now_ns < c.end_ns ==> (c.left(now_ns) - 1) * 1_000_000_000 <= c.end_ns - now_ns < c.left(
            now_ns,
        ) * 1_000_000_000,
        now_ns >= c.end_ns ==> c.left(now_ns) == 1,
{
}

/// What is said of flags that are refused, the first of them first.
pub proof fn law_flag_refusals(a: RecordArgs)
    ensures
        a.fps == 0 || a.fps > 240 ==> range_fault(a) == Some("--fps must be 1..240"@),
        1 <= a.fps <= 240 && (a.bitrate < 500 || a.bitrate > 100_000) ==> range_fault(a) == Some(
            "--bitrate must be 500..100000 kbps"@,
        ),
        1 <= a.fps <= 240 && 500 <= a.bitrate <= 100_000 && a.region is Some && a.canvas is Some
            ==> range_fault(a) == Some(
            "--region and --canvas are mutually exclusive (region already fixes output size)"@,
        ),
        1 <= a.fps <= 240 && 500 <= a.bitrate <= 100_000 && a.region is None && !audio::db_ok(
            a.system_gain,
        ) ==> range_fault(a) == Some("--system-gain must be -60..+12 dB"@),
        1 <= a.fps <= 240 && 500 <= a.bitrate <= 100_000 && a.region is None && audio::db_ok(
            a.system_gain,
        ) && !audio::db_ok(a.mic_gain) ==> range_fault(a) == Some(
            "--mic-gain must be -60..+12 dB"@,
        ),
        a.canvas matches Some(c) ==> (encode::canvas_in(c@) matches Err(m) ==> frame_fault(a)
            == Some("ffmpeg probe failed: "@ + m)),
        a.canvas is None ==> (a.countdown matches Some(s) ==> (s == 0 || s > 30 ==> frame_fault(a)
            == Some("--countdown must be 1..30 seconds"@))),
{
}

/// What is said of a mode, a pause or an encoder that is refused.
pub proof fn law_more_refusals(
    rc: Seq<char>,
    n: u32,
    m: Option<u32>,
    crf: Option<u8>,
    p: u64,
    r: u64,
    info: FfmpegInfo,
)
    ensures
        rc == "cqp"@ ==> rate_of(rc, n, m, None, crf) == Err::<RateControl, Seq<char>>(
            "--rc cqp needs --qp N (0..51)"@,
        ),
        rc != "cbr"@ && rc != "vbr"@ && rc != "cqp"@ && rc != "crf"@ ==> rate_of(
            rc,
            n,
            m,
            None,
            crf,
        ) == Err::<RateControl, Seq<char>>("unknown --rc '"@ + rc + "' (want cbr|vbr|cqp|crf)"@),
        p >= r ==> pause_span(Some(p), Some(r)) == Err::<Option<(u64, u64)>, Seq<char>>(
            "--pause-at must be < --resume-at"@,
        ),
        pause_span(Some(p), None) == Err::<Option<(u64, u64)>, Seq<char>>(
            "--resume-at is required with --pause-at"@,
        ),
        pause_span(None, Some(r)) == Err::<Option<(u64, u64)>, Seq<char>>(
            "--pause-at is required with --resume-at"@,
        ),
        encode::h264_choice(info) is None ==> portable_encoder("h264"@, Ok(info)) == Err::<
            EncoderKind,
            Seq<char>,
        >("this ffmpeg has no H.264 encoder — see `qcapture --probe-ffmpeg`"@),
        encode::hevc_choice(info) is None ==> portable_encoder("hevc"@, Ok(info)) == Err::<
            EncoderKind,
            Seq<char>,
        >("this ffmpeg has no HEVC encoder — try --encoder x264"@),
{
    reveal_strlit("cbr");
    reveal_strlit("vbr");
    reveal_strlit("cqp");
    assert("cbr"@[1] == 'b' && "cqp"@[1] == 'q' && "vbr"@[0] == 'v' && "cqp"@[0] == 'c');
    reveal_strlit("auto");
    reveal_strlit("h264");
    reveal_strlit("hevc");
    assert("auto"@[0] == 'a' && "h264"@[0] == 'h' && "hevc"@[0] == 'h');
    assert("h264"@[3] == '4' && "hevc"@[3] == 'c');
}

/// The system's encoder is refused every mode but a constant rate, and it is said
/// which encoders have them.
pub proof fn law_native_mode_refusal(
    a: RecordArgs,
    enc: Seq<char>,
    rc: Seq<char>,
    os: Os,
    probe: Result<FfmpegInfo, EncodeError>,
)
    requires
        asked_path(os, enc) is Ok,
        rate_of(rc, a.bitrate, a.maxrate, a.qp, a.crf) is Ok,
        !(rate_of(rc, a.bitrate, a.maxrate, a.qp, a.crf)->Ok_0 is Cbr),
        asked_path(os, enc)->Ok_0 is Mf,
        !a.burns_in(),
    ensures
        codec_fault(a, enc, rc, os, probe) == Some(
            "--rc modes need an ffmpeg encoder (--encoder nvenc|amf|qsv|x264); MF is CBR-only"@,
        ),
{
}

} // verus!
