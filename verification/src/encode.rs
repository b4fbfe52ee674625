//! Encoder selection, rate control and the ffmpeg command line.
//!
//! Video enters ffmpeg as raw BGRA on its standard input; audio comes through a
//! second pipe. The functions here decide everything about that child process
//! up to running it.

use crate::text;
use crate::text::{decimal_text, ends_with, from_chars, join2, join3, join_tail, lines, parse_u32, piece, push_text, push_texts, same, split_once, text_contains, to_chars, to_lower, trim};
use crate::types::{CanvasConfig, Container, EncodeConfig, EncoderKind, RateControl};
use vstd::prelude::*;

verus! {

#[derive(Debug, Clone, PartialEq, Eq)]
pub enum EncodeError {
    FfmpegMissing,
    Probe(String),
    UnsupportedEncoder(EncoderKind),
}

/// What an `EncodeError` says.
pub enum EncodeErrorView {
    FfmpegMissing,
    Probe(Seq<char>),
    UnsupportedEncoder(EncoderKind),
}

impl View for EncodeError {
    type V = EncodeErrorView;

    open spec fn view(&self) -> EncodeErrorView {
        match self {
            EncodeError::FfmpegMissing => EncodeErrorView::FfmpegMissing,
            EncodeError::Probe(m) => EncodeErrorView::Probe(m@),
            EncodeError::UnsupportedEncoder(k) => EncodeErrorView::UnsupportedEncoder(*k),
        }
    }
}

impl EncodeErrorView {
    /// The text of the error.
    pub open spec fn text(self) -> Seq<char> {
        match self {
            EncodeErrorView::FfmpegMissing =>
                "ffmpeg not found in PATH — install ffmpeg 7.x or place ffmpeg.dll beside qcapture.exe"@,
            EncodeErrorView::Probe(m) => "ffmpeg probe failed: "@ + m,
            EncodeErrorView::UnsupportedEncoder(k) => "unsupported encoder "@ + k.label_spec()
                + " for current OS"@,
        }
    }
}

impl EncodeError {
    /// The text of the error.
    pub open spec fn text(self) -> Seq<char> {
        self@.text()
    }

    /// The text of the error, for the user.
    pub fn message(&self) -> (s: String)
        ensures
            s@ == self.text(),
    {
        match self {
            EncodeError::FfmpegMissing => {
                "ffmpeg not found in PATH — install ffmpeg 7.x or place ffmpeg.dll beside qcapture.exe".to_owned()
            },
            EncodeError::Probe(m) => join2("ffmpeg probe failed: ", m.as_str()),
            EncodeError::UnsupportedEncoder(k) => {
                join3("unsupported encoder ", k.label(), " for current OS")
            },
        }
    }
}

/// An outcome by the views of its error.
pub open spec fn outcome<T>(r: Result<T, EncodeError>) -> Result<T, EncodeErrorView> {
    match r {
        Ok(v) => Ok(v),
        Err(e) => Err(e@),
    }
}

/// A list of arguments, or the error, by their contents.
pub open spec fn arg_outcome(r: Result<Vec<String>, EncodeError>) -> Result<
    Seq<Seq<char>>,
    EncodeErrorView,
> {
    match r {
        Ok(v) => Ok(text::texts(v@)),
        Err(e) => Err(e@),
    }
}

fn probe_error(m: &str) -> (e: EncodeError)
    ensures
        e@ == EncodeErrorView::Probe(m@),
{
    EncodeError::Probe(m.to_owned())
}

// ---------------------------------------------------------------------------
// Rate control
// ---------------------------------------------------------------------------

/// Encoders that share their rate-control flags.
#[derive(Debug, Clone, Copy, PartialEq, Eq, Structural)]
pub enum Family {
    X264,
    Nvenc,
    Amf,
    Qsv,
    Unknown,
}

/// The family of an ffmpeg encoder name.
pub open spec fn family_of(name: Seq<char>) -> Family {
    if name == "libx264"@ {
        Family::X264
    } else if name == "h264_nvenc"@ || name == "hevc_nvenc"@ {
        Family::Nvenc
    } else if name == "h264_amf"@ {
        Family::Amf
    } else if name == "h264_qsv"@ || name == "hevc_qsv"@ || name == "av1_qsv"@ {
        Family::Qsv
    } else {
        Family::Unknown
    }
}

/// The family of an ffmpeg encoder name.
pub fn family(name: &str) -> (f: Family)
    ensures
        f == family_of(name@),
{
    if same(name, "libx264") {
        Family::X264
    } else if same(name, "h264_nvenc") || same(name, "hevc_nvenc") {
        Family::Nvenc
    } else if same(name, "h264_amf") {
        Family::Amf
    } else if same(name, "h264_qsv") || same(name, "hevc_qsv") || same(name, "av1_qsv") {
        Family::Qsv
    } else {
        Family::Unknown
    }
}

/// A bitrate as ffmpeg reads it.
pub open spec fn kbps(k: u32) -> Seq<char> {
    text::decimal(k as nat) + "k"@
}

/// Twice the rate, or the largest one.
pub open spec fn doubled(k: u32) -> u32 {
    if 2 * k <= u32::MAX {
        (2 * k) as u32
    } else {
        u32::MAX
    }
}

/// Frames between keyframes: four seconds of video.
pub open spec fn gop_of(fps: u32) -> nat {
    if fps == 0 {
        4
    } else {
        (fps * 4) as nat
    }
}

/// Why an encoder refuses a rate-control mode, if it does.
pub open spec fn rate_fault(name: Seq<char>, rate: RateControl) -> Option<Seq<char>> {
    let unmapped = "no rate mapping for encoder '"@ + name + "' on this ffmpeg"@;
    match (family_of(name), rate) {
        (Family::X264, RateControl::Cqp { .. }) => Some(
            "x264 has no CQP mode — use --rc crf --crf N instead"@,
        ),
        (Family::X264, RateControl::Crf { crf }) => quality_fault(crf),
        (Family::Nvenc, RateControl::Crf { .. }) => Some(
            "NVENC has no CRF mode — use --rc cqp --qp N instead"@,
        ),
        (Family::Amf, RateControl::Crf { .. }) => Some(
            "AMF has no CRF mode — use --rc cqp --qp N instead"@,
        ),
        (Family::Qsv, RateControl::Crf { .. }) => Some(
            "QSV has no CRF mode — use --rc cqp --qp N instead"@,
        ),
        (_, RateControl::Crf { .. }) => Some("CRF is only supported with --encoder x264"@),
        (Family::Unknown, _) => Some(unmapped),
        (_, RateControl::Cbr { bitrate_kbps }) => if bitrate_kbps == 0 {
            Some("--bitrate must be > 0"@)
        } else {
            None
        },
        (_, RateControl::Vbr { target_kbps, max_kbps }) => vbr_fault(target_kbps, max_kbps),
        (_, RateControl::Cqp { qp }) => quality_fault(qp),
    }
}

/// Why a quantiser is refused, if it is.
pub open spec fn quality_fault(q: u8) -> Option<Seq<char>> {
    if q > 51 {
        Some("qp "@ + text::decimal(q as nat) + " out of range 0..51 (lower = better quality)"@)
    } else {
        None
    }
}

/// Why a pair of rates is refused, if it is.
pub open spec fn vbr_fault(target_kbps: u32, max_kbps: u32) -> Option<Seq<char>> {
    if target_kbps == 0 {
        Some("--bitrate must be > 0"@)
    } else if max_kbps < target_kbps {
        Some("--maxrate "@ + kbps(max_kbps) + " must be >= --bitrate "@ + kbps(target_kbps))
    } else {
        None
    }
}

/// The flags of a mode that the encoder family has.
pub open spec fn mode_flags(f: Family, rate: RateControl) -> Seq<Seq<char>> {
    let speed = seq!["-preset"@, "veryfast"@];
    let balanced = seq!["-quality"@, "balanced"@];
    match rate {
        RateControl::Cbr { bitrate_kbps } => seq!["-b:v"@, kbps(bitrate_kbps)] + (match f {
            Family::Nvenc => seq!["-rc"@, "cbr"@],
            Family::Amf => balanced,
            _ => speed,
        }),
        RateControl::Vbr { target_kbps, max_kbps } => seq![
            "-b:v"@,
            kbps(target_kbps),
            "-maxrate"@,
            kbps(max_kbps),
            "-bufsize"@,
            kbps(doubled(max_kbps)),
        ] + (match f {
            Family::Nvenc => seq!["-rc"@, "vbr"@],
            Family::Amf => seq!["-rc"@, "vbr"@] + balanced,
            _ => speed,
        }),
        RateControl::Cqp { qp } => match f {
            Family::Nvenc => seq!["-rc"@, "constqp"@, "-qp"@, text::decimal(qp as nat)],
            Family::Amf => seq!["-rc"@, "cqp"@, "-qp"@, text::decimal(qp as nat)] + balanced,
            _ => seq!["-q"@, text::decimal(qp as nat)] + speed,
        },
        RateControl::Crf { crf } => seq!["-crf"@, text::decimal(crf as nat)] + speed,
    }
}

/// The rate-control and tuning arguments of an encoder, or why there are none.
pub open spec fn rate_args(name: Seq<char>, rate: RateControl, fps: u32) -> Result<
    Seq<Seq<char>>,
    EncodeErrorView,
> {
    match rate_fault(name, rate) {
        Some(m) => Err(EncodeErrorView::Probe(m)),
        None => Ok(mode_flags(family_of(name), rate) + seq!["-g"@, text::decimal(gop_of(fps))]),
    }
}

fn kbps_text(k: u32) -> (s: String)
    ensures
        s@ == kbps(k),
{
    let mut s = decimal_text(k as u64);
    s.append("k");
    s
}

fn check_quality(q: u8) -> (r: Result<(), EncodeError>)
    ensures
        outcome(r) == (match quality_fault(q) {
            Some(m) => Err::<(), EncodeErrorView>(EncodeErrorView::Probe(m)),
            None => Ok(()),
        }),
{
    if q > 51 {
        let d = decimal_text(q as u64);
        let m = join3("qp ", d.as_str(), " out of range 0..51 (lower = better quality)");
        Err(EncodeError::Probe(m))
    } else {
        Ok(())
    }
}

/// Accepts a target rate above zero and a ceiling that is not below it.
pub fn check_vbr(target_kbps: u32, max_kbps: u32) -> (r: Result<(), EncodeError>)
    ensures
        outcome(r) == (match vbr_fault(target_kbps, max_kbps) {
            Some(m) => Err::<(), EncodeErrorView>(EncodeErrorView::Probe(m)),
            None => Ok(()),
        }),
{
    if target_kbps == 0 {
        return Err(probe_error("--bitrate must be > 0"));
    }
    if max_kbps < target_kbps {
        let mut m = join2("--maxrate ", kbps_text(max_kbps).as_str());
        m.append(" must be >= --bitrate ");
        m.append(kbps_text(target_kbps).as_str());
        return Err(EncodeError::Probe(m));
    }
    Ok(())
}

fn push2(out: &mut Vec<String>, a: &str, b: &str)
    ensures
        text::texts(final(out)@) == text::texts(old(out)@) + seq![a@, b@],
{
    push_text(out, a);
    push_text(out, b);
    assert(text::texts(out@) =~= text::texts(old(out)@) + seq![a@, b@]);
}

/// The flags of a mode that the encoder family has.
fn mode_args(f: Family, rate: &RateControl) -> (out: Vec<String>)
    ensures
        text::texts(out@) == mode_flags(f, *rate),
{
    let mut out: Vec<String> = Vec::new();
    match rate {
        RateControl::Cbr { bitrate_kbps } => {
            push2(&mut out, "-b:v", kbps_text(*bitrate_kbps).as_str());
            match f {
                Family::Nvenc => push2(&mut out, "-rc", "cbr"),
                Family::Amf => push2(&mut out, "-quality", "balanced"),
                _ => push2(&mut out, "-preset", "veryfast"),
            }
        },
        RateControl::Vbr { target_kbps, max_kbps } => {
            push2(&mut out, "-b:v", kbps_text(*target_kbps).as_str());
            push2(&mut out, "-maxrate", kbps_text(*max_kbps).as_str());
            push2(&mut out, "-bufsize", kbps_text(max_kbps.saturating_add(*max_kbps)).as_str());
            match f {
                Family::Nvenc => push2(&mut out, "-rc", "vbr"),
                Family::Amf => {
                    push2(&mut out, "-rc", "vbr");
                    push2(&mut out, "-quality", "balanced");
                },
                _ => push2(&mut out, "-preset", "veryfast"),
            }
        },
        RateControl::Cqp { qp } => {
            let q = decimal_text(*qp as u64);
            match f {
                Family::Nvenc => {
                    push2(&mut out, "-rc", "constqp");
                    push2(&mut out, "-qp", q.as_str());
                },
                Family::Amf => {
                    push2(&mut out, "-rc", "cqp");
                    push2(&mut out, "-qp", q.as_str());
                    push2(&mut out, "-quality", "balanced");
                },
                _ => {
                    push2(&mut out, "-q", q.as_str());
                    push2(&mut out, "-preset", "veryfast");
                },
            }
        },
        RateControl::Crf { crf } => {
            push2(&mut out, "-crf", decimal_text(*crf as u64).as_str());
            push2(&mut out, "-preset", "veryfast");
        },
    }
    assert(text::texts(out@) =~= mode_flags(f, *rate));
    out
}

/// Rate-control and codec-tuning arguments for `-c:v <encoder_name>`.
///
/// - CBR honours the bitrate.
/// - VBR caps at the ceiling with a buffer of twice that; x264 keeps `veryfast`.
/// - CQP is constant-QP; x264 has none and says so.
/// - CRF exists only on x264; NVENC, QSV and AMF point at their CQP equivalents.
pub fn rate_control_args(encoder_name: &str, rate: &RateControl, fps: u32) -> (r: Result<
    Vec<String>,
    EncodeError,
>)
    requires
        fps * 4 <= u32::MAX,
    ensures
        arg_outcome(r) == rate_args(encoder_name@, *rate, fps),
{
    let gop: u32 = if fps == 0 {
        4
    } else {
        fps * 4
    };
    let f = family(encoder_name);
    match (f, rate) {
        (Family::X264, RateControl::Cqp { .. }) => {
            return Err(probe_error("x264 has no CQP mode — use --rc crf --crf N instead"));
        },
        (Family::X264, RateControl::Crf { crf }) => {
            if let Err(e) = check_quality(*crf) {
                return Err(e);
            }
        },
        (Family::Nvenc, RateControl::Crf { .. }) => {
            return Err(probe_error("NVENC has no CRF mode — use --rc cqp --qp N instead"));
        },
        (Family::Amf, RateControl::Crf { .. }) => {
            return Err(probe_error("AMF has no CRF mode — use --rc cqp --qp N instead"));
        },
        (Family::Qsv, RateControl::Crf { .. }) => {
            return Err(probe_error("QSV has no CRF mode — use --rc cqp --qp N instead"));
        },
        (_, RateControl::Crf { .. }) => {
            return Err(probe_error("CRF is only supported with --encoder x264"));
        },
        (Family::Unknown, _) => {
            return Err(
                EncodeError::Probe(
                    join3("no rate mapping for encoder '", encoder_name, "' on this ffmpeg"),
                ),
            );
        },
        (_, RateControl::Cbr { bitrate_kbps }) => {
            if *bitrate_kbps == 0 {
                return Err(probe_error("--bitrate must be > 0"));
            }
        },
        (_, RateControl::Vbr { target_kbps, max_kbps }) => {
            if let Err(e) = check_vbr(*target_kbps, *max_kbps) {
                return Err(e);
            }
        },
        (_, RateControl::Cqp { qp }) => {
            if let Err(e) = check_quality(*qp) {
                return Err(e);
            }
        },
    }
    let mut out = mode_args(f, rate);
    push2(&mut out, "-g", decimal_text(gop as u64).as_str());
    Ok(out)
}

// ---------------------------------------------------------------------------
// Probing and choosing an encoder
// ---------------------------------------------------------------------------

/// What the installed ffmpeg provides.
#[derive(Debug, Clone, PartialEq, Eq)]
pub struct FfmpegInfo {
    pub version_line: String,
    pub has_nvenc: bool,
    pub has_amf: bool,
    pub has_qsv: bool,
    pub has_videotoolbox: bool,
    pub has_libx264: bool,
}

impl FfmpegInfo {
    /// Does it hold what the two texts that ffmpeg printed say?
    pub open spec fn read_from(self, version: Seq<char>, encoders: Seq<char>) -> bool {
        &&& self.version_line@ == (if text::lines_of(version).len() > 0 {
            text::lines_of(version)[0]
        } else {
            Seq::empty()
        })
        &&& self.has_nvenc == text::has_part(encoders, "h264_nvenc"@)
        &&& self.has_amf == text::has_part(encoders, "h264_amf"@)
        &&& self.has_qsv == text::has_part(encoders, "h264_qsv"@)
        &&& self.has_videotoolbox == text::has_part(encoders, "h264_videotoolbox"@)
        &&& self.has_libx264 == text::has_part(encoders, "libx264"@)
    }
}

/// Reads what the system's ffmpeg printed.
///
/// `version` is the run of `ffmpeg -version`: `None` where no ffmpeg could be
/// started, else whether it succeeded and what it printed. `encoders` is the run
/// of `ffmpeg -hide_banner -encoders`: what it printed, or why it did not start.
pub fn probe_ffmpeg(version: Option<(bool, &str)>, encoders: Result<&str, &str>) -> (r: Result<
    FfmpegInfo,
    EncodeError,
>)
    ensures
        match (version, encoders) {
            (None, _) => r matches Err(e) && e@ == EncodeErrorView::FfmpegMissing,
            (Some((false, _)), _) => r matches Err(e) && e@ == EncodeErrorView::Probe(
                "ffmpeg -version failed"@,
            ),
            (Some((true, _)), Err(m)) => r matches Err(e) && e@ == EncodeErrorView::Probe(m@),
            (Some((true, v)), Ok(t)) => r matches Ok(info) && info.read_from(v@, t@),
        },
{
    let (ok, version_text) = match version {
        Some(run) => run,
        None => {
            return Err(EncodeError::FfmpegMissing);
        },
    };
    if !ok {
        return Err(probe_error("ffmpeg -version failed"));
    }
    let encoder_text = match encoders {
        Ok(t) => t,
        Err(m) => {
            return Err(probe_error(m));
        },
    };
    let rows = lines(to_chars(version_text).as_slice());
    let version_line = if rows.len() > 0 {
        from_chars(rows[0].as_slice())
    } else {
        String::new()
    };
    proof {
        assert(text::char_rows(rows@).len() == rows@.len());
        if rows@.len() > 0 {
            assert(text::char_rows(rows@)[0] == rows@[0]@);
        }
    }
    Ok(
        FfmpegInfo {
            version_line,
            has_nvenc: text_contains(encoder_text, "h264_nvenc"),
            has_amf: text_contains(encoder_text, "h264_amf"),
            has_qsv: text_contains(encoder_text, "h264_qsv"),
            has_videotoolbox: text_contains(encoder_text, "h264_videotoolbox"),
            has_libx264: text_contains(encoder_text, "libx264"),
        },
    )
}

/// The first hardware H.264 encoder on offer: NVENC, AMF, QSV, VideoToolbox.
pub open spec fn hardware_h264(info: FfmpegInfo) -> Option<EncoderKind> {
    if info.has_nvenc {
        Some(EncoderKind::H264Nvenc)
    } else if info.has_amf {
        Some(EncoderKind::H264Amf)
    } else if info.has_qsv {
        Some(EncoderKind::H264Qsv)
    } else if info.has_videotoolbox {
        Some(EncoderKind::H264VideoToolbox)
    } else {
        None
    }
}

/// The encoder behind `Auto`: hardware first, software last.
pub open spec fn auto_encoder(info: FfmpegInfo) -> EncoderKind {
    match hardware_h264(info) {
        Some(k) => k,
        None => EncoderKind::LibX264,
    }
}

/// The best H.264 encoder on offer.
pub open spec fn h264_choice(info: FfmpegInfo) -> Option<EncoderKind> {
    match hardware_h264(info) {
        Some(k) => Some(k),
        None => if info.has_libx264 {
            Some(EncoderKind::LibX264)
        } else {
            None
        },
    }
}

/// The best HEVC encoder on offer: NVENC, then QSV.
pub open spec fn hevc_choice(info: FfmpegInfo) -> Option<EncoderKind> {
    if info.has_nvenc {
        Some(EncoderKind::HevcNvenc)
    } else if info.has_qsv {
        Some(EncoderKind::HevcQsv)
    } else {
        None
    }
}

/// Does this ffmpeg provide the encoder? `Auto` and the system's own encoder
/// need nothing from it.
pub open spec fn provides(info: FfmpegInfo, kind: EncoderKind) -> bool {
    match kind {
        EncoderKind::Auto | EncoderKind::H264MediaFoundation => true,
        EncoderKind::H264Nvenc | EncoderKind::HevcNvenc => info.has_nvenc,
        EncoderKind::H264Amf => info.has_amf,
        EncoderKind::H264Qsv | EncoderKind::HevcQsv | EncoderKind::Av1Qsv => info.has_qsv,
        EncoderKind::H264VideoToolbox => info.has_videotoolbox,
        EncoderKind::LibX264 => info.has_libx264,
    }
}

/// Picks the encoder behind `Auto`: hardware first, software last.
pub fn resolve_auto_encoder(info: &FfmpegInfo) -> (r: EncoderKind)
    ensures
        r == auto_encoder(*info),
{
    if info.has_nvenc {
        EncoderKind::H264Nvenc
    } else if info.has_amf {
        EncoderKind::H264Amf
    } else if info.has_qsv {
        EncoderKind::H264Qsv
    } else if info.has_videotoolbox {
        EncoderKind::H264VideoToolbox
    } else {
        EncoderKind::LibX264
    }
}

/// Best available H.264 encoder.
pub fn best_h264(info: &FfmpegInfo) -> (r: Option<EncoderKind>)
    ensures
        r == h264_choice(*info),
{
    if info.has_nvenc {
        Some(EncoderKind::H264Nvenc)
    } else if info.has_amf {
        Some(EncoderKind::H264Amf)
    } else if info.has_qsv {
        Some(EncoderKind::H264Qsv)
    } else if info.has_videotoolbox {
        Some(EncoderKind::H264VideoToolbox)
    } else if info.has_libx264 {
        Some(EncoderKind::LibX264)
    } else {
        None
    }
}

/// Best available HEVC encoder.
pub fn best_hevc(info: &FfmpegInfo) -> (r: Option<EncoderKind>)
    ensures
        r == hevc_choice(*info),
{
    if info.has_nvenc {
        Some(EncoderKind::HevcNvenc)
    } else if info.has_qsv {
        Some(EncoderKind::HevcQsv)
    } else {
        None
    }
}

/// Does this ffmpeg provide `kind`?
pub fn supports(kind: EncoderKind, info: &FfmpegInfo) -> (r: bool)
    ensures
        r == provides(*info, kind),
{
    match kind {
        EncoderKind::Auto => true,
        EncoderKind::H264Nvenc | EncoderKind::HevcNvenc => info.has_nvenc,
        EncoderKind::H264Amf => info.has_amf,
        EncoderKind::H264Qsv | EncoderKind::HevcQsv | EncoderKind::Av1Qsv => info.has_qsv,
        EncoderKind::H264VideoToolbox => info.has_videotoolbox,
        EncoderKind::H264MediaFoundation => true,
        EncoderKind::LibX264 => info.has_libx264,
    }
}

/// The ffmpeg name of an encoder; `Auto` stands for what it was resolved to.
pub open spec fn encoder_name_of(kind: EncoderKind, auto_resolved: EncoderKind) -> Seq<char> {
    let k = if kind == EncoderKind::Auto {
        auto_resolved
    } else {
        kind
    };
    match k {
        EncoderKind::H264Nvenc => "h264_nvenc"@,
        EncoderKind::H264Amf => "h264_amf"@,
        EncoderKind::H264Qsv => "h264_qsv"@,
        EncoderKind::H264VideoToolbox => "h264_videotoolbox"@,
        EncoderKind::H264MediaFoundation => "h264_mf"@,
        EncoderKind::LibX264 => "libx264"@,
        EncoderKind::HevcNvenc => "hevc_nvenc"@,
        EncoderKind::HevcQsv => "hevc_qsv"@,
        EncoderKind::Av1Qsv => "av1_qsv"@,
        EncoderKind::Auto => "libx264"@,
    }
}

/// Maps an encoder to its ffmpeg name.
pub fn ffmpeg_encoder_name(kind: EncoderKind, auto_resolved: EncoderKind) -> (r: &'static str)
    ensures
        r@ == encoder_name_of(kind, auto_resolved),
{
    let k = if kind == EncoderKind::Auto {
        auto_resolved
    } else {
        kind
    };
    match k {
        EncoderKind::H264Nvenc => "h264_nvenc",
        EncoderKind::H264Amf => "h264_amf",
        EncoderKind::H264Qsv => "h264_qsv",
        EncoderKind::H264VideoToolbox => "h264_videotoolbox",
        EncoderKind::H264MediaFoundation => "h264_mf",
        EncoderKind::LibX264 => "libx264",
        EncoderKind::HevcNvenc => "hevc_nvenc",
        EncoderKind::HevcQsv => "hevc_qsv",
        EncoderKind::Av1Qsv => "av1_qsv",
        EncoderKind::Auto => "libx264",
    }
}

/// The encoder that a lower-case selector names.
pub open spec fn kind_named(s: Seq<char>) -> Result<EncoderKind, EncodeErrorView> {
    if s == "auto"@ {
        Ok(EncoderKind::Auto)
    } else if s == "nvenc"@ || s == "h264_nvenc"@ {
        Ok(EncoderKind::H264Nvenc)
    } else if s == "amf"@ || s == "h264_amf"@ {
        Ok(EncoderKind::H264Amf)
    } else if s == "qsv"@ || s == "h264_qsv"@ {
        Ok(EncoderKind::H264Qsv)
    } else if s == "videotoolbox"@ || s == "vt"@ {
        Ok(EncoderKind::H264VideoToolbox)
    } else if s == "x264"@ || s == "libx264"@ {
        Ok(EncoderKind::LibX264)
    } else {
        Err(
            EncodeErrorView::Probe(
                "unknown encoder '"@ + s + "' (want auto|nvenc|amf|qsv|x264)"@,
            ),
        )
    }
}

/// Maps a selector that is in lower case already to its encoder.
pub fn encoder_kind_of_lower(s: &str) -> (r: Result<EncoderKind, EncodeError>)
    ensures
        outcome(r) == kind_named(s@),
{
    if same(s, "auto") {
        Ok(EncoderKind::Auto)
    } else if same(s, "nvenc") || same(s, "h264_nvenc") {
        Ok(EncoderKind::H264Nvenc)
    } else if same(s, "amf") || same(s, "h264_amf") {
        Ok(EncoderKind::H264Amf)
    } else if same(s, "qsv") || same(s, "h264_qsv") {
        Ok(EncoderKind::H264Qsv)
    } else if same(s, "videotoolbox") || same(s, "vt") {
        Ok(EncoderKind::H264VideoToolbox)
    } else if same(s, "x264") || same(s, "libx264") {
        Ok(EncoderKind::LibX264)
    } else {
        Err(
            EncodeError::Probe(
                join3("unknown encoder '", s, "' (want auto|nvenc|amf|qsv|x264)"),
            ),
        )
    }
}

/// Maps `--encoder auto|nvenc|amf|qsv|x264`, in any letter case, to its encoder.
pub fn parse_encoder_kind(s: &str) -> (r: Result<EncoderKind, EncodeError>)
    ensures
        outcome(r) == kind_named(text::lowercase(s@)),
        text::ascii_only(s@) ==> outcome(r) == kind_named(
            s@.map_values(|c: char| text::ascii_lower(c)),
        ),
{
    let lower = to_lower(s);
    encoder_kind_of_lower(lower.as_str())
}

// ---------------------------------------------------------------------------
// Output path, canvas
// ---------------------------------------------------------------------------

/// The text without dots at its end.
pub open spec fn without_dots(s: Seq<char>) -> Seq<char>
    decreases s.len(),
{
    if s.len() > 0 && s.last() == '.' {
        without_dots(s.drop_last())
    } else {
        s
    }
}

/// The path with the container's extension.
pub open spec fn with_ext(base: Seq<char>, container: Container) -> Seq<char> {
    let suffix = "."@ + container.ext();
    if text::has_end(base, suffix) {
        base
    } else {
        without_dots(base) + suffix
    }
}

/// Builds the output path with the container's extension.
pub fn output_with_extension(base: &str, container: Container) -> (r: String)
    ensures
        r@ == with_ext(base@, container),
{
    let suffix = join2(".", container.extension());
    let v = to_chars(base);
    if ends_with(v.as_slice(), to_chars(suffix.as_str()).as_slice()) {
        return base.to_owned();
    }
    let mut n: usize = v.len();
    assert(v@.take(n as int) == v@);
    while n > 0 && v[n - 1] == '.'
        invariant
            n <= v@.len(),
            without_dots(v@) == without_dots(v@.take(n as int)),
        decreases n,
    {
        assert(v@.take(n as int).drop_last() == v@.take(n - 1));
        n -= 1;
    }
    let stem = piece(v.as_slice(), 0, n);
    assert(stem@ == v@.take(n as int));
    join2(from_chars(stem.as_slice()).as_str(), suffix.as_str())
}

/// Giving a path its extension twice is giving it once, and the result has it.
pub proof fn law_extension_once(base: Seq<char>, container: Container)
    ensures
        text::has_end(with_ext(base, container), "."@ + container.ext()),
        with_ext(with_ext(base, container), container) == with_ext(base, container),
{
    let suffix = "."@ + container.ext();
    let out = with_ext(base, container);
    if !text::has_end(base, suffix) {
        assert(out.subrange(out.len() - suffix.len(), out.len() as int) == suffix);
    }
}

/// Why an encode configuration is refused, if it is.
pub open spec fn config_fault(canvas: CanvasConfig) -> Option<Seq<char>> {
    if canvas.width < 64 || canvas.height < 64 {
        Some("canvas too small (min 64x64)"@)
    } else if canvas.fps == 0 || canvas.fps > 240 {
        Some("fps must be 1..240"@)
    } else {
        None
    }
}

/// Checks an encode configuration before the encoder is started.
pub fn validate_config(cfg: &EncodeConfig) -> (r: Result<(), EncodeError>)
    ensures
        outcome(r) == (match config_fault(cfg.canvas) {
            Some(m) => Err::<(), EncodeErrorView>(EncodeErrorView::Probe(m)),
            None => Ok(()),
        }),
{
    if cfg.canvas.width < 64 || cfg.canvas.height < 64 {
        return Err(probe_error("canvas too small (min 64x64)"));
    }
    if cfg.canvas.fps == 0 || cfg.canvas.fps > 240 {
        return Err(probe_error("fps must be 1..240"));
    }
    Ok(())
}

/// The canvas written as `WxH` or `WxH@fps`, or what is wrong with the text.
pub open spec fn canvas_in(s: Seq<char>) -> Result<(u32, u32, Option<u32>), Seq<char>> {
    let (geom, fps_part) = match text::split_at_first(s, '@') {
        Some((g, f)) => (g, Some(f)),
        None => (s, None),
    };
    match text::split_at_first(geom, 'x') {
        None => Err("bad canvas '"@ + s + "' (want WxH[@fps])"@),
        Some((w, h)) => match (
            text::u32_in(text::trimmed(w)),
            text::u32_in(text::trimmed(h)),
            fps_part,
        ) {
            (None, _, _) => Err("bad canvas width in '"@ + s + "'"@),
            (_, None, _) => Err("bad canvas height in '"@ + s + "'"@),
            (Some(width), Some(height), None) => sized_canvas(width, height, None),
            (Some(width), Some(height), Some(f)) => match text::u32_in(text::trimmed(f)) {
                None => Err("bad canvas fps in '"@ + s + "'"@),
                Some(fps) => sized_canvas(width, height, Some(fps)),
            },
        },
    }
}

/// A canvas that is not too small.
pub open spec fn sized_canvas(width: u32, height: u32, fps: Option<u32>) -> Result<
    (u32, u32, Option<u32>),
    Seq<char>,
> {
    if width < 64 || height < 64 {
        Err("canvas too small (min 64x64)"@)
    } else {
        Ok((width, height, fps))
    }
}

/// Parses "1920x1080" or "1920x1080@30" into width, height and frame rate.
pub fn parse_canvas(s: &str) -> (r: Result<(u32, u32, Option<u32>), EncodeError>)
    ensures
        outcome(r) == (match canvas_in(s@) {
            Ok(c) => Ok::<(u32, u32, Option<u32>), EncodeErrorView>(c),
            Err(m) => Err(EncodeErrorView::Probe(m)),
        }),
{
    let v = to_chars(s);
    let (geom, fps_part) = match split_once(v.as_slice(), '@') {
        Some((g, f)) => (g, Some(f)),
        None => (v, None),
    };
    let (w, h) = match split_once(geom.as_slice(), 'x') {
        Some(p) => p,
        None => {
            return Err(EncodeError::Probe(join3("bad canvas '", s, "' (want WxH[@fps])")));
        },
    };
    let width: u32 = match parse_u32(trim(w.as_slice()).as_slice()) {
        Some(n) => n,
        None => {
            return Err(EncodeError::Probe(join3("bad canvas width in '", s, "'")));
        },
    };
    let height: u32 = match parse_u32(trim(h.as_slice()).as_slice()) {
        Some(n) => n,
        None => {
            return Err(EncodeError::Probe(join3("bad canvas height in '", s, "'")));
        },
    };
    let fps: Option<u32> = match fps_part {
        Some(f) => match parse_u32(trim(f.as_slice()).as_slice()) {
            Some(n) => Some(n),
            None => {
                return Err(EncodeError::Probe(join3("bad canvas fps in '", s, "'")));
            },
        },
        None => None,
    };
    if width < 64 || height < 64 {
        return Err(probe_error("canvas too small (min 64x64)"));
    }
    Ok((width, height, fps))
}

// ---------------------------------------------------------------------------
// The ffmpeg child
// ---------------------------------------------------------------------------

/// The bytes of a BGRA frame.
pub open spec fn frame_bytes(w: u32, h: u32) -> nat {
    (w as nat) * (h as nat) * 4
}

/// The arguments of the ffmpeg child that encodes a raw BGRA feed.
pub open spec fn child_args(
    native_w: u32,
    native_h: u32,
    fps: u32,
    canvas: CanvasConfig,
    encoder: Seq<char>,
    rate_flags: Seq<Seq<char>>,
    output: Seq<char>,
    audio_pipe: Option<Seq<char>>,
) -> Seq<Seq<char>> {
    let video_in = seq![
        "-y"@,
        "-f"@,
        "rawvideo"@,
        "-pix_fmt"@,
        "bgra"@,
        "-s"@,
        text::decimal(native_w as nat) + "x"@ + text::decimal(native_h as nat),
        "-framerate"@,
        text::decimal(fps as nat),
        "-i"@,
        "-"@,
    ];
    let audio_in = match audio_pipe {
        Some(pipe) => seq![
            "-f"@,
            "s16le"@,
            "-ar"@,
            "48000"@,
            "-ac"@,
            "2"@,
            "-i"@,
            pipe,
            "-map"@,
            "0:v"@,
            "-map"@,
            "1:a"@,
        ],
        None => Seq::empty(),
    };
    let audio_out = if audio_pipe is Some {
        seq!["-c:a"@, "aac"@, "-b:a"@, "192k"@, "-shortest"@]
    } else {
        seq!["-an"@]
    };
    let scale = if canvas.width != native_w || canvas.height != native_h {
        seq![
            "-vf"@,
            "scale="@ + text::decimal(canvas.width as nat) + ":"@ + text::decimal(
                canvas.height as nat,
            ),
        ]
    } else {
        Seq::empty()
    };
    video_in + audio_in + seq!["-c:v"@, encoder] + rate_flags + audio_out + seq![
        "-pix_fmt"@,
        "yuv420p"@,
    ] + scale + seq!["-movflags"@, "+faststart"@, output]
}

/// The books of an ffmpeg child that accepts BGRA frames on its standard input:
/// how it is started, what it accepts and what it has been given.
pub struct RawvideoEncoder {
    pub encoder_name: String,
    pub native_w: u32,
    pub native_h: u32,
    pub canvas: CanvasConfig,
    pub args: Vec<String>,
    pub frames_written: u64,
    pub bytes_written: u64,
}

impl RawvideoEncoder {
    /// Every frame handed over had the native size.
    pub open spec fn wf(self) -> bool {
        self.bytes_written == self.frames_written * frame_bytes(self.native_w, self.native_h)
    }

    /// Plans the child: its arguments, and nothing written yet.
    pub fn plan(
        native_w: u32,
        native_h: u32,
        fps: u32,
        canvas: CanvasConfig,
        encoder: EncoderKind,
        auto_resolved: EncoderKind,
        rate: RateControl,
        output: &str,
        audio_pipe: Option<&str>,
    ) -> (r: Result<Self, EncodeError>)
        requires
            fps * 4 <= u32::MAX,
        ensures
            match rate_args(encoder_name_of(encoder, auto_resolved), rate, fps) {
                Err(e) => r matches Err(x) && x@ == e,
                Ok(flags) => r matches Ok(enc) && {
                    &&& enc.wf()
                    &&& enc.frames_written == 0
                    &&& enc.bytes_written == 0
                    &&& enc.encoder_name@ == encoder_name_of(encoder, auto_resolved)
                    &&& enc.native_w == native_w
                    &&& enc.native_h == native_h
                    &&& enc.canvas == canvas
                    &&& text::texts(enc.args@) == child_args(
                        native_w,
                        native_h,
                        fps,
                        canvas,
                        encoder_name_of(encoder, auto_resolved),
                        flags,
                        output@,
                        match audio_pipe {
                            Some(p) => Some(p@),
                            None => None,
                        },
                    )
                },
            },
            r matches Ok(enc) ==> {
                let a = text::texts(enc.args@);
                &&& a.len() >= 14
                &&& a[5] == "-s"@ && a[6] == text::decimal(native_w as nat) + "x"@ + text::decimal(
                    native_h as nat,
                )
                &&& a[7] == "-framerate"@ && a[8] == text::decimal(fps as nat)
                &&& a[a.len() - 1] == output@
                &&& canvas.width != native_w || canvas.height != native_h ==> a[a.len() - 5]
                    == "-vf"@ && a[a.len() - 4] == "scale="@ + text::decimal(canvas.width as nat)
                    + ":"@ + text::decimal(canvas.height as nat)
                &&& canvas.width == native_w && canvas.height == native_h ==> a[a.len() - 5]
                    == "-pix_fmt"@ && a[a.len() - 4] == "yuv420p"@
            },
    {
        let name = ffmpeg_encoder_name(encoder, auto_resolved);
        let flags = match rate_control_args(name, &rate, fps) {
            Ok(f) => f,
            Err(e) => {
                return Err(e);
            },
        };
        let mut size = decimal_text(native_w as u64);
        size.append("x");
        size.append(decimal_text(native_h as u64).as_str());
        let mut args: Vec<String> = Vec::new();
        push_text(&mut args, "-y");
        push2(&mut args, "-f", "rawvideo");
        push2(&mut args, "-pix_fmt", "bgra");
        push2(&mut args, "-s", size.as_str());
        push2(&mut args, "-framerate", decimal_text(fps as u64).as_str());
        push2(&mut args, "-i", "-");
        let ghost video_in = text::texts(args@);
        if let Some(pipe) = audio_pipe {
            push2(&mut args, "-f", "s16le");
            push2(&mut args, "-ar", "48000");
            push2(&mut args, "-ac", "2");
            push2(&mut args, "-i", pipe);
            push2(&mut args, "-map", "0:v");
            push2(&mut args, "-map", "1:a");
            assert(text::texts(args@) =~= video_in + seq![
                "-f"@,
                "s16le"@,
                "-ar"@,
                "48000"@,
                "-ac"@,
                "2"@,
                "-i"@,
                pipe@,
                "-map"@,
                "0:v"@,
                "-map"@,
                "1:a"@,
            ]);
        }
        push2(&mut args, "-c:v", name);
        push_texts(&mut args, flags);
        let ghost with_rate = text::texts(args@);
        if audio_pipe.is_some() {
            push2(&mut args, "-c:a", "aac");
            push2(&mut args, "-b:a", "192k");
            push_text(&mut args, "-shortest");
            assert(text::texts(args@) =~= with_rate + seq![
                "-c:a"@,
                "aac"@,
                "-b:a"@,
                "192k"@,
                "-shortest"@,
            ]);
        } else {
            push_text(&mut args, "-an");
            assert(text::texts(args@) =~= with_rate + seq!["-an"@]);
        }
        push2(&mut args, "-pix_fmt", "yuv420p");
        if canvas.width != native_w || canvas.height != native_h {
            let mut scale = join2("scale=", decimal_text(canvas.width as u64).as_str());
            scale.append(":");
            scale.append(decimal_text(canvas.height as u64).as_str());
            push2(&mut args, "-vf", scale.as_str());
        }
        push2(&mut args, "-movflags", "+faststart");
        push_text(&mut args, output);
        assert(text::texts(args@) =~= child_args(
            native_w,
            native_h,
            fps,
            canvas,
            name@,
            rate_args(name@, rate, fps)->Ok_0,
            output@,
            match audio_pipe {
                Some(p) => Some(p@),
                None => None,
            },
        ));
        assert(0 * frame_bytes(native_w, native_h) == 0) by (nonlinear_arith);
        Ok(
            Self {
                encoder_name: name.to_owned(),
                native_w,
                native_h,
                canvas,
                args,
                frames_written: 0,
                bytes_written: 0,
            },
        )
    }

    /// Why a frame of this many bytes is refused.
    pub open spec fn size_fault(self, len: usize) -> EncodeErrorView {
        EncodeErrorView::Probe(
            "frame size "@ + text::decimal(len as nat) + " != "@ + text::decimal(
                frame_bytes(self.native_w, self.native_h),
            ) + " ("@ + text::decimal(self.native_w as nat) + "x"@ + text::decimal(
                self.native_h as nat,
            ) + ") — skipping"@,
        )
    }

    /// Accepts a frame of just the native size, by its length in bytes.
    pub fn check_frame(&self, len: usize) -> (r: Result<(), EncodeError>)
        requires
            frame_bytes(self.native_w, self.native_h) <= usize::MAX,
        ensures
            r is Ok <==> len == frame_bytes(self.native_w, self.native_h),
            r matches Err(e) ==> e@ == self.size_fault(len),
    {
        assert(self.native_w * self.native_h <= self.native_w * self.native_h * 4)
            by (nonlinear_arith);
        let expect: usize = (self.native_w as usize) * (self.native_h as usize) * 4;
        if len != expect {
            let mut m = join3("frame size ", decimal_text(len as u64).as_str(), " != ");
            m.append(decimal_text(expect as u64).as_str());
            m.append(" (");
            m.append(decimal_text(self.native_w as u64).as_str());
            m.append("x");
            m.append(decimal_text(self.native_h as u64).as_str());
            m.append(") — skipping");
            return Err(EncodeError::Probe(m));
        }
        Ok(())
    }

    /// Books a frame that the child took, or reports that the write failed.
    pub fn write_frame(&mut self, len: usize, written: Result<(), &str>) -> (r: Result<
        (),
        EncodeError,
    >)
        requires
            old(self).wf(),
            frame_bytes(old(self).native_w, old(self).native_h) <= usize::MAX,
            old(self).bytes_written + len <= u64::MAX,
            old(self).frames_written < u64::MAX,
        ensures
            final(self).wf(),
            final(self).native_w == old(self).native_w,
            final(self).native_h == old(self).native_h,
            final(self).canvas == old(self).canvas,
            final(self).args == old(self).args,
            final(self).encoder_name == old(self).encoder_name,
            r is Ok <==> len == frame_bytes(old(self).native_w, old(self).native_h) && written is Ok,
            r is Ok ==> final(self).frames_written == old(self).frames_written + 1 && final(self).bytes_written
                == old(self).bytes_written + len,
            r is Err ==> *final(self) == *old(self),
            len != frame_bytes(old(self).native_w, old(self).native_h) ==> (r matches Err(e)
                && e@ == old(self).size_fault(len)),
            len == frame_bytes(old(self).native_w, old(self).native_h) ==> (written matches Err(m)
                ==> r matches Err(e) && e@ == EncodeErrorView::Probe(
                "ffmpeg stdin write failed: "@ + m@,
            )),
    {
        if let Err(e) = self.check_frame(len) {
            return Err(e);
        }
        if let Err(m) = written {
            return Err(EncodeError::Probe(join2("ffmpeg stdin write failed: ", m)));
        }
        assert((self.frames_written + 1) * frame_bytes(self.native_w, self.native_h)
            == self.frames_written * frame_bytes(self.native_w, self.native_h) + frame_bytes(
            self.native_w,
            self.native_h,
        )) by (nonlinear_arith);
        self.frames_written = self.frames_written + 1;
        self.bytes_written = self.bytes_written + len as u64;
        Ok(())
    }

    pub fn frames_written(&self) -> (n: u64)
        ensures
            n == self.frames_written,
    {
        self.frames_written
    }
}

/// How an ffmpeg run ended: fine, or with its status and the last fifteen lines
/// of what it printed.
pub fn finish(success: bool, status: &str, stderr: &str) -> (r: Result<(), EncodeError>)
    ensures
        outcome(r) == (if success {
            Ok::<(), EncodeErrorView>(())
        } else {
            Err(
                EncodeErrorView::Probe(
                    "ffmpeg exited "@ + status@ + ":\n"@ + text::joined(
                        text::last_rows(text::lines_of(stderr@), 15),
                        seq!['\n'],
                    ),
                ),
            )
        }),
{
    if success {
        return Ok(());
    }
    let rows = lines(to_chars(stderr).as_slice());
    let mut m = join3("ffmpeg exited ", status, ":\n");
    m.append(join_tail(&rows, 15).as_str());
    Err(EncodeError::Probe(m))
}

// ---------------------------------------------------------------------------
// What holds of all of them
// ---------------------------------------------------------------------------

/// An encoder chosen from what ffmpeg provides is provided. `Auto` falls back
/// to x264 without asking, so it is provided wherever any H.264 encoder is.
pub proof fn law_choices_are_provided(info: FfmpegInfo)
    ensures
        h264_choice(info) matches Some(k) ==> provides(info, k),
        hevc_choice(info) matches Some(k) ==> provides(info, k),
        h264_choice(info) is Some ==> auto_encoder(info) == h264_choice(info)->0,
        h264_choice(info) is Some <==> provides(info, auto_encoder(info)),
{
}

/// Rate-control arguments end with the keyframe interval of four seconds.
pub proof fn law_rate_args_end_with_gop(name: Seq<char>, rate: RateControl, fps: u32)
    ensures
        rate_args(name, rate, fps) matches Ok(a) ==> {
            &&& a.len() >= 2
            &&& a[a.len() - 2] == "-g"@
            &&& a[a.len() - 1] == text::decimal(gop_of(fps))
        },
{
}

/// Which modes an encoder accepts does not depend on the frame rate. CRF is
/// x264's alone and CQP is everyone else's; a constant rate needs a bitrate, a
/// variable one also a ceiling that is not below it, and a quantiser ends at 51.
pub proof fn law_accepted_modes(name: Seq<char>, rate: RateControl, fps: u32)
    ensures
        rate_args(name, rate, fps) is Ok <==> family_of(name) != Family::Unknown && (match rate {
            RateControl::Cbr { bitrate_kbps } => bitrate_kbps > 0,
            RateControl::Vbr { target_kbps, max_kbps } => 0 < target_kbps <= max_kbps,
            RateControl::Cqp { qp } => family_of(name) != Family::X264 && qp <= 51,
            RateControl::Crf { crf } => family_of(name) == Family::X264 && crf <= 51,
        }),
{
}

proof fn lemma_digits_have_no(n: nat, c: char)
    requires
        !text::is_digit(c),
    ensures
        text::first_index(text::decimal(n), c) == text::decimal(n).len(),
        forall|i: int| 0 <= i < text::decimal(n).len() ==> text::is_digit(text::decimal(n)[i]),
        text::trimmed(text::decimal(n)) == text::decimal(n),
        text::nat_in(text::decimal(n)) == Some(n),
{
    text::lemma_decimal_digits(n);
    text::lemma_absent(text::decimal(n), c);
    text::law_decimal_reads_back(n);
    let s = text::decimal(n);
    assert(text::is_digit(s[0]));
    assert(text::is_digit(s.last()));
    assert(text::white_head(s) == 0);
    assert(s.skip(0) == s);
}

proof fn lemma_geometry(w: u32, h: u32)
    ensures
        ({
            let dw = text::decimal(w as nat);
            let dh = text::decimal(h as nat);
            let geom = dw + seq!['x'] + dh;
            &&& text::split_at_first(geom, 'x') == Some((dw, dh))
            &&& text::first_index(geom, '@') == geom.len()
            &&& text::u32_in(text::trimmed(dw)) == Some(w)
            &&& text::u32_in(text::trimmed(dh)) == Some(h)
        }),
{
    let dw = text::decimal(w as nat);
    let dh = text::decimal(h as nat);
    let geom = dw + seq!['x'] + dh;
    lemma_digits_have_no(w as nat, 'x');
    lemma_digits_have_no(h as nat, 'x');
    text::lemma_first_behind(dw, dh, 'x');
    assert(geom.take(dw.len() as int) == dw);
    assert(geom.skip(dw.len() as int + 1) == dh);
    assert forall|i: int| 0 <= i < geom.len() implies geom[i] != '@' by {
        if i < dw.len() {
            assert(text::is_digit(dw[i]));
        } else if i > dw.len() {
            assert(text::is_digit(dh[i - dw.len() - 1]));
        }
    }
    text::lemma_absent(geom, '@');
}

/// A canvas written out as `WxH` is read back as it was.
pub proof fn law_canvas_reads_back(w: u32, h: u32)
    requires
        w >= 64,
        h >= 64,
    ensures
        canvas_in(text::decimal(w as nat) + seq!['x'] + text::decimal(h as nat)) == Ok::<
            (u32, u32, Option<u32>),
            Seq<char>,
        >((w, h, None)),
{
    lemma_geometry(w, h);
}

/// A canvas written out as `WxH@fps` is read back as it was.
pub proof fn law_canvas_with_rate_reads_back(w: u32, h: u32, fps: u32)
    requires
        w >= 64,
        h >= 64,
    ensures
        canvas_in(
            text::decimal(w as nat) + seq!['x'] + text::decimal(h as nat) + seq!['@']
                + text::decimal(fps as nat),
        ) == Ok::<(u32, u32, Option<u32>), Seq<char>>((w, h, Some(fps))),
{
    let geom = text::decimal(w as nat) + seq!['x'] + text::decimal(h as nat);
    let df = text::decimal(fps as nat);
    lemma_geometry(w, h);
    lemma_digits_have_no(fps as nat, 'x');
    let full = geom + seq!['@'] + df;
    text::lemma_first_behind(geom, df, '@');
    assert(full.take(geom.len() as int) == geom);
    assert(full.skip(geom.len() as int + 1) == df);
    assert(text::split_at_first(full, '@') == Some((geom, df)));
}

// ---------------------------------------------------------------------------
// What holds on every input
// ---------------------------------------------------------------------------

/// How the options begin that are compared below, and that no value begins so.
proof fn lemma_words()
    ensures
        "-y"@.len() == 2 && "-y"@[0] == '-' && "-y"@[1] == 'y',
        "-f"@.len() == 2 && "-f"@[0] == '-' && "-f"@[1] == 'f',
        "-s"@.len() == 2 && "-s"@[0] == '-' && "-s"@[1] == 's',
        "-i"@.len() == 2 && "-i"@[0] == '-' && "-i"@[1] == 'i',
        "-q"@.len() == 2 && "-q"@[0] == '-' && "-q"@[1] == 'q',
        "-g"@.len() == 2 && "-g"@[0] == '-' && "-g"@[1] == 'g',
        "-"@.len() == 1 && "-"@[0] == '-',
        "-rc"@.len() == 3 && "-rc"@[0] == '-' && "-rc"@[1] == 'r' && "-rc"@[2] == 'c',
        "-qp"@.len() == 3 && "-qp"@[0] == '-' && "-qp"@[1] == 'q' && "-qp"@[2] == 'p',
        "-vf"@.len() == 3 && "-vf"@[0] == '-' && "-vf"@[1] == 'v' && "-vf"@[2] == 'f',
        "-an"@.len() == 3 && "-an"@[0] == '-' && "-an"@[1] == 'a' && "-an"@[2] == 'n',
        "-ar"@.len() == 3 && "-ar"@[0] == '-' && "-ar"@[1] == 'a' && "-ar"@[2] == 'r',
        "-ac"@.len() == 3 && "-ac"@[0] == '-' && "-ac"@[1] == 'a' && "-ac"@[2] == 'c',
        "-b:v"@.len() == 4 && "-b:v"@[0] == '-' && "-b:v"@[1] == 'b' && "-b:v"@[2] == ':' && "-b:v"@[3] == 'v',
        "-crf"@.len() == 4 && "-crf"@[0] == '-' && "-crf"@[1] == 'c' && "-crf"@[2] == 'r' && "-crf"@[3] == 'f',
        "-c:v"@.len() == 4 && "-c:v"@[0] == '-' && "-c:v"@[1] == 'c' && "-c:v"@[2] == ':' && "-c:v"@[3] == 'v',
        "-c:a"@.len() == 4 && "-c:a"@[0] == '-' && "-c:a"@[1] == 'c' && "-c:a"@[2] == ':' && "-c:a"@[3] == 'a',
        "-b:a"@.len() == 4 && "-b:a"@[0] == '-' && "-b:a"@[1] == 'b' && "-b:a"@[2] == ':' && "-b:a"@[3] == 'a',
        "-map"@.len() == 4 && "-map"@[0] == '-' && "-map"@[1] == 'm' && "-map"@[2] == 'a' && "-map"@[3] == 'p',
        "-preset"@.len() == 7 && "-preset"@[0] == '-' && "-preset"@[1] == 'p' && "-preset"@[2] == 'r' && "-preset"@[3] == 'e',
        "-bufsize"@.len() == 8 && "-bufsize"@[0] == '-' && "-bufsize"@[1] == 'b' && "-bufsize"@[2] == 'u' && "-bufsize"@[3] == 'f',
        "-maxrate"@.len() == 8 && "-maxrate"@[0] == '-' && "-maxrate"@[1] == 'm' && "-maxrate"@[2] == 'a' && "-maxrate"@[3] == 'x',
        "-quality"@.len() == 8 && "-quality"@[0] == '-' && "-quality"@[1] == 'q' && "-quality"@[2] == 'u' && "-quality"@[3] == 'a',
        "-pix_fmt"@.len() == 8 && "-pix_fmt"@[0] == '-' && "-pix_fmt"@[1] == 'p' && "-pix_fmt"@[2] == 'i' && "-pix_fmt"@[3] == 'x',
        "-framerate"@.len() == 10 && "-framerate"@[0] == '-' && "-framerate"@[1] == 'f' && "-framerate"@[2] == 'r' && "-framerate"@[3] == 'a',
        "-movflags"@.len() == 9 && "-movflags"@[0] == '-' && "-movflags"@[1] == 'm' && "-movflags"@[2] == 'o' && "-movflags"@[3] == 'v',
        "-shortest"@.len() == 9 && "-shortest"@[0] == '-' && "-shortest"@[1] == 's' && "-shortest"@[2] == 'h' && "-shortest"@[3] == 'o',
        "cbr"@.len() == 3 && "cbr"@[0] != '-',
        "vbr"@.len() == 3 && "vbr"@[0] != '-',
        "cqp"@.len() == 3 && "cqp"@[0] != '-',
        "constqp"@.len() == 7 && "constqp"@[0] != '-',
        "balanced"@.len() == 8 && "balanced"@[0] != '-',
        "veryfast"@.len() == 8 && "veryfast"@[0] != '-',
        "rawvideo"@.len() == 8 && "rawvideo"@[0] != '-',
        "bgra"@.len() == 4 && "bgra"@[0] != '-',
        "s16le"@.len() == 5 && "s16le"@[0] != '-',
        "48000"@.len() == 5 && "48000"@[0] != '-',
        "2"@.len() == 1 && "2"@[0] != '-',
        "0:v"@.len() == 3 && "0:v"@[0] != '-',
        "1:a"@.len() == 3 && "1:a"@[0] != '-',
        "aac"@.len() == 3 && "aac"@[0] != '-',
        "192k"@.len() == 4 && "192k"@[0] != '-',
        "yuv420p"@.len() == 7 && "yuv420p"@[0] != '-',
        "+faststart"@.len() == 10 && "+faststart"@[0] != '-',
        "k"@.len() == 1 && "k"@[0] != '-',
{
    reveal_strlit("-y");
    reveal_strlit("-f");
    reveal_strlit("-s");
    reveal_strlit("-i");
    reveal_strlit("-q");
    reveal_strlit("-g");
    reveal_strlit("-");
    reveal_strlit("-rc");
    reveal_strlit("-qp");
    reveal_strlit("-vf");
    reveal_strlit("-an");
    reveal_strlit("-ar");
    reveal_strlit("-ac");
    reveal_strlit("-b:v");
    reveal_strlit("-crf");
    reveal_strlit("-c:v");
    reveal_strlit("-c:a");
    reveal_strlit("-b:a");
    reveal_strlit("-map");
    reveal_strlit("-preset");
    reveal_strlit("-bufsize");
    reveal_strlit("-maxrate");
    reveal_strlit("-quality");
    reveal_strlit("-pix_fmt");
    reveal_strlit("-framerate");
    reveal_strlit("-movflags");
    reveal_strlit("-shortest");
    reveal_strlit("cbr");
    reveal_strlit("vbr");
    reveal_strlit("cqp");
    reveal_strlit("constqp");
    reveal_strlit("balanced");
    reveal_strlit("veryfast");
    reveal_strlit("rawvideo");
    reveal_strlit("bgra");
    reveal_strlit("s16le");
    reveal_strlit("48000");
    reveal_strlit("2");
    reveal_strlit("0:v");
    reveal_strlit("1:a");
    reveal_strlit("aac");
    reveal_strlit("192k");
    reveal_strlit("yuv420p");
    reveal_strlit("+faststart");
    reveal_strlit("k");
}

/// A number is no option.
proof fn lemma_number_is_no_option(n: nat)
    ensures
        text::decimal(n).len() > 0,
        text::decimal(n)[0] != '-',
        (text::decimal(n) + "k"@)[0] != '-',
{
    text::lemma_decimal_digits(n);
    assert(text::is_digit(text::decimal(n)[0]));
}

/// The names of the encoders and whose flags they take.
pub proof fn law_families(name: Seq<char>)
    ensures
        family_of("libx264"@) == Family::X264,
        family_of("h264_nvenc"@) == Family::Nvenc,
        family_of("hevc_nvenc"@) == Family::Nvenc,
        family_of("h264_amf"@) == Family::Amf,
        family_of("h264_qsv"@) == Family::Qsv,
        family_of("hevc_qsv"@) == Family::Qsv,
        family_of("av1_qsv"@) == Family::Qsv,
        name != "libx264"@ && name != "h264_nvenc"@ && name != "hevc_nvenc"@ && name != "h264_amf"@
            && name != "h264_qsv"@ && name != "hevc_qsv"@ && name != "av1_qsv"@ ==> family_of(name)
            == Family::Unknown,
{
    reveal_strlit("libx264");
    reveal_strlit("h264_nvenc");
    reveal_strlit("hevc_nvenc");
    reveal_strlit("h264_amf");
    reveal_strlit("h264_qsv");
    reveal_strlit("hevc_qsv");
    reveal_strlit("av1_qsv");
    assert("h264_nvenc"@[0] != "hevc_nvenc"@[0] || "h264_nvenc"@[1] != "hevc_nvenc"@[1]);
    assert("h264_qsv"@[5] != "h264_amf"@[5]);
    assert("h264_qsv"@[1] != "hevc_qsv"@[1]);
    assert("hevc_qsv"@[1] != "h264_amf"@[1]);
    assert("libx264"@[0] != "av1_qsv"@[0]);
    assert("hevc_qsv"@.len() == 8 && "libx264"@.len() == 7 && "h264_nvenc"@.len() == 10
        && "hevc_nvenc"@.len() == 10 && "av1_qsv"@.len() == 7);
    assert("hevc_qsv"@[1] == 'e' && "h264_amf"@[1] == '2' && "h264_qsv"@[1] == '2');
}

/// Does a list of arguments name an option, and is the value right behind it
/// wherever it does?
pub open spec fn sets(args: Seq<Seq<char>>, option: Seq<char>, value: Seq<char>) -> bool {
    &&& exists|i: int| 0 <= i < args.len() && #[trigger] args[i] == option
    &&& forall|i: int|
        0 <= i < args.len() && #[trigger] args[i] == option ==> i + 1 < args.len() && args[i + 1]
            == value
}

/// Does a list of arguments say nothing of an option?
pub open spec fn omits(args: Seq<Seq<char>>, option: Seq<char>) -> bool {
    forall|i: int| 0 <= i < args.len() ==> #[trigger] args[i] != option
}

/// A constant rate asks for the bitrate, and for nothing of the other modes.
pub proof fn law_cbr_arguments(name: Seq<char>, bitrate: u32, fps: u32)
    requires
        rate_args(name, RateControl::Cbr { bitrate_kbps: bitrate }, fps) is Ok,
    ensures
        ({
            let a = rate_args(name, RateControl::Cbr { bitrate_kbps: bitrate }, fps)->Ok_0;
            &&& sets(a, "-b:v"@, text::decimal(bitrate as nat) + "k"@)
            &&& omits(a, "-maxrate"@) && omits(a, "-bufsize"@)
            &&& omits(a, "-crf"@) && omits(a, "-qp"@) && omits(a, "-q"@)
            &&& family_of(name) == Family::Nvenc ==> sets(a, "-rc"@, "cbr"@)
        }),
{
    let rate = RateControl::Cbr { bitrate_kbps: bitrate };
    let a = rate_args(name, rate, fps)->Ok_0;
    lemma_words();
    lemma_number_is_no_option(bitrate as nat);
    lemma_number_is_no_option(gop_of(fps));
    assert(a[0] == "-b:v"@);
    assert(family_of(name) == Family::Nvenc ==> a[2] == "-rc"@);
}

/// A variable rate asks for the target, caps it at the ceiling and buffers twice the
/// ceiling, so that the target never lies above the ceiling.
pub proof fn law_vbr_arguments(name: Seq<char>, target: u32, ceiling: u32, fps: u32)
    requires
        rate_args(name, RateControl::Vbr { target_kbps: target, max_kbps: ceiling }, fps) is Ok,
    ensures
        ({
            let a = rate_args(
                name,
                RateControl::Vbr { target_kbps: target, max_kbps: ceiling },
                fps,
            )->Ok_0;
            let twice: nat = if 2 * ceiling <= 0xffff_ffff {
                (2 * ceiling) as nat
            } else {
                0xffff_ffff
            };
            &&& sets(a, "-b:v"@, text::decimal(target as nat) + "k"@)
            &&& sets(a, "-maxrate"@, text::decimal(ceiling as nat) + "k"@)
            &&& sets(a, "-bufsize"@, text::decimal(twice) + "k"@)
            &&& omits(a, "-crf"@) && omits(a, "-qp"@) && omits(a, "-q"@)
            &&& family_of(name) == Family::Nvenc || family_of(name) == Family::Amf ==> sets(
                a,
                "-rc"@,
                "vbr"@,
            )
        }),
        0 < target <= ceiling,
{
    let rate = RateControl::Vbr { target_kbps: target, max_kbps: ceiling };
    let a = rate_args(name, rate, fps)->Ok_0;
    lemma_words();
    lemma_number_is_no_option(target as nat);
    lemma_number_is_no_option(ceiling as nat);
    lemma_number_is_no_option(doubled(ceiling) as nat);
    lemma_number_is_no_option(gop_of(fps));
    assert(a[0] == "-b:v"@ && a[2] == "-maxrate"@ && a[4] == "-bufsize"@);
    assert(family_of(name) == Family::Nvenc || family_of(name) == Family::Amf ==> a[6] == "-rc"@);
}

/// A constant quantiser is asked for by the flag of the encoder's family, and no
/// bitrate with it.
pub proof fn law_cqp_arguments(name: Seq<char>, qp: u8, fps: u32)
    requires
        rate_args(name, RateControl::Cqp { qp }, fps) is Ok,
    ensures
        ({
            let a = rate_args(name, RateControl::Cqp { qp }, fps)->Ok_0;
            &&& family_of(name) == Family::Nvenc ==> sets(a, "-qp"@, text::decimal(qp as nat))
                && sets(a, "-rc"@, "constqp"@)
            &&& family_of(name) == Family::Amf ==> sets(a, "-qp"@, text::decimal(qp as nat))
                && sets(a, "-rc"@, "cqp"@)
            &&& family_of(name) == Family::Qsv ==> sets(a, "-q"@, text::decimal(qp as nat))
            &&& family_of(name) != Family::X264 && family_of(name) != Family::Unknown
            &&& omits(a, "-b:v"@) && omits(a, "-maxrate"@) && omits(a, "-crf"@)
        }),
        qp <= 51,
{
    let a = rate_args(name, RateControl::Cqp { qp }, fps)->Ok_0;
    lemma_words();
    lemma_number_is_no_option(qp as nat);
    lemma_number_is_no_option(gop_of(fps));
    assert(family_of(name) == Family::Qsv ==> a[0] == "-q"@);
    assert(family_of(name) != Family::Qsv ==> a[0] == "-rc"@ && a[2] == "-qp"@);
}

/// Constant quality is x264's, asked for by its own flag and no bitrate with it.
pub proof fn law_crf_arguments(name: Seq<char>, crf: u8, fps: u32)
    requires
        rate_args(name, RateControl::Crf { crf }, fps) is Ok,
    ensures
        ({
            let a = rate_args(name, RateControl::Crf { crf }, fps)->Ok_0;
            &&& sets(a, "-crf"@, text::decimal(crf as nat))
            &&& omits(a, "-b:v"@) && omits(a, "-maxrate"@) && omits(a, "-qp"@) && omits(a, "-q"@)
        }),
        name == "libx264"@,
        crf <= 51,
{
    let a = rate_args(name, RateControl::Crf { crf }, fps)->Ok_0;
    lemma_words();
    lemma_number_is_no_option(crf as nat);
    lemma_number_is_no_option(gop_of(fps));
    assert(a[0] == "-crf"@);
}

/// What every mode has: a keyframe each four seconds, the fast preset on x264 and QSV,
/// the balanced quality on AMF, and nothing that belongs to the rest of the command
/// line.
pub proof fn law_tuning_arguments(name: Seq<char>, rate: RateControl, fps: u32)
    requires
        rate_args(name, rate, fps) is Ok,
    ensures
        ({
            let a = rate_args(name, rate, fps)->Ok_0;
            &&& fps > 0 ==> sets(a, "-g"@, text::decimal((4 * fps) as nat))
            &&& fps == 0 ==> sets(a, "-g"@, text::decimal(4))
            &&& family_of(name) == Family::X264 || family_of(name) == Family::Qsv ==> sets(
                a,
                "-preset"@,
                "veryfast"@,
            ) && omits(a, "-quality"@) && omits(a, "-rc"@)
            &&& family_of(name) == Family::Amf ==> sets(a, "-quality"@, "balanced"@) && omits(
                a,
                "-preset"@,
            )
            &&& family_of(name) == Family::Nvenc ==> omits(a, "-preset"@) && omits(a, "-quality"@)
        }),
{
    let a = rate_args(name, rate, fps)->Ok_0;
    lemma_words();
    lemma_mode_numbers(rate);
    lemma_number_is_no_option(gop_of(fps));
    let n = a.len() as int;
    assert(a[n - 2] == "-g"@);
    assert(family_of(name) == Family::X264 || family_of(name) == Family::Qsv ==> a[n - 4]
        == "-preset"@);
    assert(family_of(name) == Family::Amf ==> a[n - 4] == "-quality"@);
}

proof fn lemma_mode_numbers(rate: RateControl)
    ensures
        match rate {
            RateControl::Cbr { bitrate_kbps } => kbps(bitrate_kbps)[0] != '-',
            RateControl::Vbr { target_kbps, max_kbps } => kbps(target_kbps)[0] != '-' && kbps(
                max_kbps,
            )[0] != '-' && kbps(doubled(max_kbps))[0] != '-',
            RateControl::Cqp { qp } => text::decimal(qp as nat)[0] != '-',
            RateControl::Crf { crf } => text::decimal(crf as nat)[0] != '-',
        },
{
    match rate {
        RateControl::Cbr { bitrate_kbps } => {
            lemma_number_is_no_option(bitrate_kbps as nat);
        },
        RateControl::Vbr { target_kbps, max_kbps } => {
            lemma_number_is_no_option(target_kbps as nat);
            lemma_number_is_no_option(max_kbps as nat);
            lemma_number_is_no_option(doubled(max_kbps) as nat);
        },
        RateControl::Cqp { qp } => {
            lemma_number_is_no_option(qp as nat);
        },
        RateControl::Crf { crf } => {
            lemma_number_is_no_option(crf as nat);
        },
    }
}

/// Does a list of arguments hold an option with this value right behind it?
pub open spec fn pairs(args: Seq<Seq<char>>, option: Seq<char>, value: Seq<char>) -> bool {
    exists|i: int| 0 <= i < args.len() - 1 && #[trigger] args[i] == option && args[i + 1] == value
}

proof fn lemma_pair_at(args: Seq<Seq<char>>, i: int)
    requires
        0 <= i < args.len() - 1,
    ensures
        pairs(args, args[i], args[i + 1]),
{
    assert(args[i] == args[i]);
}

/// The feed comes first: raw BGRA frames of the native size at the frame rate, on the
/// standard input. The output comes last, as a file that can be played while it is
/// loaded.
pub proof fn law_child_reads_the_feed(
    native_w: u32,
    native_h: u32,
    fps: u32,
    canvas: CanvasConfig,
    encoder: Seq<char>,
    flags: Seq<Seq<char>>,
    output: Seq<char>,
    pipe: Option<Seq<char>>,
)
    ensures
        ({
            let a = child_args(native_w, native_h, fps, canvas, encoder, flags, output, pipe);
            &&& a.len() >= 11
            &&& a[1] == "-f"@ && a[2] == "rawvideo"@
            &&& a[3] == "-pix_fmt"@ && a[4] == "bgra"@
            &&& a[5] == "-s"@ && a[6] == text::decimal(native_w as nat) + "x"@ + text::decimal(
                native_h as nat,
            )
            &&& a[7] == "-framerate"@ && a[8] == text::decimal(fps as nat)
            &&& a[9] == "-i"@ && a[10] == "-"@
            &&& a[0] == "-y"@
            &&& a[a.len() - 3] == "-movflags"@ && a[a.len() - 2] == "+faststart"@
            &&& a[a.len() - 1] == output
            &&& pairs(a, "-c:v"@, encoder)
            &&& pairs(a, "-pix_fmt"@, "yuv420p"@)
        }),
{
    let a = child_args(native_w, native_h, fps, canvas, encoder, flags, output, pipe);
    let k = if pipe is Some {
        23int
    } else {
        11
    };
    assert(a[k] == "-c:v"@ && a[k + 1] == encoder);
    lemma_pair_at(a, k);
    let m = k + 2 + flags.len() + (if pipe is Some {
        5int
    } else {
        1
    });
    assert(a[m] == "-pix_fmt"@ && a[m + 1] == "yuv420p"@);
    lemma_pair_at(a, m);
}

/// The flags of the rate control stand in one piece right behind the encoder.
pub proof fn law_child_takes_the_rate_flags(
    native_w: u32,
    native_h: u32,
    fps: u32,
    canvas: CanvasConfig,
    encoder: Seq<char>,
    flags: Seq<Seq<char>>,
    output: Seq<char>,
    pipe: Option<Seq<char>>,
)
    ensures
        ({
            let a = child_args(native_w, native_h, fps, canvas, encoder, flags, output, pipe);
            let k = if pipe is Some {
                25int
            } else {
                13
            };
            a.subrange(k, k + flags.len()) == flags
        }),
{
    let a = child_args(native_w, native_h, fps, canvas, encoder, flags, output, pipe);
    let k = if pipe is Some {
        25int
    } else {
        13
    };
    assert(a.subrange(k, k + flags.len()) =~= flags);
}

/// With sound, 48 kHz stereo of 16 bits comes through the pipe and becomes AAC, and
/// video and sound are both kept; without it the file has no sound.
pub proof fn law_child_sound(
    native_w: u32,
    native_h: u32,
    fps: u32,
    canvas: CanvasConfig,
    encoder: Seq<char>,
    flags: Seq<Seq<char>>,
    output: Seq<char>,
    p: Seq<char>,
)
    ensures
        ({
            let a = child_args(native_w, native_h, fps, canvas, encoder, flags, output, Some(p));
            let k = 25 + flags.len() as int;
            &&& a[11] == "-f"@ && a[12] == "s16le"@
            &&& a[13] == "-ar"@ && a[14] == "48000"@
            &&& a[15] == "-ac"@ && a[16] == "2"@
            &&& a[17] == "-i"@ && a[18] == p
            &&& a[19] == "-map"@ && a[20] == "0:v"@ && a[21] == "-map"@ && a[22] == "1:a"@
            &&& a[k] == "-c:a"@ && a[k + 1] == "aac"@
            &&& a[k + 2] == "-b:a"@ && a[k + 3] == "192k"@
            &&& a[k + 4] == "-shortest"@
        }),
        ({
            let a = child_args(native_w, native_h, fps, canvas, encoder, flags, output, None);
            a[13 + flags.len() as int] == "-an"@
        }),
{
}

/// Where the canvas is not the native size, the picture is scaled to it, width first;
/// else it is not scaled. An option in the place of the output, the pipe or the rate
/// flags aside, nothing else names the filter.
pub proof fn law_child_scales_to_the_canvas(
    native_w: u32,
    native_h: u32,
    fps: u32,
    canvas: CanvasConfig,
    encoder: Seq<char>,
    rate: RateControl,
    output: Seq<char>,
    pipe: Option<Seq<char>>,
)
    requires
        rate_args(encoder, rate, fps) is Ok,
        output != "-vf"@,
        pipe != Some("-vf"@),
    ensures
        ({
            let flags = rate_args(encoder, rate, fps)->Ok_0;
            let a = child_args(native_w, native_h, fps, canvas, encoder, flags, output, pipe);
            &&& canvas.width != native_w || canvas.height != native_h ==> sets(
                a,
                "-vf"@,
                "scale="@ + text::decimal(canvas.width as nat) + ":"@ + text::decimal(
                    canvas.height as nat,
                ),
            )
            &&& canvas.width == native_w && canvas.height == native_h ==> omits(a, "-vf"@)
        }),
{
    let flags = rate_args(encoder, rate, fps)->Ok_0;
    let a = child_args(native_w, native_h, fps, canvas, encoder, flags, output, pipe);
    let vf = "-vf"@;
    lemma_words();
    lemma_scale_word(canvas);
    lemma_mode_numbers(rate);
    lemma_number_is_no_option(gop_of(fps));
    lemma_number_is_no_option(fps as nat);
    lemma_number_is_no_option(native_w as nat);
    reveal_strlit("libx264");
    reveal_strlit("h264_nvenc");
    reveal_strlit("hevc_nvenc");
    reveal_strlit("h264_amf");
    reveal_strlit("h264_qsv");
    reveal_strlit("hevc_qsv");
    reveal_strlit("av1_qsv");
    assert(encoder[0] != '-');
    assert forall|i: int| 0 <= i < flags.len() implies #[trigger] flags[i] != vf by {}
    let size = text::decimal(native_w as nat) + "x"@ + text::decimal(native_h as nat);
    assert(size[0] == text::decimal(native_w as nat)[0]);
    let audio = if pipe is Some {
        12int
    } else {
        0
    };
    let behind = 13 + audio + flags.len();
    assert forall|i: int| 0 <= i < 11 implies #[trigger] a[i] != vf by {}
    assert forall|i: int| 11 <= i < 11 + audio implies #[trigger] a[i] != vf by {}
    assert forall|i: int| 13 + audio <= i < behind implies #[trigger] a[i] != vf by {
        assert(a[i] == flags[i - 13 - audio]);
    }
    assert(a[11 + audio] != vf && a[12 + audio] == encoder);
    let n = a.len() as int;
    if canvas.width != native_w || canvas.height != native_h {
        assert(a[n - 5] == vf);
        assert forall|i: int| behind <= i < n && i != n - 5 implies #[trigger] a[i] != vf by {}
    } else {
        assert forall|i: int| behind <= i < n implies #[trigger] a[i] != vf by {}
    }
}

proof fn lemma_scale_word(canvas: CanvasConfig)
    ensures
        ("scale="@ + text::decimal(canvas.width as nat) + ":"@ + text::decimal(
            canvas.height as nat,
        ))[0] == 's',
{
    reveal_strlit("scale=");
}

/// The scale reads as the canvas: between the equals sign and the colon its width, and
/// behind the colon its height.
pub proof fn law_scale_reads_as_the_canvas(canvas: CanvasConfig)
    ensures
        ({
            let scale = "scale="@ + text::decimal(canvas.width as nat) + ":"@ + text::decimal(
                canvas.height as nat,
            );
            text::split_at_first(scale.skip(6), ':') matches Some((w, h)) && text::u32_in(w) == Some(
                canvas.width,
            ) && text::u32_in(h) == Some(canvas.height)
        }),
{
    reveal_strlit("scale=");
    reveal_strlit(":");
    let dw = text::decimal(canvas.width as nat);
    let dh = text::decimal(canvas.height as nat);
    let scale = "scale="@ + dw + ":"@ + dh;
    assert(":"@ =~= seq![':']);
    assert(scale.skip(6) =~= dw + seq![':'] + dh);
    lemma_digits_have_no(canvas.width as nat, ':');
    lemma_digits_have_no(canvas.height as nat, ':');
    text::lemma_first_behind(dw, dh, ':');
    let body = dw + seq![':'] + dh;
    assert(body.take(dw.len() as int) =~= dw);
    assert(body.skip(dw.len() as int + 1) =~= dh);
}

/// A bitrate is written as its number and the letter for thousands.
pub proof fn law_bitrate_text(k: u32)
    ensures
        kbps(k).len() > 1,
        kbps(k).last() == 'k',
        text::nat_in(kbps(k).drop_last()) == Some(k as nat),
{
    reveal_strlit("k");
    text::law_decimal_reads_back(k as nat);
    text::lemma_decimal_digits(k as nat);
    assert(kbps(k).drop_last() =~= text::decimal(k as nat));
}

/// The first encoder of NVENC, AMF, QSV and VideoToolbox that ffmpeg has is taken, and
/// x264 where it has none of them.
pub proof fn law_hardware_comes_first(info: FfmpegInfo)
    ensures
        info.has_nvenc ==> auto_encoder(info) == EncoderKind::H264Nvenc,
        !info.has_nvenc && info.has_amf ==> auto_encoder(info) == EncoderKind::H264Amf,
        !info.has_nvenc && !info.has_amf && info.has_qsv ==> auto_encoder(info)
            == EncoderKind::H264Qsv,
        !info.has_nvenc && !info.has_amf && !info.has_qsv && info.has_videotoolbox
            ==> auto_encoder(info) == EncoderKind::H264VideoToolbox,
        !info.has_nvenc && !info.has_amf && !info.has_qsv && !info.has_videotoolbox
            ==> auto_encoder(info) == EncoderKind::LibX264,
        h264_choice(info) is None <==> !(info.has_nvenc || info.has_amf || info.has_qsv
            || info.has_videotoolbox || info.has_libx264),
        info.has_nvenc ==> hevc_choice(info) == Some(EncoderKind::HevcNvenc),
        !info.has_nvenc && info.has_qsv ==> hevc_choice(info) == Some(EncoderKind::HevcQsv),
        !info.has_nvenc && !info.has_qsv ==> hevc_choice(info) is None,
{
}

/// An encoder is provided where ffmpeg lists its name, HEVC and AV1 with the H.264 of
/// the same maker.
pub proof fn law_provided_is_listed(
    info: FfmpegInfo,
    version: Seq<char>,
    encoders: Seq<char>,
    auto: EncoderKind,
)
    requires
        info.read_from(version, encoders),
    ensures
        provides(info, EncoderKind::H264Nvenc) == text::has_part(
            encoders,
            encoder_name_of(EncoderKind::H264Nvenc, auto),
        ),
        provides(info, EncoderKind::H264Amf) == text::has_part(
            encoders,
            encoder_name_of(EncoderKind::H264Amf, auto),
        ),
        provides(info, EncoderKind::H264Qsv) == text::has_part(
            encoders,
            encoder_name_of(EncoderKind::H264Qsv, auto),
        ),
        provides(info, EncoderKind::H264VideoToolbox) == text::has_part(
            encoders,
            encoder_name_of(EncoderKind::H264VideoToolbox, auto),
        ),
        provides(info, EncoderKind::LibX264) == text::has_part(
            encoders,
            encoder_name_of(EncoderKind::LibX264, auto),
        ),
        provides(info, EncoderKind::HevcNvenc) == provides(info, EncoderKind::H264Nvenc),
        provides(info, EncoderKind::HevcQsv) == provides(info, EncoderKind::H264Qsv),
        provides(info, EncoderKind::Av1Qsv) == provides(info, EncoderKind::H264Qsv),
        provides(info, EncoderKind::Auto) && provides(info, EncoderKind::H264MediaFoundation),
        text::lines_of(version).len() > 0 ==> info.version_line@ == text::lines_of(version)[0],
{
}

/// `Auto` goes by the name of what it stands for, and by x264's where that is nothing;
/// every other encoder has its own name.
pub proof fn law_encoder_names(kind: EncoderKind, auto: EncoderKind)
    ensures
        encoder_name_of(EncoderKind::Auto, auto) == encoder_name_of(auto, EncoderKind::LibX264),
        encoder_name_of(EncoderKind::Auto, EncoderKind::Auto) == "libx264"@,
        kind != EncoderKind::Auto ==> encoder_name_of(kind, auto) == encoder_name_of(kind, kind),
        encoder_name_of(EncoderKind::H264Nvenc, auto) == "h264_nvenc"@,
        encoder_name_of(EncoderKind::HevcNvenc, auto) == "hevc_nvenc"@,
        encoder_name_of(EncoderKind::H264Amf, auto) == "h264_amf"@,
        encoder_name_of(EncoderKind::H264Qsv, auto) == "h264_qsv"@,
        encoder_name_of(EncoderKind::HevcQsv, auto) == "hevc_qsv"@,
        encoder_name_of(EncoderKind::Av1Qsv, auto) == "av1_qsv"@,
        encoder_name_of(EncoderKind::LibX264, auto) == "libx264"@,
        encoder_name_of(EncoderKind::H264VideoToolbox, auto) == "h264_videotoolbox"@,
        encoder_name_of(EncoderKind::H264MediaFoundation, auto) == "h264_mf"@,
{
}

/// A path gets its extension once: dots at its end go, and what is before them stays.
pub proof fn law_extension_keeps_the_path(base: Seq<char>, container: Container, n: nat)
    requires
        n <= base.len(),
        n == 0 || base[n - 1] != '.',
        forall|i: int| n <= i < base.len() ==> base[i] == '.',
        !text::has_end(base, "."@ + container.ext()),
    ensures
        with_ext(base, container) == base.take(n as int) + "."@ + container.ext(),
{
    lemma_without_dots(base, n);
    assert(base.take(n as int) + ("."@ + container.ext()) =~= base.take(n as int) + "."@
        + container.ext());
}

proof fn lemma_without_dots(s: Seq<char>, n: nat)
    requires
        n <= s.len(),
        n == 0 || s[n - 1] != '.',
        forall|i: int| n <= i < s.len() ==> s[i] == '.',
    ensures
        without_dots(s) == s.take(n as int),
    decreases s.len(),
{
    if n < s.len() {
        assert(s.last() == '.');
        lemma_without_dots(s.drop_last(), n);
        assert(s.drop_last().take(n as int) =~= s.take(n as int));
    } else {
        assert(s.take(n as int) =~= s);
    }
}

/// A path that has its extension is left alone.
pub proof fn law_extension_that_is_there(stem: Seq<char>, container: Container)
    ensures
        with_ext(stem + "."@ + container.ext(), container) == stem + "."@ + container.ext(),
{
    let suffix = "."@ + container.ext();
    let base = stem + "."@ + container.ext();
    assert(base =~= stem + suffix);
    assert(base.subrange(base.len() - suffix.len(), base.len() as int) =~= suffix);
}

/// A canvas has 64 pixels at least along each side, and 1 to 240 frames a second.
pub proof fn law_canvas_limits(canvas: CanvasConfig)
    ensures
        config_fault(canvas) is None <==> canvas.width >= 64 && canvas.height >= 64 && 1
            <= canvas.fps && canvas.fps <= 240,
{
}

/// A canvas that is read is width, an `x` and height, with a frame rate behind an `@`
/// or without one, and not too small.
pub proof fn law_canvas_that_is_read(s: Seq<char>)
    ensures
        canvas_in(s) matches Ok((w, h, fps)) ==> {
            let geometry = match text::split_at_first(s, '@') {
                Some((g, _)) => g,
                None => s,
            };
            &&& w >= 64 && h >= 64
            &&& text::split_at_first(geometry, 'x') matches Some((a, b)) && text::u32_in(
                text::trimmed(a),
            ) == Some(w) && text::u32_in(text::trimmed(b)) == Some(h)
            &&& fps is Some <==> text::split_at_first(s, '@') is Some
            &&& text::split_at_first(s, '@') matches Some((_, f)) ==> text::u32_in(text::trimmed(f))
                == fps
        },
{
}

/// A frame has four bytes a pixel.
pub proof fn law_frame_bytes(w: u32, h: u32)
    ensures
        frame_bytes(w, h) == 4 * (w as int * h as int),
        frame_bytes(w, h) == frame_bytes(h, w),
{
    assert((w as nat) * (h as nat) * 4 == 4 * (w as int * h as int)) by (nonlinear_arith);
    assert((w as nat) * (h as nat) * 4 == (h as nat) * (w as nat) * 4) by (nonlinear_arith);
}

/// Selectors are the short names and the names that ffmpeg has for them.
pub proof fn law_selectors(s: Seq<char>)
    ensures
        kind_named(s) == Ok::<EncoderKind, EncodeErrorView>(EncoderKind::Auto) <==> s == "auto"@,
        kind_named(s) == Ok::<EncoderKind, EncodeErrorView>(EncoderKind::H264Nvenc) <==> s
            == "nvenc"@ || s == "h264_nvenc"@,
        kind_named(s) == Ok::<EncoderKind, EncodeErrorView>(EncoderKind::H264Amf) <==> s == "amf"@
            || s == "h264_amf"@,
        kind_named(s) == Ok::<EncoderKind, EncodeErrorView>(EncoderKind::H264Qsv) <==> s == "qsv"@
            || s == "h264_qsv"@,
        kind_named(s) == Ok::<EncoderKind, EncodeErrorView>(EncoderKind::LibX264) <==> s == "x264"@
            || s == "libx264"@,
        kind_named(s) == Ok::<EncoderKind, EncodeErrorView>(EncoderKind::H264VideoToolbox) <==> s
            == "videotoolbox"@ || s == "vt"@,
{
    reveal_strlit("auto");
    reveal_strlit("nvenc");
    reveal_strlit("h264_nvenc");
    reveal_strlit("amf");
    reveal_strlit("h264_amf");
    reveal_strlit("qsv");
    reveal_strlit("h264_qsv");
    reveal_strlit("videotoolbox");
    reveal_strlit("vt");
    reveal_strlit("x264");
    reveal_strlit("libx264");
    assert("auto"@[0] == 'a' && "x264"@[0] == 'x' && "amf"@[0] == 'a' && "qsv"@[0] == 'q');
    assert("h264_amf"@[5] == 'a' && "h264_qsv"@[5] == 'q');
    assert("auto"@.len() == 4 && "x264"@.len() == 4 && "nvenc"@.len() == 5 && "amf"@.len() == 3
        && "qsv"@.len() == 3 && "vt"@.len() == 2);
    assert("h264_nvenc"@.len() == 10 && "h264_amf"@.len() == 8 && "h264_qsv"@.len() == 8
        && "libx264"@.len() == 7 && "videotoolbox"@.len() == 12);
}

/// What is said to a mode that an encoder lacks points at the mode that it has.
pub proof fn law_refused_modes(q: u8, name: Seq<char>)
    ensures
        family_of(name) == Family::X264 ==> rate_fault(name, RateControl::Cqp { qp: q }) == Some(
            "x264 has no CQP mode — use --rc crf --crf N instead"@,
        ),
        family_of(name) == Family::Nvenc ==> rate_fault(name, RateControl::Crf { crf: q }) == Some(
            "NVENC has no CRF mode — use --rc cqp --qp N instead"@,
        ),
        family_of(name) == Family::Amf ==> rate_fault(name, RateControl::Crf { crf: q }) == Some(
            "AMF has no CRF mode — use --rc cqp --qp N instead"@,
        ),
        family_of(name) == Family::Qsv ==> rate_fault(name, RateControl::Crf { crf: q }) == Some(
            "QSV has no CRF mode — use --rc cqp --qp N instead"@,
        ),
        family_of(name) == Family::Unknown ==> rate_fault(name, RateControl::Crf { crf: q })
            == Some("CRF is only supported with --encoder x264"@),
        quality_fault(q) is None <==> q <= 51,
{
}

/// Rates are refused where there is none and where the ceiling lies below the target,
/// which is said with both of them.
pub proof fn law_refused_rates(target: u32, ceiling: u32)
    ensures
        vbr_fault(target, ceiling) is None <==> 0 < target <= ceiling,
        0 == target ==> vbr_fault(target, ceiling) == Some("--bitrate must be > 0"@),
        0 < target && ceiling < target ==> vbr_fault(target, ceiling) == Some(
            "--maxrate "@ + (text::decimal(ceiling as nat) + "k"@) + " must be >= --bitrate "@ + (
            text::decimal(target as nat) + "k"@),
        ),
        doubled(ceiling) as int == 2 * ceiling || (doubled(ceiling) == 0xffff_ffff && 2 * ceiling
            > 0xffff_ffff),
{
}

/// A frame of the wrong length is told with its length, the right one and the size.
pub proof fn law_wrong_frame_text(e: RawvideoEncoder, len: usize)
    ensures
        e.size_fault(len) == EncodeErrorView::Probe(
            "frame size "@ + text::decimal(len as nat) + " != "@ + text::decimal(
                frame_bytes(e.native_w, e.native_h),
            ) + " ("@ + text::decimal(e.native_w as nat) + "x"@ + text::decimal(e.native_h as nat)
                + ") — skipping"@,
        ),
        e.wf() <==> e.bytes_written == e.frames_written * (4 * (e.native_w as int * e.native_h as int)),
{
    law_frame_bytes(e.native_w, e.native_h);
}

/// What the errors of the encoder say.
pub proof fn law_encoder_errors(e: EncodeErrorView)
    ensures
        e matches EncodeErrorView::Probe(m) ==> e.text() == "ffmpeg probe failed: "@ + m,
        e matches EncodeErrorView::UnsupportedEncoder(k) ==> e.text() == "unsupported encoder "@
            + k.label_spec() + " for current OS"@,
        e is FfmpegMissing ==> e.text()
            == "ffmpeg not found in PATH — install ffmpeg 7.x or place ffmpeg.dll beside qcapture.exe"@,
{
}

/// What is said of a canvas that cannot be read: of the text as a whole, or of the
/// number that is wrong.
pub proof fn law_canvas_refusals(s: Seq<char>)
    ensures
        ({
            let (geometry, rate) = match text::split_at_first(s, '@') {
                Some((g, f)) => (g, Some(f)),
                None => (s, None),
            };
            match text::split_at_first(geometry, 'x') {
                None => canvas_in(s) == Err::<(u32, u32, Option<u32>), Seq<char>>(
                    "bad canvas '"@ + s + "' (want WxH[@fps])"@,
                ),
                Some((a, b)) => {
                    let w = text::u32_in(text::trimmed(a));
                    let h = text::u32_in(text::trimmed(b));
                    &&& w is None ==> canvas_in(s) == Err::<(u32, u32, Option<u32>), Seq<char>>(
                        "bad canvas width in '"@ + s + "'"@,
                    )
                    &&& w is Some && h is None ==> canvas_in(s) == Err::<
                        (u32, u32, Option<u32>),
                        Seq<char>,
                    >("bad canvas height in '"@ + s + "'"@)
                    &&& w is Some && h is Some && rate is Some && text::u32_in(
                        text::trimmed(rate->0),
                    ) is None ==> canvas_in(s) == Err::<(u32, u32, Option<u32>), Seq<char>>(
                        "bad canvas fps in '"@ + s + "'"@,
                    )
                    &&& w is Some && h is Some && rate is None && (w->0 < 64 || h->0 < 64)
                        ==> canvas_in(s) == Err::<(u32, u32, Option<u32>), Seq<char>>(
                        "canvas too small (min 64x64)"@,
                    )
                },
            }
        }),
{
}

/// A quantiser that is out of range is told with its number.
pub proof fn law_refused_quantiser(q: u8)
    requires
        q > 51,
    ensures
        quality_fault(q) == Some(
            "qp "@ + text::decimal(q as nat) + " out of range 0..51 (lower = better quality)"@,
        ),
{
}

} // verus!
