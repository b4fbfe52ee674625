//! The widget's advanced settings: their choices, ranges and defaults.

use crate::single::F32;
use crate::style::{
    HL_RADIUS_MAX_BITS, HL_RADIUS_MIN_BITS, RIPPLE_MS_MAX, RIPPLE_MS_MIN, RIPPLE_RADIUS_MAX_BITS,
    RIPPLE_RADIUS_MIN_BITS,
};
use crate::style;
use crate::text;
use crate::text::{decimal_text, join3};
use crate::types::{
    CursorStyle, EncoderKind, RateControl, HL_RADIUS_BITS, RIPPLE_RADIUS_BITS,
};
use vstd::prelude::*;

verus! {

/// Rate control modes on offer.
#[derive(Debug, Clone, Copy, PartialEq, Eq, Structural)]
pub enum RateSel {
    Cbr,
    Vbr,
    Cqp,
    Crf,
}

impl RateSel {
    /// What the list shows for the mode.
    pub fn label(self) -> (r: &'static str)
        ensures
            r@ == (match self {
                RateSel::Cbr => "CBR"@,
                RateSel::Vbr => "VBR"@,
                RateSel::Cqp => "CQP"@,
                RateSel::Crf => "CRF"@,
            }),
    {
        match self {
            Self::Cbr => "CBR",
            Self::Vbr => "VBR",
            Self::Cqp => "CQP",
            Self::Crf => "CRF",
        }
    }

    /// Every mode, in the order of the list.
    pub fn all() -> (r: [Self; 4])
        ensures
            r@ == seq![RateSel::Cbr, RateSel::Vbr, RateSel::Cqp, RateSel::Crf],
            forall|m: RateSel| r@.contains(m),
    {
        let r = [Self::Cbr, Self::Vbr, Self::Cqp, Self::Crf];
        proof {
            assert forall|m: RateSel| r@.contains(m) by {
                assert(m == r@[0] || m == r@[1] || m == r@[2] || m == r@[3]);
            }
        }
        r
    }
}

/// Encoders on offer.
#[derive(Debug, Clone, Copy, PartialEq, Eq, Structural)]
pub enum EncoderSel {
    Auto,
    H264,
    Hevc,
    Nvenc,
    Amf,
    Qsv,
    X264,
}

impl EncoderSel {
    /// Does it run in the ffmpeg child? The others are the system's own.
    pub open spec fn by_ffmpeg(self) -> bool {
        self == EncoderSel::Nvenc || self == EncoderSel::Amf || self == EncoderSel::Qsv || self
            == EncoderSel::X264
    }

    /// Does it run in the ffmpeg child?
    pub fn is_ffmpeg(self) -> (r: bool)
        ensures
            r == self.by_ffmpeg(),
    {
        match self {
            Self::Nvenc | Self::Amf | Self::Qsv | Self::X264 => true,
            _ => false,
        }
    }

    /// The encoder that the ffmpeg child gets; the system's own ones name none.
    pub open spec fn vendor(self) -> Option<EncoderKind> {
        match self {
            EncoderSel::Nvenc => Some(EncoderKind::H264Nvenc),
            EncoderSel::Amf => Some(EncoderKind::H264Amf),
            EncoderSel::Qsv => Some(EncoderKind::H264Qsv),
            EncoderSel::X264 => Some(EncoderKind::LibX264),
            _ => None,
        }
    }

    /// The encoder that the ffmpeg child gets.
    pub fn vendor_kind(self) -> (r: Option<EncoderKind>)
        ensures
            r == self.vendor(),
            r is Some <==> self.by_ffmpeg(),
    {
        match self {
            Self::Nvenc => Some(EncoderKind::H264Nvenc),
            Self::Amf => Some(EncoderKind::H264Amf),
            Self::Qsv => Some(EncoderKind::H264Qsv),
            Self::X264 => Some(EncoderKind::LibX264),
            _ => None,
        }
    }

    /// Every encoder, in the order of the list.
    pub fn all() -> (r: [Self; 7])
        ensures
            r@ == seq![
                EncoderSel::Auto,
                EncoderSel::H264,
                EncoderSel::Hevc,
                EncoderSel::Nvenc,
                EncoderSel::Amf,
                EncoderSel::Qsv,
                EncoderSel::X264,
            ],
            forall|e: EncoderSel| r@.contains(e),
    {
        let r = [
            Self::Auto,
            Self::H264,
            Self::Hevc,
            Self::Nvenc,
            Self::Amf,
            Self::Qsv,
            Self::X264,
        ];
        proof {
            assert forall|e: EncoderSel| r@.contains(e) by {
                assert(e == r@[0] || e == r@[1] || e == r@[2] || e == r@[3] || e == r@[4] || e
                    == r@[5] || e == r@[6]);
            }
        }
        r
    }

    /// What the list shows for the encoder.
    pub fn label(self) -> (r: &'static str)
        ensures
            r@ == (match self {
                EncoderSel::Auto => "Auto (H264)"@,
                EncoderSel::H264 => "H264"@,
                EncoderSel::Hevc => "HEVC"@,
                EncoderSel::Nvenc => "NVENC (ffmpeg)"@,
                EncoderSel::Amf => "AMF (ffmpeg)"@,
                EncoderSel::Qsv => "QSV (ffmpeg)"@,
                EncoderSel::X264 => "x264 (ffmpeg)"@,
            }),
    {
        match self {
            Self::Auto => "Auto (H264)",
            Self::H264 => "H264",
            Self::Hevc => "HEVC",
            Self::Nvenc => "NVENC (ffmpeg)",
            Self::Amf => "AMF (ffmpeg)",
            Self::Qsv => "QSV (ffmpeg)",
            Self::X264 => "x264 (ffmpeg)",
        }
    }
}

/// The canvases on offer; `None` is the size of the feed.
pub fn canvas_options() -> (r: [Option<(u32, u32)>; 3])
    ensures
        r@ == seq![None, Some((1280u32, 720u32)), Some((1920u32, 1080u32))],
{
    [None, Some((1280, 720)), Some((1920, 1080))]
}

/// What the list shows for a canvas.
pub fn canvas_label(canvas: Option<(u32, u32)>) -> (s: String)
    ensures
        s@ == (match canvas {
            None => "Native"@,
            Some((w, h)) => text::decimal(w as nat) + "x"@ + text::decimal(h as nat),
        }),
{
    match canvas {
        None => "Native".to_owned(),
        Some((w, h)) => {
            join3(decimal_text(w as u64).as_str(), "x", decimal_text(h as u64).as_str())
        },
    }
}

/// Ranges of the sliders.
pub const FPS_MIN: u32 = 15;

pub const FPS_MAX: u32 = 120;

pub const BITRATE_MIN: u32 = 1000;

pub const BITRATE_MAX: u32 = 50000;

pub const MAXRATE_MIN: u32 = 1000;

pub const MAXRATE_MAX: u32 = 80000;

pub const QP_MAX: u8 = 51;

/// The smallest edge of a canvas.
pub const CANVAS_MIN: u32 = 64;

/// The advanced settings.
#[derive(Debug, Clone, Copy, PartialEq, Eq)]
pub struct AdvCfg {
    pub fps: u32,
    pub bitrate_kbps: u32,
    pub canvas: Option<(u32, u32)>,
    pub encoder: EncoderSel,
    pub show_cursor: bool,
    pub rc: RateSel,
    pub qp: u8,
    pub crf: u8,
    pub maxrate_kbps: u32,
    pub cursor_color: [u8; 4],
    pub cursor_size: F32,
    pub ripple_color: [u8; 4],
    pub ripple_size: F32,
    pub ripple_ms: u32,
    /// Additive glow in place of blending over.
    pub additive: bool,
}

impl Default for AdvCfg {
    fn default() -> (r: Self)
        ensures
            r.standard(),
    {
        Self {
            fps: 30,
            bitrate_kbps: 8000,
            canvas: None,
            encoder: EncoderSel::Auto,
            show_cursor: true,
            rc: RateSel::Cbr,
            qp: 23,
            crf: 23,
            maxrate_kbps: 12000,
            cursor_color: [255, 210, 0, 255],
            cursor_size: F32 { bits: HL_RADIUS_BITS },
            ripple_color: [255, 255, 255, 255],
            ripple_size: F32 { bits: RIPPLE_RADIUS_BITS },
            ripple_ms: 600,
            additive: false,
        }
    }
}

/// `n` limited to the range from `lo` to `hi`.
pub open spec fn limited(n: int, lo: int, hi: int) -> int {
    if n < lo {
        lo
    } else if n > hi {
        hi
    } else {
        n
    }
}

fn limit(n: u32, lo: u32, hi: u32) -> (r: u32)
    ensures
        r == limited(n as int, lo as int, hi as int),
{
    if n < lo {
        lo
    } else if n > hi {
        hi
    } else {
        n
    }
}

impl AdvCfg {
    /// The settings of a widget that was never opened.
    pub open spec fn standard(self) -> bool {
        &&& self.fps == 30
        &&& self.bitrate_kbps == 8000
        &&& self.canvas is None
        &&& self.encoder == EncoderSel::Auto
        &&& self.show_cursor
        &&& self.rc == RateSel::Cbr
        &&& self.qp == 23
        &&& self.crf == 23
        &&& self.maxrate_kbps == 12000
        &&& self.style_spec().standard()
    }

    /// The cursor style that the settings ask for.
    pub open spec fn style_spec(self) -> CursorStyle {
        CursorStyle {
            hl_rgba: self.cursor_color,
            hl_radius: self.cursor_size,
            ripple_rgba: self.ripple_color,
            ripple_radius: self.ripple_size,
            ripple_ms: self.ripple_ms,
            additive: self.additive,
        }
    }

    /// The cursor style that the settings ask for.
    pub fn style(&self) -> (r: CursorStyle)
        ensures
            r == self.style_spec(),
    {
        CursorStyle {
            hl_rgba: self.cursor_color,
            hl_radius: self.cursor_size,
            ripple_rgba: self.ripple_color,
            ripple_radius: self.ripple_size,
            ripple_ms: self.ripple_ms,
            additive: self.additive,
        }
    }

    /// Every number in the range of its slider. A radius that is no number is
    /// left as it is.
    pub open spec fn in_range(self) -> bool {
        &&& FPS_MIN <= self.fps <= FPS_MAX
        &&& BITRATE_MIN <= self.bitrate_kbps <= BITRATE_MAX
        &&& MAXRATE_MIN <= self.maxrate_kbps <= MAXRATE_MAX
        &&& self.qp <= QP_MAX
        &&& self.crf <= QP_MAX
        &&& self.cursor_size.nan() || style::hl_radius_ok(self.cursor_size)
        &&& self.ripple_size.nan() || style::ripple_radius_ok(self.ripple_size)
        &&& RIPPLE_MS_MIN <= self.ripple_ms <= RIPPLE_MS_MAX
        &&& self.canvas matches Some((w, h)) ==> w >= CANVAS_MIN && h >= CANVAS_MIN
    }

    /// The settings with every number brought into the range of its slider, and
    /// without a canvas that is too small.
    pub open spec fn sanitized(self) -> AdvCfg {
        AdvCfg {
            fps: limited(self.fps as int, FPS_MIN as int, FPS_MAX as int) as u32,
            bitrate_kbps: limited(
                self.bitrate_kbps as int,
                BITRATE_MIN as int,
                BITRATE_MAX as int,
            ) as u32,
            maxrate_kbps: limited(
                self.maxrate_kbps as int,
                MAXRATE_MIN as int,
                MAXRATE_MAX as int,
            ) as u32,
            qp: limited(self.qp as int, 0, QP_MAX as int) as u8,
            crf: limited(self.crf as int, 0, QP_MAX as int) as u8,
            cursor_size: self.cursor_size.clamped(
                F32 { bits: HL_RADIUS_MIN_BITS },
                F32 { bits: HL_RADIUS_MAX_BITS },
            ),
            ripple_size: self.ripple_size.clamped(
                F32 { bits: RIPPLE_RADIUS_MIN_BITS },
                F32 { bits: RIPPLE_RADIUS_MAX_BITS },
            ),
            ripple_ms: limited(
                self.ripple_ms as int,
                RIPPLE_MS_MIN as int,
                RIPPLE_MS_MAX as int,
            ) as u32,
            canvas: match self.canvas {
                Some((w, h)) => if w < CANVAS_MIN || h < CANVAS_MIN {
                    None
                } else {
                    Some((w, h))
                },
                None => None,
            },
            ..self
        }
    }

    /// Brings every number into the range of its slider: a settings file may hold
    /// anything.
    pub fn sanitize(&mut self)
        ensures
            *final(self) == old(self).sanitized(),
    {
        self.fps = limit(self.fps, FPS_MIN, FPS_MAX);
        self.bitrate_kbps = limit(self.bitrate_kbps, BITRATE_MIN, BITRATE_MAX);
        self.maxrate_kbps = limit(self.maxrate_kbps, MAXRATE_MIN, MAXRATE_MAX);
        if self.qp > QP_MAX {
            self.qp = QP_MAX;
        }
        if self.crf > QP_MAX {
            self.crf = QP_MAX;
        }
        self.cursor_size = self.cursor_size.clamp_to(
            F32 { bits: HL_RADIUS_MIN_BITS },
            F32 { bits: HL_RADIUS_MAX_BITS },
        );
        self.ripple_size = self.ripple_size.clamp_to(
            F32 { bits: RIPPLE_RADIUS_MIN_BITS },
            F32 { bits: RIPPLE_RADIUS_MAX_BITS },
        );
        self.ripple_ms = limit(self.ripple_ms, RIPPLE_MS_MIN, RIPPLE_MS_MAX);
        if let Some((w, h)) = self.canvas {
            if w < CANVAS_MIN || h < CANVAS_MIN {
                self.canvas = None;
            }
        }
    }

    /// The rate control that the settings ask for.
    pub open spec fn rate(self) -> RateControl {
        match self.rc {
            RateSel::Cbr => RateControl::Cbr { bitrate_kbps: self.bitrate_kbps },
            RateSel::Vbr => RateControl::Vbr {
                target_kbps: self.bitrate_kbps,
                max_kbps: self.maxrate_kbps,
            },
            RateSel::Cqp => RateControl::Cqp { qp: self.qp },
            RateSel::Crf => RateControl::Crf { crf: self.crf },
        }
    }
}

/// Settings that were brought into range are in range, doing it again changes
/// nothing, and settings in range stay as they are.
pub proof fn law_sanitized(a: AdvCfg)
    ensures
        a.sanitized().in_range(),
        a.sanitized().sanitized() == a.sanitized(),
        a.in_range() ==> a.sanitized() == a,
{
}

/// The rate control that the settings ask for. There is one for every mode.
pub fn rate_from_adv(adv: &AdvCfg) -> (r: Result<RateControl, String>)
    ensures
        r == Ok::<RateControl, String>(adv.rate()),
{
    Ok(
        match adv.rc {
            RateSel::Cbr => RateControl::Cbr { bitrate_kbps: adv.bitrate_kbps },
            RateSel::Vbr => RateControl::Vbr {
                target_kbps: adv.bitrate_kbps,
                max_kbps: adv.maxrate_kbps,
            },
            RateSel::Cqp => RateControl::Cqp { qp: adv.qp },
            RateSel::Crf => RateControl::Crf { crf: adv.crf },
        },
    )
}

/// The slider and the remark that a rate control mode adds to the panel.
#[derive(Debug, Clone, Copy, PartialEq, Eq, Structural)]
pub enum RateExtra {
    Nothing,
    MaxRate,
    Qp,
    Crf,
}

/// What a rate control mode adds to the panel.
pub fn rate_extra(rc: RateSel) -> (r: RateExtra)
    ensures
        r == (match rc {
            RateSel::Cbr => RateExtra::Nothing,
            RateSel::Vbr => RateExtra::MaxRate,
            RateSel::Cqp => RateExtra::Qp,
            RateSel::Crf => RateExtra::Crf,
        }),
{
    match rc {
        RateSel::Cbr => RateExtra::Nothing,
        RateSel::Vbr => RateExtra::MaxRate,
        RateSel::Cqp => RateExtra::Qp,
        RateSel::Crf => RateExtra::Crf,
    }
}

/// Reads a stored colour: red, green and blue, with alpha or, in older files,
/// without it, which means opaque.
pub fn rgba_from(v: &[u8]) -> (r: Result<[u8; 4], String>)
    ensures
        v@.len() == 3 ==> (r matches Ok(c) && c@ == seq![v@[0], v@[1], v@[2], 255u8]),
        v@.len() == 4 ==> (r matches Ok(c) && c@ == v@),
        v@.len() != 3 && v@.len() != 4 ==> (r matches Err(m) && m@
            == "color must be [r,g,b] or [r,g,b,a]"@),
{
    if v.len() == 3 {
        Ok([v[0], v[1], v[2], 255])
    } else if v.len() == 4 {
        let c = [v[0], v[1], v[2], v[3]];
        assert(c@ =~= v@);
        Ok(c)
    } else {
        Err("color must be [r,g,b] or [r,g,b,a]".to_owned())
    }
}

// ---------------------------------------------------------------------------
// What holds on every input
// ---------------------------------------------------------------------------

/// The encoders that run in ffmpeg and what they are there.
pub proof fn law_encoders_of_ffmpeg(e: EncoderSel)
    ensures
        e.by_ffmpeg() <==> e != EncoderSel::Auto && e != EncoderSel::H264 && e != EncoderSel::Hevc,
        e.vendor() is Some <==> e.by_ffmpeg(),
        e == EncoderSel::Nvenc ==> e.vendor() == Some(EncoderKind::H264Nvenc),
        e == EncoderSel::Amf ==> e.vendor() == Some(EncoderKind::H264Amf),
        e == EncoderSel::Qsv ==> e.vendor() == Some(EncoderKind::H264Qsv),
        e == EncoderSel::X264 ==> e.vendor() == Some(EncoderKind::LibX264),
{
}

/// A number is moved to the end of the range that it is beyond, and stays else.
pub proof fn law_numbers_in_range(n: int, lo: int, hi: int)
    requires
        lo <= hi,
    ensures
        lo <= limited(n, lo, hi) <= hi,
        lo <= n <= hi ==> limited(n, lo, hi) == n,
        n < lo ==> limited(n, lo, hi) == lo,
        n > hi ==> limited(n, lo, hi) == hi,
{
}

/// The ranges of the settings: 15 to 120 frames a second, 1000 to 50000 kbps with a
/// ceiling of 1000 to 80000, quantisers up to 51, marks of 6 to 40 and 12 to 120
/// pixels, ripples of 100 to 3000 ms, and a canvas of 64 pixels at least.
pub proof fn law_ranges_of_settings(a: AdvCfg)
    requires
        !a.cursor_size.nan(),
        !a.ripple_size.nan(),
    ensures
        a.in_range() <==> {
            &&& 15 <= a.fps <= 120
            &&& 1000 <= a.bitrate_kbps <= 50000
            &&& 1000 <= a.maxrate_kbps <= 80000
            &&& a.qp <= 51
            &&& a.crf <= 51
            &&& 0x40c0_0000 <= a.cursor_size.bits <= 0x4220_0000
            &&& 0x4140_0000 <= a.ripple_size.bits <= 0x42f0_0000
            &&& 100 <= a.ripple_ms <= 3000
            &&& a.canvas matches Some((w, h)) ==> w >= 64 && h >= 64
        },
{
}

/// Mending settings moves each number that is out of range to the nearer end, drops a
/// canvas that is too small, and changes nothing else.
pub proof fn law_settings_are_mended(a: AdvCfg)
    ensures
        ({
            let m = a.sanitized();
            &&& 15 <= a.fps <= 120 ==> m.fps == a.fps
            &&& a.fps < 15 ==> m.fps == 15
            &&& a.fps > 120 ==> m.fps == 120
            &&& 1000 <= a.bitrate_kbps <= 50000 ==> m.bitrate_kbps == a.bitrate_kbps
            &&& a.bitrate_kbps < 1000 ==> m.bitrate_kbps == 1000
            &&& a.bitrate_kbps > 50000 ==> m.bitrate_kbps == 50000
            &&& 1000 <= a.maxrate_kbps <= 80000 ==> m.maxrate_kbps == a.maxrate_kbps
            &&& a.maxrate_kbps < 1000 ==> m.maxrate_kbps == 1000
            &&& a.maxrate_kbps > 80000 ==> m.maxrate_kbps == 80000
            &&& a.qp <= 51 ==> m.qp == a.qp
            &&& a.qp > 51 ==> m.qp == 51
            &&& a.crf <= 51 ==> m.crf == a.crf
            &&& a.crf > 51 ==> m.crf == 51
            &&& 100 <= a.ripple_ms <= 3000 ==> m.ripple_ms == a.ripple_ms
            &&& a.ripple_ms < 100 ==> m.ripple_ms == 100
            &&& a.ripple_ms > 3000 ==> m.ripple_ms == 3000
            &&& a.canvas is None ==> m.canvas is None
            &&& a.canvas matches Some((w, h)) ==> (w >= 64 && h >= 64 ==> m.canvas == a.canvas) && (
            w < 64 || h < 64 ==> m.canvas is None)
            &&& m.encoder == a.encoder && m.rc == a.rc && m.show_cursor == a.show_cursor
            &&& m.cursor_color == a.cursor_color && m.ripple_color == a.ripple_color
            &&& m.additive == a.additive
        }),
{
}

/// The mode takes its own numbers: the ceiling belongs to VBR, the quantiser to CQP
/// and the quality to CRF.
pub proof fn law_rate_of_the_settings(a: AdvCfg)
    ensures
        a.rc == RateSel::Cbr ==> a.rate() == (RateControl::Cbr { bitrate_kbps: a.bitrate_kbps }),
        a.rc == RateSel::Vbr ==> (a.rate() matches RateControl::Vbr { target_kbps, max_kbps }
            && target_kbps == a.bitrate_kbps && max_kbps == a.maxrate_kbps),
        a.rc == RateSel::Cqp ==> a.rate() == (RateControl::Cqp { qp: a.qp }),
        a.rc == RateSel::Crf ==> a.rate() == (RateControl::Crf { crf: a.crf }),
{
}

/// The marks are drawn as the settings say, the highlight by its own and the ripples
/// by theirs.
pub proof fn law_style_of_the_settings(a: AdvCfg)
    ensures
        a.style_spec().hl_rgba == a.cursor_color,
        a.style_spec().hl_radius == a.cursor_size,
        a.style_spec().ripple_rgba == a.ripple_color,
        a.style_spec().ripple_radius == a.ripple_size,
        a.style_spec().ripple_ms == a.ripple_ms,
        a.style_spec().additive == a.additive,
{
}

/// The usual settings.
pub proof fn law_usual_settings(a: AdvCfg)
    requires
        a.standard(),
    ensures
        a.fps == 30,
        a.bitrate_kbps == 8000,
        a.canvas is None,
        a.encoder == EncoderSel::Auto,
        a.show_cursor,
        a.rc == RateSel::Cbr,
        a.qp == 23,
        a.crf == 23,
        a.maxrate_kbps == 12000,
        a.cursor_color@ == seq![255u8, 210u8, 0u8, 255u8],
        a.ripple_color@ == seq![255u8, 255u8, 255u8, 255u8],
        a.cursor_size.bits == 0x4160_0000,
        a.ripple_size.bits == 0x4228_0000,
        a.ripple_ms == 600,
        !a.additive,
        a.in_range(),
{
}

} // verus!
