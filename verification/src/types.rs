//! Shared descriptors: capture targets, the fixed canvas, encoder settings and
//! control messages. No frame data lives here.

use crate::text;
use crate::single::F32;
use crate::text::{decimal_int_text, decimal_text};
use vstd::prelude::*;

verus! {

/// The operating systems that the recorder tells apart.
#[derive(Debug, Clone, Copy, PartialEq, Eq, Structural)]
pub enum Os {
    Windows,
    MacOs,
    Linux,
    Other,
}

/// Physical-pixel rectangle. Origin is top-left in virtual-screen space.
#[derive(Debug, Clone, Copy, PartialEq, Eq, Structural)]
pub struct Rect {
    pub x: i32,
    pub y: i32,
    pub w: u32,
    pub h: u32,
}

impl Rect {
    /// No pixel lies in it.
    pub open spec fn empty(self) -> bool {
        self.w == 0 || self.h == 0
    }

    pub fn new(x: i32, y: i32, w: u32, h: u32) -> (r: Self)
        ensures
            r.x == x,
            r.y == y,
            r.w == w,
            r.h == h,
    {
        Self { x, y, w, h }
    }

    pub fn is_empty(&self) -> (r: bool)
        ensures
            r == self.empty(),
    {
        self.w == 0 || self.h == 0
    }
}

/// Normalised rectangle, relative to the fixed canvas.
#[derive(Debug, Clone, Copy, PartialEq, Eq, Structural)]
pub struct NormRect {
    pub x: F32,
    pub y: F32,
    pub w: F32,
    pub h: F32,
}

/// Fixed output canvas. The encoder is set up once; region changes only alter
/// how frames are cropped or padded into it.
#[derive(Debug, Clone, Copy, PartialEq, Eq, Structural)]
pub struct CanvasConfig {
    pub width: u32,
    pub height: u32,
    pub fps: u32,
}

/// The canvas of the given size and frame rate.
pub open spec fn canvas_of(width: u32, height: u32, fps: u32) -> CanvasConfig {
    CanvasConfig { width, height, fps }
}

impl Default for CanvasConfig {
    fn default() -> (r: Self)
        ensures
            r == canvas_of(1920, 1080, 30),
    {
        Self { width: 1920, height: 1080, fps: 30 }
    }
}

impl CanvasConfig {
    /// The canvases on offer, smallest first.
    pub fn presets() -> (r: Vec<Self>)
        ensures
            r@ == seq![
                canvas_of(1280, 720, 30),
                canvas_of(1280, 720, 60),
                canvas_of(1920, 1080, 30),
                canvas_of(1920, 1080, 60),
                canvas_of(2560, 1440, 60),
                canvas_of(3840, 2160, 30),
            ],
    {
        let r: Vec<Self> = vec![
            Self { width: 1280, height: 720, fps: 30 },
            Self { width: 1280, height: 720, fps: 60 },
            Self { width: 1920, height: 1080, fps: 30 },
            Self { width: 1920, height: 1080, fps: 60 },
            Self { width: 2560, height: 1440, fps: 60 },
            Self { width: 3840, height: 2160, fps: 30 },
        ];
        r
    }
}

/// A monitor. The scale factor is a single-precision number.
#[derive(Debug, Clone, PartialEq, Eq)]
pub struct DisplayInfo {
    pub id: u32,
    pub name: String,
    pub x: i32,
    pub y: i32,
    pub width: u32,
    pub height: u32,
    pub scale_factor: F32,
    pub is_primary: bool,
    /// Refresh rate in Hz if known.
    pub refresh_hz: Option<u32>,
}

/// A window. `id` is the platform handle, widened so that it fits everywhere.
#[derive(Debug, Clone, PartialEq, Eq)]
pub struct WindowInfo {
    pub id: i64,
    pub title: String,
    pub app_name: String,
    pub x: i32,
    pub y: i32,
    pub width: u32,
    pub height: u32,
    pub minimized: bool,
}

/// What the user wants to record.
#[derive(Debug, Clone, Copy, PartialEq, Eq, Structural)]
pub enum CaptureTarget {
    Screen(u32),
    Window(i64),
    /// Region on a given screen, in physical pixels.
    Region { screen: u32, rect: Rect },
}

/// Capture backend selected in the advanced settings.
#[derive(Debug, Clone, Copy, PartialEq, Eq, Structural)]
pub enum CaptureMethod {
    Auto,
    WindowsWgc,
    WindowsDxgiDuplication,
    MacScreenCaptureKit,
    LinuxPortalPipeWire,
    LinuxX11Xshm,
    FallbackXcap,
}

impl Default for CaptureMethod {
    fn default() -> (r: Self)
        ensures
            r == CaptureMethod::Auto,
    {
        CaptureMethod::Auto
    }
}

impl CaptureMethod {
    /// The backend that an operating system gets where the user leaves "Auto".
    pub open spec fn recommended(os: Os) -> CaptureMethod {
        match os {
            Os::Windows => CaptureMethod::WindowsWgc,
            Os::MacOs => CaptureMethod::MacScreenCaptureKit,
            Os::Linux => CaptureMethod::LinuxPortalPipeWire,
            Os::Other => CaptureMethod::FallbackXcap,
        }
    }

    /// Recommended default for the operating system that the program runs on.
    pub fn recommended_for_current_os(os: Os) -> (r: Self)
        ensures
            r == Self::recommended(os),
            r != CaptureMethod::Auto,
    {
        match os {
            Os::Windows => Self::WindowsWgc,
            Os::MacOs => Self::MacScreenCaptureKit,
            Os::Linux => Self::LinuxPortalPipeWire,
            Os::Other => Self::FallbackXcap,
        }
    }
}

#[derive(Debug, Clone, Copy, PartialEq, Eq, Structural)]
pub enum EncoderKind {
    Auto,
    H264Nvenc,
    H264Amf,
    H264Qsv,
    H264VideoToolbox,
    H264MediaFoundation,
    LibX264,
    HevcNvenc,
    HevcQsv,
    Av1Qsv,
}

impl Default for EncoderKind {
    fn default() -> (r: Self)
        ensures
            r == EncoderKind::Auto,
    {
        EncoderKind::Auto
    }
}

impl EncoderKind {
    /// The kind's name.
    pub open spec fn label_spec(self) -> Seq<char> {
        match self {
            EncoderKind::Auto => "Auto"@,
            EncoderKind::H264Nvenc => "H264Nvenc"@,
            EncoderKind::H264Amf => "H264Amf"@,
            EncoderKind::H264Qsv => "H264Qsv"@,
            EncoderKind::H264VideoToolbox => "H264VideoToolbox"@,
            EncoderKind::H264MediaFoundation => "H264MediaFoundation"@,
            EncoderKind::LibX264 => "LibX264"@,
            EncoderKind::HevcNvenc => "HevcNvenc"@,
            EncoderKind::HevcQsv => "HevcQsv"@,
            EncoderKind::Av1Qsv => "Av1Qsv"@,
        }
    }

    /// The kind's name, as messages show it.
    pub fn label(self) -> (r: &'static str)
        ensures
            r@ == self.label_spec(),
    {
        match self {
            EncoderKind::Auto => "Auto",
            EncoderKind::H264Nvenc => "H264Nvenc",
            EncoderKind::H264Amf => "H264Amf",
            EncoderKind::H264Qsv => "H264Qsv",
            EncoderKind::H264VideoToolbox => "H264VideoToolbox",
            EncoderKind::H264MediaFoundation => "H264MediaFoundation",
            EncoderKind::LibX264 => "LibX264",
            EncoderKind::HevcNvenc => "HevcNvenc",
            EncoderKind::HevcQsv => "HevcQsv",
            EncoderKind::Av1Qsv => "Av1Qsv",
        }
    }
}

#[derive(Debug, Clone, Copy, PartialEq, Eq, Structural)]
pub enum RateControl {
    Cbr { bitrate_kbps: u32 },
    Vbr { target_kbps: u32, max_kbps: u32 },
    Cqp { qp: u8 },
    Crf { crf: u8 },
}

impl Default for RateControl {
    fn default() -> (r: Self)
        ensures
            r == (RateControl::Cbr { bitrate_kbps: 8000 }),
    {
        RateControl::Cbr { bitrate_kbps: 8000 }
    }
}

#[derive(Debug, Clone, PartialEq, Eq)]
pub struct EncodeConfig {
    pub canvas: CanvasConfig,
    pub encoder: EncoderKind,
    pub rate_control: RateControl,
    /// GOP size / keyframe interval in frames.
    pub keyint: u32,
    pub preset: String,
    pub container: Container,
}

impl Default for EncodeConfig {
    fn default() -> (r: Self)
        ensures
            r.canvas == canvas_of(1920, 1080, 30),
            r.encoder == EncoderKind::Auto,
            r.rate_control == (RateControl::Cbr { bitrate_kbps: 8000 }),
            r.keyint == 120,
            r.preset@ == "veryfast"@,
            r.container == Container::Mp4,
    {
        Self {
            canvas: CanvasConfig::default(),
            encoder: EncoderKind::Auto,
            rate_control: RateControl::default(),
            keyint: 120,
            preset: "veryfast".to_owned(),
            container: Container::Mp4,
        }
    }
}

#[derive(Debug, Clone, Copy, PartialEq, Eq, Structural)]
pub enum Container {
    Mp4,
    Mkv,
    Mov,
}

impl Container {
    /// The file-name extension of the container.
    pub open spec fn ext(self) -> Seq<char> {
        match self {
            Container::Mp4 => "mp4"@,
            Container::Mkv => "mkv"@,
            Container::Mov => "mov"@,
        }
    }

    pub fn extension(&self) -> (r: &'static str)
        ensures
            r@ == self.ext(),
    {
        match self {
            Self::Mp4 => "mp4",
            Self::Mkv => "mkv",
            Self::Mov => "mov",
        }
    }
}

/// Cursor effect style: ring and ripple colours (sRGB and alpha), radii in feed
/// pixels, ripple lifetime in milliseconds, and an additive glow mode.
#[derive(Debug, Clone, Copy, PartialEq, Eq)]
pub struct CursorStyle {
    pub hl_rgba: [u8; 4],
    pub hl_radius: F32,
    pub ripple_rgba: [u8; 4],
    pub ripple_radius: F32,
    pub ripple_ms: u32,
    pub additive: bool,
}

/// The bits of the default highlight radius, 14.
pub const HL_RADIUS_BITS: u32 = 0x4160_0000;

/// The bits of the default ripple radius, 42.
pub const RIPPLE_RADIUS_BITS: u32 = 0x4228_0000;

impl CursorStyle {
    /// The style that a recording has where nothing else is asked for.
    pub open spec fn standard(self) -> bool {
        &&& self.hl_rgba@ == seq![255u8, 210u8, 0u8, 255u8]
        &&& self.hl_radius.bits == HL_RADIUS_BITS
        &&& self.ripple_rgba@ == seq![255u8, 255u8, 255u8, 255u8]
        &&& self.ripple_radius.bits == RIPPLE_RADIUS_BITS
        &&& self.ripple_ms == 600
        &&& !self.additive
    }
}

impl Default for CursorStyle {
    fn default() -> (r: Self)
        ensures
            r.standard(),
    {
        Self {
            hl_rgba: [255, 210, 0, 255],
            hl_radius: F32 { bits: HL_RADIUS_BITS },
            ripple_rgba: [255, 255, 255, 255],
            ripple_radius: F32 { bits: RIPPLE_RADIUS_BITS },
            ripple_ms: 600,
            additive: false,
        }
    }
}

/// Cursor highlight ring and click ripple burned into the feed.
#[derive(Debug, Clone, Copy, PartialEq, Eq)]
pub struct CursorFx {
    pub highlight: bool,
    pub ripple: bool,
    pub style: CursorStyle,
}

impl Default for CursorFx {
    fn default() -> (r: Self)
        ensures
            !r.highlight,
            !r.ripple,
            r.style.standard(),
    {
        Self { highlight: false, ripple: false, style: CursorStyle::default() }
    }
}

impl CursorFx {
    /// The effects asked for, in the default style; `None` where none is.
    pub fn opt(highlight: bool, ripple: bool) -> (r: Option<Self>)
        ensures
            r is Some <==> highlight || ripple,
            r matches Some(fx) ==> fx.highlight == highlight && fx.ripple == ripple
                && fx.style.standard(),
    {
        Self::opt_with(highlight, ripple, CursorStyle::default())
    }

    /// The effects asked for, in the given style; `None` where none is.
    pub fn opt_with(highlight: bool, ripple: bool, style: CursorStyle) -> (r: Option<Self>)
        ensures
            r == (if highlight || ripple {
                Some(CursorFx { highlight, ripple, style })
            } else {
                None
            }),
    {
        if highlight || ripple {
            Some(Self { highlight, ripple, style })
        } else {
            None
        }
    }

    pub fn is_off(&self) -> (r: bool)
        ensures
            r == (!self.highlight && !self.ripple),
    {
        !self.highlight && !self.ripple
    }
}

/// Control-plane messages.
#[derive(Debug, Clone, PartialEq, Eq)]
pub enum ControlMsg {
    StartRecording { target: CaptureTarget, output: String },
    StopRecording,
    SetRegion(Rect),
    SetMicGain(F32),
    SetSystemGain(F32),
    SetMicMuted(bool),
    SetSystemMuted(bool),
}

#[derive(Debug, Clone, PartialEq, Eq)]
pub struct AudioDeviceInfo {
    pub name: String,
    pub is_input: bool,
    pub is_loopback: bool,
}

#[derive(Debug, Clone, Copy, PartialEq, Eq, Structural)]
pub enum CoreError {
    InvalidRect(Rect),
    UnsupportedCanvas { w: u32, h: u32, fps: u32 },
}

impl CoreError {
    /// The text of the error.
    pub open spec fn text(self) -> Seq<char> {
        match self {
            CoreError::InvalidRect(r) => "invalid rect Rect { x: "@ + text::decimal_int(r.x as int)
                + ", y: "@ + text::decimal_int(r.y as int) + ", w: "@ + text::decimal(r.w as nat) + ", h: "@
                + text::decimal(r.h as nat) + " }: width/height must be > 0"@,
            CoreError::UnsupportedCanvas { w, h, fps } => "unsupported canvas "@ + text::decimal(
                w as nat,
            ) + "x"@ + text::decimal(h as nat) + "@ "@ + text::decimal(fps as nat) + "fps"@,
        }
    }

    /// The text of the error, for the user.
    pub fn message(&self) -> (s: String)
        ensures
            s@ == self.text(),
    {
        match self {
            CoreError::InvalidRect(r) => {
                let mut s = "invalid rect Rect { x: ".to_owned();
                s.append(decimal_int_text(r.x).as_str());
                s.append(", y: ");
                s.append(decimal_int_text(r.y).as_str());
                s.append(", w: ");
                s.append(decimal_text(r.w as u64).as_str());
                s.append(", h: ");
                s.append(decimal_text(r.h as u64).as_str());
                s.append(" }: width/height must be > 0");
                s
            },
            CoreError::UnsupportedCanvas { w, h, fps } => {
                let mut s = "unsupported canvas ".to_owned();
                s.append(decimal_text(*w as u64).as_str());
                s.append("x");
                s.append(decimal_text(*h as u64).as_str());
                s.append("@ ");
                s.append(decimal_text(*fps as u64).as_str());
                s.append("fps");
                s
            },
        }
    }
}

/// Accepts a rectangle with at least one pixel.
pub fn validate_rect(r: Rect) -> (res: Result<(), CoreError>)
    ensures
        res == (if r.empty() {
            Err::<(), CoreError>(CoreError::InvalidRect(r))
        } else {
            Ok(())
        }),
{
    if r.is_empty() {
        return Err(CoreError::InvalidRect(r));
    }
    Ok(())
}

// ---------------------------------------------------------------------------
// What holds on every input
// ---------------------------------------------------------------------------

/// A rectangle without width or without height is empty, and no other.
pub proof fn law_empty_rectangles(r: Rect)
    ensures
        r.empty() <==> r.w as int * r.h as int == 0,
{
    assert((r.w as int * r.h as int == 0) <==> (r.w == 0 || r.h == 0)) by (nonlinear_arith);
}

/// A canvas is width, height and frame rate.
pub proof fn law_canvas_fields(w: u32, h: u32, fps: u32)
    ensures
        canvas_of(w, h, fps).width == w,
        canvas_of(w, h, fps).height == h,
        canvas_of(w, h, fps).fps == fps,
{
}

/// Each system has its own way to capture.
pub proof fn law_recommended_capture(os: Os)
    ensures
        CaptureMethod::recommended(os) == CaptureMethod::WindowsWgc <==> os == Os::Windows,
        CaptureMethod::recommended(os) == CaptureMethod::MacScreenCaptureKit <==> os == Os::MacOs,
        CaptureMethod::recommended(os) == CaptureMethod::LinuxPortalPipeWire <==> os == Os::Linux,
        CaptureMethod::recommended(os) == CaptureMethod::FallbackXcap <==> os == Os::Other,
{
}

/// Containers go by their usual extensions.
pub proof fn law_extensions(c: Container)
    ensures
        c.ext().len() == 3,
        c.ext()[0] == 'm',
        c.ext() == seq!['m', 'p', '4'] <==> c == Container::Mp4,
        c.ext() == seq!['m', 'k', 'v'] <==> c == Container::Mkv,
        c.ext() == seq!['m', 'o', 'v'] <==> c == Container::Mov,
{
    reveal_strlit("mp4");
    reveal_strlit("mkv");
    reveal_strlit("mov");
    assert("mp4"@ =~= seq!['m', 'p', '4']);
    assert("mkv"@ =~= seq!['m', 'k', 'v']);
    assert("mov"@ =~= seq!['m', 'o', 'v']);
    assert(seq!['m', 'p', '4'][1] == 'p' && seq!['m', 'k', 'v'][1] == 'k' && seq!['m', 'o', 'v'][1]
        == 'o');
}

/// The label of an encoder begins with its codec.
pub proof fn law_encoder_labels(k: EncoderKind)
    ensures
        k == EncoderKind::H264Nvenc ==> k.label_spec() == "H264Nvenc"@,
        k == EncoderKind::HevcNvenc ==> k.label_spec() == "HevcNvenc"@,
        k == EncoderKind::H264Amf ==> k.label_spec() == "H264Amf"@,
        k == EncoderKind::H264Qsv ==> k.label_spec() == "H264Qsv"@,
        k == EncoderKind::HevcQsv ==> k.label_spec() == "HevcQsv"@,
        k == EncoderKind::Av1Qsv ==> k.label_spec() == "Av1Qsv"@,
        k == EncoderKind::LibX264 ==> k.label_spec() == "LibX264"@,
        k == EncoderKind::Auto ==> k.label_spec() == "Auto"@,
        k == EncoderKind::H264VideoToolbox ==> k.label_spec() == "H264VideoToolbox"@,
        k == EncoderKind::H264MediaFoundation ==> k.label_spec() == "H264MediaFoundation"@,
{
}

/// The usual marks: an amber highlight of 14 pixels and white ripples of 42 pixels
/// that live 600 ms, blended over the picture.
pub proof fn law_usual_marks(s: CursorStyle)
    requires
        s.standard(),
    ensures
        s.hl_rgba@ == seq![255u8, 210u8, 0u8, 255u8],
        s.ripple_rgba@ == seq![255u8, 255u8, 255u8, 255u8],
        s.hl_radius.bits == 0x4160_0000,
        s.ripple_radius.bits == 0x4228_0000,
        s.ripple_ms == 600,
        !s.additive,
{
}

/// What the errors of the settings say, with every number in its place.
pub proof fn law_core_errors(r: Rect, w: u32, h: u32, fps: u32)
    ensures
        CoreError::InvalidRect(r).text() == "invalid rect Rect { x: "@ + text::decimal_int(
            r.x as int,
        ) + ", y: "@ + text::decimal_int(r.y as int) + ", w: "@ + text::decimal(r.w as nat)
            + ", h: "@ + text::decimal(r.h as nat) + " }: width/height must be > 0"@,
        (CoreError::UnsupportedCanvas { w, h, fps }).text() == "unsupported canvas "@
            + text::decimal(w as nat) + "x"@ + text::decimal(h as nat) + "@ "@ + text::decimal(
            fps as nat,
        ) + "fps"@,
{
}

} // verus!
