//! Displays, windows, regions and the rhythm of capture.
//!
//! What the operating system lists and delivers comes in as plain values; the
//! functions here decide what is captured, at which size and when.

use crate::search;
use crate::text;
use crate::text::{contains, decimal_text, join2, join3, to_chars, to_lower};
use crate::single::{F32, ZERO_BITS};
use crate::types::{
    validate_rect, CanvasConfig, CaptureMethod, CaptureTarget, DisplayInfo, Rect, WindowInfo,
};
use vstd::prelude::*;

verus! {

#[derive(Debug, Clone, PartialEq, Eq)]
pub enum CaptureError {
    NoDisplays,
    DisplayNotFound(u32),
    Backend(String),
    /// The display enumeration failed; it says why.
    DisplayInfo(String),
}

/// What a `CaptureError` says.
pub enum CaptureErrorView {
    NoDisplays,
    DisplayNotFound(u32),
    Backend(Seq<char>),
    DisplayInfo(Seq<char>),
}

impl View for CaptureError {
    type V = CaptureErrorView;

    open spec fn view(&self) -> CaptureErrorView {
        match self {
            CaptureError::NoDisplays => CaptureErrorView::NoDisplays,
            CaptureError::DisplayNotFound(n) => CaptureErrorView::DisplayNotFound(*n),
            CaptureError::Backend(m) => CaptureErrorView::Backend(m@),
            CaptureError::DisplayInfo(m) => CaptureErrorView::DisplayInfo(m@),
        }
    }
}

/// An outcome by the views of its error.
pub open spec fn outcome<T>(r: Result<T, CaptureError>) -> Result<T, CaptureErrorView> {
    match r {
        Ok(v) => Ok(v),
        Err(e) => Err(e@),
    }
}

impl CaptureError {
    /// The text of the error.
    pub open spec fn text(self) -> Seq<char> {
        match self {
            CaptureError::NoDisplays => "no displays found"@,
            CaptureError::DisplayNotFound(n) => "display "@ + text::decimal(n as nat)
                + " not found"@,
            CaptureError::Backend(m) => "capture backend failed: "@ + m@,
            CaptureError::DisplayInfo(m) => m@,
        }
    }

    /// The text of the error, for the user.
    pub fn message(&self) -> (s: String)
        ensures
            s@ == self.text(),
    {
        match self {
            CaptureError::NoDisplays => "no displays found".to_owned(),
            CaptureError::DisplayNotFound(n) => {
                join3("display ", decimal_text(*n as u64).as_str(), " not found")
            },
            CaptureError::Backend(m) => join2("capture backend failed: ", m.as_str()),
            CaptureError::DisplayInfo(m) => m.clone(),
        }
    }
}

fn backend(m: &str) -> (e: CaptureError)
    ensures
        e@ == CaptureErrorView::Backend(m@),
{
    CaptureError::Backend(m.to_owned())
}

/// The description of a captured frame.
#[derive(Debug, Clone, Copy, PartialEq, Eq, Structural)]
pub struct CapturedFrame {
    pub width: u32,
    pub height: u32,
    /// Nanoseconds since recording start.
    pub pts_ns: u64,
    pub screen_id: u32,
}

/// A capture backend.
pub trait Capturer: Send {
    /// Is it capturing?
    spec fn running(&self) -> bool;

    fn method(&self) -> CaptureMethod;

    fn start(&mut self, target: CaptureTarget) -> (r: Result<(), CaptureError>)
        ensures
            r is Ok ==> final(self).running(),
    ;

    fn stop(&mut self)
        ensures
            !final(self).running(),
    ;

    fn is_running(&self) -> (r: bool)
        ensures
            r == self.running(),
    ;
}

/// A capturer that captures nothing, for running the pipeline without a screen.
pub struct DummyCapturer {
    pub running: bool,
    pub target: Option<CaptureTarget>,
}

impl DummyCapturer {
    pub fn new() -> (r: Self)
        ensures
            !r.running,
            r.target is None,
    {
        Self { running: false, target: None }
    }
}

impl Default for DummyCapturer {
    fn default() -> (r: Self)
        ensures
            !r.running,
            r.target is None,
    {
        Self::new()
    }
}

impl Capturer for DummyCapturer {
    open spec fn running(&self) -> bool {
        self.running
    }

    fn method(&self) -> (r: CaptureMethod)
        ensures
            r == CaptureMethod::FallbackXcap,
    {
        CaptureMethod::FallbackXcap
    }

    fn start(&mut self, target: CaptureTarget) -> (r: Result<(), CaptureError>)
        ensures
            r is Ok,
            final(self).target == Some(target),
    {
        self.target = Some(target);
        self.running = true;
        Ok(())
    }

    fn stop(&mut self)
        ensures
            final(self).target == old(self).target,
    {
        self.running = false;
    }

    fn is_running(&self) -> (r: bool) {
        self.running
    }
}

// ---------------------------------------------------------------------------
// Displays
// ---------------------------------------------------------------------------

/// A display as the operating system describes it.
pub struct RawDisplay {
    pub id: u32,
    pub name: String,
    pub friendly_name: String,
    pub x: i32,
    pub y: i32,
    pub width: u32,
    pub height: u32,
    pub scale_factor: F32,
    /// Refresh rate in Hz, and the same rounded to a whole number.
    pub frequency: F32,
    pub frequency_rounded: u32,
    pub is_primary: bool,
}

impl RawDisplay {
    /// Is `d` the description of this display?
    pub open spec fn described_by(self, d: DisplayInfo) -> bool {
        &&& d.id == self.id
        &&& d.name@ == (if self.friendly_name@.len() == 0 {
            self.name@
        } else {
            self.friendly_name@
        })
        &&& d.x == self.x
        &&& d.y == self.y
        &&& d.width == self.width
        &&& d.height == self.height
        &&& d.scale_factor == self.scale_factor
        &&& d.is_primary == self.is_primary
        &&& d.refresh_hz == (if (F32 { bits: ZERO_BITS }).below(self.frequency) {
            Some(self.frequency_rounded)
        } else {
            None
        })
    }
}

fn describe(d: &RawDisplay) -> (r: DisplayInfo)
    ensures
        d.described_by(r),
{
    DisplayInfo {
        id: d.id,
        name: if d.friendly_name.as_str().is_empty() {
            d.name.clone()
        } else {
            d.friendly_name.clone()
        },
        x: d.x,
        y: d.y,
        width: d.width,
        height: d.height,
        scale_factor: d.scale_factor,
        is_primary: d.is_primary,
        refresh_hz: if (F32 { bits: ZERO_BITS }).less(d.frequency) {
            Some(d.frequency_rounded)
        } else {
            None
        },
    }
}

/// Describes the displays that the operating system listed, or passes on why it
/// could not list them. A system without displays is an error.
pub fn list_displays(listed: Result<Vec<RawDisplay>, String>) -> (r: Result<
    Vec<DisplayInfo>,
    CaptureError,
>)
    ensures
        match listed {
            Err(m) => r matches Err(e) && e@ == CaptureErrorView::DisplayInfo(m@),
            Ok(raw) => if raw@.len() == 0 {
                r matches Err(e) && e@ == CaptureErrorView::NoDisplays
            } else {
                r matches Ok(ds) && ds@.len() == raw@.len() && forall|i: int|
                    0 <= i < raw@.len() ==> (#[trigger] raw@[i]).described_by(ds@[i])
            },
        },
{
    let raw = match listed {
        Ok(v) => v,
        Err(m) => {
            return Err(CaptureError::DisplayInfo(m));
        },
    };
    if raw.len() == 0 {
        return Err(CaptureError::NoDisplays);
    }
    let mut out: Vec<DisplayInfo> = Vec::new();
    let mut i: usize = 0;
    while i < raw.len()
        invariant
            i <= raw@.len(),
            out@.len() == i,
            forall|k: int| 0 <= k < i ==> (#[trigger] raw@[k]).described_by(out@[k]),
        decreases raw@.len() - i,
    {
        out.push(describe(&raw[i]));
        i += 1;
    }
    Ok(out)
}

/// Maps a screen position (0 is the primary) to the native monitor index, which
/// counts from 1. Both enumerations are primary-first.
pub fn wgc_monitor_index(screen_0based: u32) -> (r: usize)
    requires
        screen_0based < usize::MAX,
    ensures
        r == screen_0based + 1,
{
    screen_0based as usize + 1
}

/// Is it the primary display?
pub open spec fn primary() -> spec_fn(DisplayInfo) -> bool {
    |d: DisplayInfo| d.is_primary
}

/// Has the display this identifier?
pub open spec fn with_id(id: u32) -> spec_fn(DisplayInfo) -> bool {
    |d: DisplayInfo| d.id == id
}

/// The display at a screen position: position 0 is the primary one, or the first
/// where none is marked primary.
pub open spec fn display_at(ds: Seq<DisplayInfo>, screen: nat) -> Option<DisplayInfo> {
    if screen == 0 {
        match search::find_where(ds, primary()) {
            Some(d) => Some(d),
            None => if ds.len() > 0 {
                Some(ds[0])
            } else {
                None
            },
        }
    } else if screen < ds.len() {
        Some(ds[screen as int])
    } else {
        None
    }
}

/// The index of the display at a screen position.
pub fn display_index(ds: &Vec<DisplayInfo>, screen: usize) -> (r: Option<usize>)
    ensures
        match r {
            Some(i) => i < ds@.len() && display_at(ds@, screen as nat) == Some(ds@[i as int]),
            None => display_at(ds@, screen as nat) is None,
        },
{
    if screen == 0 {
        let mut i: usize = 0;
        while i < ds.len()
            invariant
                screen == 0,
                i <= ds@.len(),
                forall|k: int| 0 <= k < i ==> !primary()(#[trigger] ds@[k]),
            decreases ds@.len() - i,
        {
            if ds[i].is_primary {
                proof {
                    assert(primary()(ds@[i as int]));
                    search::lemma_first_where(ds@, primary(), i as int);
                }
                return Some(i);
            }
            i += 1;
        }
        proof {
            search::lemma_first_where(ds@, primary(), i as int);
        }
        if ds.len() > 0 {
            Some(0)
        } else {
            None
        }
    } else if screen < ds.len() {
        Some(screen)
    } else {
        None
    }
}

/// The virtual-screen origin of a native monitor, which counts from 1: the place
/// of the display at the position before, or (0, 0) where there is none.
pub open spec fn origin_of(ds: Option<Seq<DisplayInfo>>, monitor_1based: nat) -> (i32, i32) {
    let screen = if monitor_1based == 0 {
        0
    } else {
        (monitor_1based - 1) as nat
    };
    match ds {
        Some(list) => match display_at(list, screen) {
            Some(d) => (d.x, d.y),
            None => (0, 0),
        },
        None => (0, 0),
    }
}

/// Virtual-screen origin of a native monitor. `displays` is `None` where they
/// could not be listed.
pub fn monitor_origin(displays: Option<&Vec<DisplayInfo>>, monitor_1based: usize) -> (r: (i32, i32))
    ensures
        r == origin_of(
            match displays {
                Some(v) => Some(v@),
                None => None,
            },
            monitor_1based as nat,
        ),
{
    let screen: usize = monitor_1based.saturating_sub(1);
    match displays {
        Some(ds) => match display_index(ds, screen) {
            Some(i) => (ds[i].x, ds[i].y),
            None => (0, 0),
        },
        None => (0, 0),
    }
}

/// The origin of the monitor behind a screen position is the place of the
/// display at that position.
pub proof fn law_monitor_of_screen(ds: Seq<DisplayInfo>, screen: u32)
    ensures
        display_at(ds, screen as nat) matches Some(d) ==> origin_of(Some(ds), (screen + 1) as nat)
            == (d.x, d.y),
        display_at(ds, screen as nat) is None ==> origin_of(Some(ds), (screen + 1) as nat) == (
            0i32,
            0i32,
        ),
{
}

/// Does the region lie wholly to the right of the display, or wholly below it?
/// Both are places on the virtual screen, on which the display begins at (x, y).
pub open spec fn outside(d: DisplayInfo, rect: Rect) -> bool {
    rect.x >= d.x + d.width || rect.y >= d.y + d.height
}

/// Does the region, as a place on the virtual screen, lie wholly to the right of
/// the display, or wholly below it?
pub fn region_outside(d: &DisplayInfo, rect: Rect) -> (r: bool)
    ensures
        r == outside(*d, rect),
{
    rect.x as i64 >= d.x as i64 + d.width as i64 || rect.y as i64 >= d.y as i64 + d.height as i64
}

/// Checks a region of the virtual screen against the listed displays: it must hold
/// a pixel, its display must be there, and it must not lie wholly to the right of
/// it or below it. What hangs over an edge is let through: the compositor clamps
/// it. The list is looked at only where the region is not empty.
pub fn validate_region(
    screen: u32,
    rect: Rect,
    displays: Result<Vec<DisplayInfo>, CaptureError>,
) -> (r: Result<(), CaptureError>)
    ensures
        outcome(r) == (if rect.empty() {
            Err::<(), CaptureErrorView>(CaptureErrorView::Backend("empty region"@))
        } else {
            match displays {
                Err(e) => Err(e@),
                Ok(ds) => match search::find_where(ds@, with_id(screen)) {
                    Some(d) => if outside(d, rect) {
                        Err(CaptureErrorView::Backend("region fully outside display"@))
                    } else {
                        Ok(())
                    },
                    None => Err(CaptureErrorView::DisplayNotFound(screen)),
                },
            }
        }),
{
    if validate_rect(rect).is_err() {
        return Err(backend("empty region"));
    }
    let ds = match displays {
        Ok(v) => v,
        Err(e) => {
            return Err(e);
        },
    };
    let mut i: usize = 0;
    while i < ds.len()
        invariant
            !rect.empty(),
            displays == Ok::<Vec<DisplayInfo>, CaptureError>(ds),
            i <= ds@.len(),
            forall|k: int| 0 <= k < i ==> !with_id(screen)(#[trigger] ds@[k]),
        decreases ds@.len() - i,
    {
        if ds[i].id == screen {
            proof {
                assert(with_id(screen)(ds@[i as int]));
                search::lemma_first_where(ds@, with_id(screen), i as int);
            }
            if region_outside(&ds[i], rect) {
                return Err(backend("region fully outside display"));
            }
            return Ok(());
        }
        i += 1;
    }
    proof {
        search::lemma_first_where(ds@, with_id(screen), i as int);
    }
    Err(CaptureError::DisplayNotFound(screen))
}

// ---------------------------------------------------------------------------
// Windows
// ---------------------------------------------------------------------------

/// A window as the operating system describes it; `None` where a query failed.
pub struct RawWindow {
    pub id: Option<u32>,
    /// Identifies the window where it has no identifier of its own.
    pub fallback_id: i64,
    pub title: Option<String>,
    pub app_name: Option<String>,
    pub x: Option<i32>,
    pub y: Option<i32>,
    pub width: Option<u32>,
    pub height: Option<u32>,
    pub minimized: Option<bool>,
}

/// The characters of a text that may be missing.
pub open spec fn text_or_empty(t: Option<String>) -> Seq<char> {
    match t {
        Some(s) => s@,
        None => Seq::empty(),
    }
}

impl RawWindow {
    /// Has the window a title?
    pub open spec fn titled(self) -> bool {
        text_or_empty(self.title).len() > 0
    }

    /// Is `w` the description of this window?
    pub open spec fn described_by(self, w: WindowInfo) -> bool {
        &&& w.id == (match self.id {
            Some(id) => id as i64,
            None => self.fallback_id,
        })
        &&& w.title@ == text_or_empty(self.title)
        &&& w.app_name@ == text_or_empty(self.app_name)
        &&& w.x == (match self.x {
            Some(v) => v,
            None => 0,
        })
        &&& w.y == (match self.y {
            Some(v) => v,
            None => 0,
        })
        &&& w.width == (match self.width {
            Some(v) => v,
            None => 0,
        })
        &&& w.height == (match self.height {
            Some(v) => v,
            None => 0,
        })
        &&& w.minimized == (match self.minimized {
            Some(v) => v,
            None => false,
        })
    }
}

/// Are `shown` the descriptions of just the titled windows, in their order?
pub open spec fn titled_windows(raw: Seq<RawWindow>, shown: Seq<WindowInfo>) -> bool
    decreases raw.len(),
{
    if raw.len() == 0 {
        shown.len() == 0
    } else if raw.last().titled() {
        &&& shown.len() > 0
        &&& raw.last().described_by(shown.last())
        &&& titled_windows(raw.drop_last(), shown.drop_last())
    } else {
        titled_windows(raw.drop_last(), shown)
    }
}

fn owned_or_empty(t: &Option<String>) -> (s: String)
    ensures
        s@ == text_or_empty(*t),
{
    match t {
        Some(s) => s.clone(),
        None => String::new(),
    }
}

/// Describes the windows that the operating system listed. Windows without a
/// title are left out.
pub fn list_windows(listed: Result<Vec<RawWindow>, String>) -> (r: Result<
    Vec<WindowInfo>,
    CaptureError,
>)
    ensures
        match listed {
            Err(m) => r matches Err(e) && e@ == CaptureErrorView::Backend(m@),
            Ok(raw) => r matches Ok(ws) && titled_windows(raw@, ws@),
        },
{
    let raw = match listed {
        Ok(v) => v,
        Err(m) => {
            return Err(CaptureError::Backend(m));
        },
    };
    let mut out: Vec<WindowInfo> = Vec::new();
    let mut i: usize = 0;
    while i < raw.len()
        invariant
            i <= raw@.len(),
            titled_windows(raw@.take(i as int), out@),
        decreases raw@.len() - i,
    {
        let w = &raw[i];
        let ghost before = out@;
        assert(raw@.take(i + 1).drop_last() == raw@.take(i as int));
        assert(raw@.take(i + 1).last() == raw@[i as int]);
        let title = owned_or_empty(&w.title);
        if !title.as_str().is_empty() {
            let info = WindowInfo {
                id: match w.id {
                    Some(id) => id as i64,
                    None => w.fallback_id,
                },
                title,
                app_name: owned_or_empty(&w.app_name),
                x: w.x.unwrap_or(0),
                y: w.y.unwrap_or(0),
                width: w.width.unwrap_or(0),
                height: w.height.unwrap_or(0),
                minimized: w.minimized.unwrap_or(false),
            };
            out.push(info);
            assert(out@.drop_last() == before);
        }
        i += 1;
    }
    assert(raw@.take(raw@.len() as int) == raw@);
    Ok(out)
}

/// Does the title contain the wanted text, whatever the letter case?
pub open spec fn title_matches(needle: Seq<char>) -> spec_fn(Option<String>) -> bool {
    |t: Option<String>|
        match t {
            Some(s) => text::has_part(text::lowercase(s@), text::lowercase(needle)),
            None => false,
        }
}

/// The first window whose title contains `needle`, whatever the letter case.
pub fn find_window(titles: &Vec<Option<String>>, needle: &str) -> (r: Result<usize, CaptureError>)
    ensures
        match r {
            Ok(i) => i < titles@.len() && i == search::first_where(
                titles@,
                title_matches(needle@),
            ),
            Err(e) => search::first_where(titles@, title_matches(needle@)) == titles@.len() && e@
                == CaptureErrorView::Backend("no window matching '"@ + needle@ + "'"@),
        },
{
    let want = to_chars(to_lower(needle).as_str());
    let mut i: usize = 0;
    while i < titles.len()
        invariant
            i <= titles@.len(),
            want@ == text::lowercase(needle@),
            forall|k: int| 0 <= k < i ==> !title_matches(needle@)(#[trigger] titles@[k]),
        decreases titles@.len() - i,
    {
        if let Some(t) = &titles[i] {
            let have = to_chars(to_lower(t.as_str()).as_str());
            if contains(have.as_slice(), want.as_slice()) {
                proof {
                    assert(title_matches(needle@)(titles@[i as int]));
                    search::lemma_first_where(titles@, title_matches(needle@), i as int);
                }
                return Ok(i);
            }
        }
        i += 1;
    }
    proof {
        search::lemma_first_where(titles@, title_matches(needle@), i as int);
    }
    Err(CaptureError::Backend(join3("no window matching '", needle, "'")))
}

/// The even number at or just below `n`.
pub open spec fn even(n: u32) -> u32 {
    (n - n % 2) as u32
}

fn even_of(n: u32) -> (r: u32)
    ensures
        r == even(n),
{
    n - n % 2
}

/// A window edge: a guess where it is unknown, and never below 64 pixels.
pub open spec fn window_edge(edge: Option<i32>, guess: u32) -> u32 {
    match edge {
        Some(v) => if v < 64 {
            64
        } else {
            v as u32
        },
        None => guess,
    }
}

fn edge_or(edge: Option<i32>, guess: u32) -> (r: u32)
    ensures
        r == window_edge(edge, guess),
{
    match edge {
        Some(v) => if v < 64 {
            64
        } else {
            v as u32
        },
        None => guess,
    }
}

/// A window to record: its likely feed size, and the handle by which the cursor
/// is mapped while the window moves.
#[derive(Debug, Clone, Copy, PartialEq, Eq, Structural)]
pub struct ResolvedWindow {
    pub w: u32,
    pub h: u32,
    pub hwnd: isize,
}

/// Resolves the window that a title search found: its width and height, where
/// they are known, and its handle, or why no window was found.
pub fn resolve_window(
    needle: &str,
    found: Result<(Option<i32>, Option<i32>, isize), &str>,
) -> (r: Result<ResolvedWindow, CaptureError>)
    ensures
        outcome(r) == (match found {
            Ok((w, h, hwnd)) => Ok::<ResolvedWindow, CaptureErrorView>(
                ResolvedWindow {
                    w: even(window_edge(w, 1280)),
                    h: even(window_edge(h, 720)),
                    hwnd,
                },
            ),
            Err(m) => Err(
                CaptureErrorView::Backend("no window matching '"@ + needle@ + "': "@ + m@),
            ),
        }),
{
    match found {
        Ok((w, h, hwnd)) => Ok(
            ResolvedWindow {
                w: even_of(edge_or(w, 1280)),
                h: even_of(edge_or(h, 720)),
                hwnd,
            },
        ),
        Err(e) => {
            let mut m = join3("no window matching '", needle, "': ");
            m.append(e);
            Err(CaptureError::Backend(m))
        },
    }
}

/// The feed size that a window recording starts with.
pub fn window_feed_size(
    needle: &str,
    found: Result<(Option<i32>, Option<i32>, isize), &str>,
) -> (r: Result<(u32, u32), CaptureError>)
    ensures
        outcome(r) == (match found {
            Ok((w, h, _)) => Ok::<(u32, u32), CaptureErrorView>(
                (even(window_edge(w, 1280)), even(window_edge(h, 720))),
            ),
            Err(m) => Err(
                CaptureErrorView::Backend("no window matching '"@ + needle@ + "': "@ + m@),
            ),
        }),
{
    match resolve_window(needle, found) {
        Ok(w) => Ok((w.w, w.h)),
        Err(e) => Err(e),
    }
}

/// A frozen picture of one monitor, tight RGBA.
#[derive(Debug, Clone, PartialEq, Eq)]
pub struct RgbaShot {
    pub data: Vec<u8>,
    pub width: u32,
    pub height: u32,
}

/// Accepts a picture that has pixels.
pub fn accept_shot(data: Vec<u8>, width: u32, height: u32) -> (r: Result<RgbaShot, CaptureError>)
    ensures
        outcome(r) == (if width == 0 || height == 0 {
            Err::<RgbaShot, CaptureErrorView>(
                CaptureErrorView::Backend("screenshot came back empty"@),
            )
        } else {
            Ok(RgbaShot { data, width, height })
        }),
{
    if width == 0 || height == 0 {
        return Err(backend("screenshot came back empty"));
    }
    Ok(RgbaShot { data, width, height })
}

// ---------------------------------------------------------------------------
// Feed sizes
// ---------------------------------------------------------------------------

/// The size at which a source is fed to the encoder: even, and at least 64
/// pixels each way.
pub open spec fn feed(w: u32, h: u32) -> Result<(u32, u32), CaptureErrorView> {
    if even(w) < 64 || even(h) < 64 {
        Err(
            CaptureErrorView::Backend(
                "capture feed too small after alignment (min 64x64 even)"@,
            ),
        )
    } else {
        Ok((even(w), even(h)))
    }
}

/// Aligns feed dimensions to even numbers, with a floor of 64 pixels.
pub fn feed_size(w: u32, h: u32) -> (r: Result<(u32, u32), CaptureError>)
    ensures
        outcome(r) == feed(w, h),
{
    let w = even_of(w);
    let h = even_of(h);
    if w < 64 || h < 64 {
        return Err(backend("capture feed too small after alignment (min 64x64 even)"));
    }
    Ok((w, h))
}

/// Where a span begins that must leave 64 pixels on a side of `native`.
pub open spec fn clamped_start(at: u32, native: u32) -> nat {
    let last = if native < 64 {
        0
    } else {
        native - 64
    };
    if at <= last {
        at as nat
    } else {
        last as nat
    }
}

/// The length of such a span: cut at the far edge, at least 64 pixels, even.
pub open spec fn clamped_length(at: u32, len: u32, native: u32) -> u32 {
    let room = native - clamped_start(at, native);
    let cut = if len <= room {
        len as int
    } else {
        room
    };
    even(
        if cut < 64 {
            64
        } else {
            cut as u32
        },
    )
}

fn clamp_span(at: u32, len: u32, native: u32) -> (r: (u32, u32))
    ensures
        r.0 == clamped_start(at, native),
        r.1 == clamped_length(at, len, native),
{
    let last: u32 = native.saturating_sub(64);
    let start: u32 = if at <= last {
        at
    } else {
        last
    };
    let room: u32 = native - start;
    let cut: u32 = if len <= room {
        len
    } else {
        room
    };
    (
        start,
        even_of(
            if cut < 64 {
                64
            } else {
                cut
            },
        ),
    )
}

/// Clamps a region to its monitor and rounds its size down to even numbers.
/// Returns x, y, width and height.
pub fn clamp_region(x: u32, y: u32, w: u32, h: u32, native_w: u32, native_h: u32) -> (r: (
    u32,
    u32,
    u32,
    u32,
))
    ensures
        r.0 == clamped_start(x, native_w),
        r.1 == clamped_start(y, native_h),
        r.2 == clamped_length(x, w, native_w),
        r.3 == clamped_length(y, h, native_h),
{
    let (cx, cw) = clamp_span(x, w, native_w);
    let (cy, ch) = clamp_span(y, h, native_h);
    (cx, cy, cw, ch)
}

/// A clamped region is even, at least 64 pixels each way, and lies within every
/// monitor that has room for it. One that lay there and was even stays.
pub proof fn law_clamped_region(at: u32, len: u32, native: u32)
    ensures
        clamped_length(at, len, native) >= 64,
        clamped_length(at, len, native) % 2 == 0,
        native >= 64 ==> clamped_start(at, native) + clamped_length(at, len, native) <= native,
        len >= 64 && len % 2 == 0 && at + len <= native ==> clamped_start(at, native) == at
            && clamped_length(at, len, native) == len,
{
}

/// The canvas of a recording: what was asked for, or the feed's own size.
pub open spec fn canvas_for(
    canvas: Option<(u32, u32)>,
    feed_w: u32,
    feed_h: u32,
    fps: u32,
) -> CanvasConfig {
    match canvas {
        Some((w, h)) => CanvasConfig { width: w, height: h, fps },
        None => CanvasConfig { width: feed_w, height: feed_h, fps },
    }
}

/// The canvas of a recording: what was asked for, or the feed's own size.
pub fn feed_canvas(canvas: Option<(u32, u32)>, feed_w: u32, feed_h: u32, fps: u32) -> (r:
    CanvasConfig)
    ensures
        r == canvas_for(canvas, feed_w, feed_h, fps),
{
    match canvas {
        Some((w, h)) => CanvasConfig { width: w, height: h, fps },
        None => CanvasConfig { width: feed_w, height: feed_h, fps },
    }
}

/// Accepts a frame rate from 1 to 240.
pub fn check_fps(fps: u32) -> (r: Result<(), CaptureError>)
    ensures
        outcome(r) == (if fps == 0 || fps > 240 {
            Err::<(), CaptureErrorView>(CaptureErrorView::Backend("--fps must be 1..240"@))
        } else {
            Ok(())
        }),
{
    if fps == 0 || fps > 240 {
        return Err(backend("--fps must be 1..240"));
    }
    Ok(())
}

/// What a capture run feeds to the encoder.
#[derive(Debug, Clone, Copy, PartialEq, Eq)]
pub struct FeedPlan {
    pub feed_w: u32,
    pub feed_h: u32,
    pub canvas: CanvasConfig,
    /// The rectangle (x, y, width, height) that is cut out of every frame.
    pub crop: Option<(u32, u32, u32, u32)>,
}

/// Plans the capture of a whole source, aligned where the backend needs it.
pub fn plan_source(
    w: u32,
    h: u32,
    align: bool,
    canvas: Option<(u32, u32)>,
    fps: u32,
) -> (r: Result<FeedPlan, CaptureError>)
    ensures
        outcome(r) == (match (if align {
            feed(w, h)
        } else {
            Ok((w, h))
        }) {
            Err(e) => Err::<FeedPlan, CaptureErrorView>(e),
            Ok((fw, fh)) => if fps == 0 || fps > 240 {
                Err(CaptureErrorView::Backend("--fps must be 1..240"@))
            } else {
                Ok(
                    FeedPlan {
                        feed_w: fw,
                        feed_h: fh,
                        canvas: canvas_for(canvas, fw, fh, fps),
                        crop: None,
                    },
                )
            },
        }),
{
    let (feed_w, feed_h) = if align {
        match feed_size(w, h) {
            Ok(p) => p,
            Err(e) => {
                return Err(e);
            },
        }
    } else {
        (w, h)
    };
    if let Err(e) = check_fps(fps) {
        return Err(e);
    }
    Ok(FeedPlan { feed_w, feed_h, canvas: feed_canvas(canvas, feed_w, feed_h, fps), crop: None })
}

/// Plans the capture of a region. The region fixes the output size, so that no
/// canvas may be asked for.
pub fn plan_region(
    x: u32,
    y: u32,
    w: u32,
    h: u32,
    native_w: u32,
    native_h: u32,
    canvas: Option<(u32, u32)>,
    fps: u32,
) -> (r: Result<FeedPlan, CaptureError>)
    ensures
        outcome(r) == (if canvas is Some {
            Err::<FeedPlan, CaptureErrorView>(
                CaptureErrorView::Backend(
                    "--region and --canvas are mutually exclusive (region already fixes output size)"@,
                ),
            )
        } else if fps == 0 || fps > 240 {
            Err(CaptureErrorView::Backend("--fps must be 1..240"@))
        } else {
            let cw = clamped_length(x, w, native_w);
            let ch = clamped_length(y, h, native_h);
            Ok(
                FeedPlan {
                    feed_w: cw,
                    feed_h: ch,
                    canvas: CanvasConfig { width: cw, height: ch, fps },
                    crop: Some(
                        (
                            clamped_start(x, native_w) as u32,
                            clamped_start(y, native_h) as u32,
                            cw,
                            ch,
                        ),
                    ),
                },
            )
        }),
{
    if canvas.is_some() {
        return Err(
            backend(
                "--region and --canvas are mutually exclusive (region already fixes output size)",
            ),
        );
    }
    if let Err(e) = check_fps(fps) {
        return Err(e);
    }
    let (cx, cy, cw, ch) = clamp_region(x, y, w, h, native_w, native_h);
    Ok(
        FeedPlan {
            feed_w: cw,
            feed_h: ch,
            canvas: CanvasConfig { width: cw, height: ch, fps },
            crop: Some((cx, cy, cw, ch)),
        },
    )
}

/// Plans the capture of a window by polling it: a guess where its size is
/// unknown, never below 64 pixels, even.
pub fn plan_window(
    w: Option<u32>,
    h: Option<u32>,
    canvas: Option<(u32, u32)>,
    fps: u32,
) -> (r: Result<FeedPlan, CaptureError>)
    ensures
        outcome(r) == (if fps == 0 || fps > 240 {
            Err::<FeedPlan, CaptureErrorView>(CaptureErrorView::Backend("--fps must be 1..240"@))
        } else {
            let fw = even(polled_edge(w, 1280));
            let fh = even(polled_edge(h, 720));
            Ok(
                FeedPlan {
                    feed_w: fw,
                    feed_h: fh,
                    canvas: canvas_for(canvas, fw, fh, fps),
                    crop: None,
                },
            )
        }),
{
    let ww: u32 = match w {
        Some(v) => if v < 64 {
            64
        } else {
            v
        },
        None => 1280,
    };
    let wh: u32 = match h {
        Some(v) => if v < 64 {
            64
        } else {
            v
        },
        None => 720,
    };
    plan_source(ww, wh, true, canvas, fps)
}

/// Plans the capture of a window that delivers its frames itself, at the size that
/// it has: a guess where that is unknown, never below 64 pixels.
pub fn plan_open_window(
    w: Option<i32>,
    h: Option<i32>,
    canvas: Option<(u32, u32)>,
    fps: u32,
) -> (r: Result<FeedPlan, CaptureError>)
    ensures
        outcome(r) == (if fps == 0 || fps > 240 {
            Err::<FeedPlan, CaptureErrorView>(CaptureErrorView::Backend("--fps must be 1..240"@))
        } else {
            let fw = window_edge(w, 1280);
            let fh = window_edge(h, 720);
            Ok(
                FeedPlan {
                    feed_w: fw,
                    feed_h: fh,
                    canvas: canvas_for(canvas, fw, fh, fps),
                    crop: None,
                },
            )
        }),
{
    plan_source(edge_or(w, 1280), edge_or(h, 720), false, canvas, fps)
}

/// An edge of a polled window.
pub open spec fn polled_edge(edge: Option<u32>, guess: u32) -> u32 {
    match edge {
        Some(v) => if v < 64 {
            64
        } else {
            v
        },
        None => guess,
    }
}

// ---------------------------------------------------------------------------
// The native recorder
// ---------------------------------------------------------------------------

/// What the native recorder is set up with.
#[derive(Debug, Clone, PartialEq, Eq)]
pub struct RecordFlags {
    pub output: String,
    pub width: u32,
    pub height: u32,
    pub fps: u32,
    pub bitrate_bps: u32,
    pub use_hevc: bool,
    /// Monitor-relative rectangle (x, y, width, height) that is cut out of every
    /// frame; the encoder is set up at its size.
    pub crop: Option<(u32, u32, u32, u32)>,
}

impl RecordFlags {
    /// Is the recorder set up as asked, apart from size, codec and crop?
    pub open spec fn common(self, output: Seq<char>, fps: u32, bitrate_kbps: u32) -> bool {
        &&& self.output@ == output
        &&& self.fps == fps
        &&& self.bitrate_bps == bitrate_kbps * 1000
    }
}

/// Plans the recording of a monitor at the canvas size, or at its own.
pub fn record_monitor(
    native_w: u32,
    native_h: u32,
    output: &str,
    fps: u32,
    bitrate_kbps: u32,
    canvas: Option<(u32, u32)>,
    use_hevc: bool,
) -> (r: Result<RecordFlags, CaptureError>)
    requires
        bitrate_kbps * 1000 <= u32::MAX,
    ensures
        ({
            let size = match canvas {
                Some(c) => c,
                None => (native_w, native_h),
            };
            if size.0 < 64 || size.1 < 64 {
                r matches Err(e) && e@ == CaptureErrorView::Backend("canvas too small (min 64x64)"@)
            } else {
                r matches Ok(f) && f.common(output@, fps, bitrate_kbps) && f.width == size.0
                    && f.height == size.1 && f.use_hevc == use_hevc && f.crop is None
            }
        }),
{
    let (width, height) = match canvas {
        Some(c) => c,
        None => (native_w, native_h),
    };
    if width < 64 || height < 64 {
        return Err(backend("canvas too small (min 64x64)"));
    }
    Ok(
        RecordFlags {
            output: output.to_owned(),
            width,
            height,
            fps,
            bitrate_bps: bitrate_kbps * 1000,
            use_hevc,
            crop: None,
        },
    )
}

/// Plans the recording of a monitor-relative region, clamped to the monitor and
/// rounded down to even numbers, in H.264.
pub fn record_region(
    native_w: u32,
    native_h: u32,
    x: u32,
    y: u32,
    w: u32,
    h: u32,
    output: &str,
    fps: u32,
    bitrate_kbps: u32,
) -> (f: RecordFlags)
    requires
        bitrate_kbps * 1000 <= u32::MAX,
    ensures
        f.common(output@, fps, bitrate_kbps),
        f.width == clamped_length(x, w, native_w),
        f.height == clamped_length(y, h, native_h),
        !f.use_hevc,
        f.crop == Some(
            (
                clamped_start(x, native_w) as u32,
                clamped_start(y, native_h) as u32,
                f.width,
                f.height,
            ),
        ),
{
    let (cx, cy, cw, ch) = clamp_region(x, y, w, h, native_w, native_h);
    RecordFlags {
        output: output.to_owned(),
        width: cw,
        height: ch,
        fps,
        bitrate_bps: bitrate_kbps * 1000,
        use_hevc: false,
        crop: Some((cx, cy, cw, ch)),
    }
}

/// Plans the recording of a window, at its size where that is known.
pub fn record_window_title(
    w: Option<i32>,
    h: Option<i32>,
    output: &str,
    fps: u32,
    bitrate_kbps: u32,
) -> (f: RecordFlags)
    requires
        bitrate_kbps * 1000 <= u32::MAX,
    ensures
        f.common(output@, fps, bitrate_kbps),
        f.width == window_edge(w, 1280),
        f.height == window_edge(h, 720),
        !f.use_hevc,
        f.crop is None,
{
    RecordFlags {
        output: output.to_owned(),
        width: edge_or(w, 1280),
        height: edge_or(h, 720),
        fps,
        bitrate_bps: bitrate_kbps * 1000,
        use_hevc: false,
        crop: None,
    }
}

// ---------------------------------------------------------------------------
// What holds on every input
// ---------------------------------------------------------------------------

/// Screen 0 is the first primary display, or the first of all where none is primary;
/// any other screen is the display at its place in the list.
pub proof fn law_screens(ds: Seq<DisplayInfo>, screen: nat, i: int)
    ensures
        0 < screen < ds.len() ==> display_at(ds, screen) == Some(ds[screen as int]),
        screen >= ds.len() && screen > 0 ==> display_at(ds, screen) is None,
        display_at(ds, 0) is None <==> ds.len() == 0,
        0 <= i < ds.len() && ds[i].is_primary ==> (display_at(ds, 0) matches Some(d)
            && d.is_primary),
        0 <= i < ds.len() && ds[i].is_primary && (forall|k: int|
            0 <= k < i ==> !(#[trigger] ds[k]).is_primary) ==> display_at(ds, 0) == Some(ds[i]),
        ds.len() > 0 && (forall|k: int| 0 <= k < ds.len() ==> !(#[trigger] ds[k]).is_primary)
            ==> display_at(ds, 0) == Some(ds[0]),
{
    if 0 <= i < ds.len() && ds[i].is_primary {
        search::law_find_where(ds, primary(), i);
        if forall|k: int| 0 <= k < i ==> !(#[trigger] ds[k]).is_primary {
            assert forall|k: int| 0 <= k < i implies !primary()(#[trigger] ds[k]) by {}
        }
    }
    if forall|k: int| 0 <= k < ds.len() ==> !(#[trigger] ds[k]).is_primary {
        assert forall|k: int| 0 <= k < ds.len() implies !primary()(#[trigger] ds[k]) by {}
        search::law_find_nowhere(ds, primary());
    }
    search::law_find_nowhere(ds, primary());
}

/// Monitors count from one: the first is screen 0, and so is a monitor that is not
/// given. A monitor that is not there begins at the origin.
pub proof fn law_monitors_count_from_one(ds: Seq<DisplayInfo>, n: nat)
    ensures
        n > 0 && display_at(ds, (n - 1) as nat) is Some ==> origin_of(Some(ds), n) == (display_at(
            ds,
            (n - 1) as nat,
        )->0.x, display_at(ds, (n - 1) as nat)->0.y),
        origin_of(Some(ds), 0) == origin_of(Some(ds), 1),
        origin_of(None, n) == (0i32, 0i32),
{
}

/// A region that shares a pixel with the display is not refused, and one that is
/// refused begins at the right or the bottom edge or behind it.
pub proof fn law_regions_on_a_display(d: DisplayInfo, rect: Rect, px: int, py: int)
    ensures
        d.x <= px < d.x + d.width && d.y <= py < d.y + d.height && rect.x <= px < rect.x + rect.w
            && rect.y <= py < rect.y + rect.h ==> !outside(d, rect),
        outside(d, rect) <==> rect.x - d.x >= d.width || rect.y - d.y >= d.height,
{
}

/// A display is described by its own values: the friendly name where it has one, and
/// a refresh rate where that is above zero.
pub proof fn law_described_display(raw: RawDisplay, d: DisplayInfo)
    requires
        raw.described_by(d),
    ensures
        d.id == raw.id,
        raw.friendly_name@.len() > 0 ==> d.name@ == raw.friendly_name@,
        raw.friendly_name@.len() == 0 ==> d.name@ == raw.name@,
        d.x == raw.x,
        d.y == raw.y,
        d.width == raw.width,
        d.height == raw.height,
        d.scale_factor == raw.scale_factor,
        d.is_primary == raw.is_primary,
        raw.frequency.bits == 0 ==> d.refresh_hz is None,
        0 < raw.frequency.bits <= 0x7f80_0000 ==> d.refresh_hz == Some(raw.frequency_rounded),
        raw.frequency.bits >= 0x8000_0000 ==> d.refresh_hz is None,
{
}

/// A window is described by its own values, with 0 for a place or a size that is not
/// known.
pub proof fn law_described_window(raw: RawWindow, w: WindowInfo)
    requires
        raw.described_by(w),
    ensures
        raw.id matches Some(id) ==> w.id == id,
        raw.id is None ==> w.id == raw.fallback_id,
        raw.title matches Some(t) ==> w.title@ == t@,
        raw.app_name matches Some(t) ==> w.app_name@ == t@,
        raw.app_name is None ==> w.app_name@.len() == 0,
        raw.x matches Some(v) ==> w.x == v,
        raw.y matches Some(v) ==> w.y == v,
        raw.width matches Some(v) ==> w.width == v,
        raw.height matches Some(v) ==> w.height == v,
        raw.minimized matches Some(v) ==> w.minimized == v,
        raw.x is None ==> w.x == 0,
        raw.y is None ==> w.y == 0,
        raw.width is None ==> w.width == 0,
        raw.height is None ==> w.height == 0,
        raw.minimized is None ==> !w.minimized,
{
}

/// The windows with a title are listed, in order, and no others.
pub proof fn law_titled_windows(raw: Seq<RawWindow>, shown: Seq<WindowInfo>, next: RawWindow, w: WindowInfo)
    requires
        titled_windows(raw, shown),
    ensures
        shown.len() <= raw.len(),
        raw.len() == 0 ==> shown.len() == 0,
        (next.title is None || next.title->0@.len() == 0) ==> titled_windows(raw.push(next), shown),
        next.title is Some && next.title->0@.len() > 0 && next.described_by(w) ==> titled_windows(
            raw.push(next),
            shown.push(w),
        ),
    decreases raw.len(),
{
    assert(raw.push(next).drop_last() =~= raw);
    assert(shown.push(w).drop_last() =~= shown);
    if raw.len() > 0 {
        if raw.last().titled() {
            law_titled_windows(raw.drop_last(), shown.drop_last(), next, w);
        } else {
            law_titled_windows(raw.drop_last(), shown, next, w);
        }
    }
}

/// Each window that is listed has a title, and each with a title is listed.
pub proof fn law_no_titled_window_is_lost(raw: Seq<RawWindow>, shown: Seq<WindowInfo>, i: int, j: int)
    requires
        titled_windows(raw, shown),
    ensures
        0 <= j < shown.len() ==> shown[j].title@.len() > 0,
        0 <= i < raw.len() && raw[i].title is Some && raw[i].title->0@.len() > 0 ==> exists|k: int|
            0 <= k < shown.len() && raw[i].described_by(#[trigger] shown[k]),
    decreases raw.len(),
{
    if raw.len() > 0 {
        if raw.last().titled() {
            law_no_titled_window_is_lost(raw.drop_last(), shown.drop_last(), i, j);
            assert(raw.last().described_by(shown[shown.len() - 1]));
            if 0 <= i < raw.len() - 1 && raw[i].title is Some && raw[i].title->0@.len() > 0 {
                let k = choose|k: int|
                    0 <= k < shown.drop_last().len() && raw.drop_last()[i].described_by(
                        #[trigger] shown.drop_last()[k],
                    );
                assert(raw[i].described_by(shown[k]));
            }
        } else {
            law_no_titled_window_is_lost(raw.drop_last(), shown, i, j);
            if 0 <= i < raw.len() - 1 {
                assert(raw.drop_last()[i] == raw[i]);
            }
        }
    }
}

/// A title matches where it holds the wanted text, whatever the letter case.
pub proof fn law_title_matches(t: String, needle: Seq<char>)
    ensures
        title_matches(needle)(Some(t)) <==> text::has_part(
            text::lowercase(t@),
            text::lowercase(needle),
        ),
        !title_matches(needle)(None),
{
}

/// An even number is the number itself or the one below it.
pub proof fn law_even(n: u32)
    ensures
        even(n) % 2 == 0,
        n - 1 <= even(n) <= n,
        n % 2 == 0 ==> even(n) == n,
{
}

/// A window's edge has 64 pixels at least, and is guessed where it is not known.
pub proof fn law_window_edges(v: i32, u: u32, guess: u32)
    ensures
        v >= 64 ==> window_edge(Some(v), guess) == v,
        v < 64 ==> window_edge(Some(v), guess) == 64,
        window_edge(None, guess) == guess,
        u >= 64 ==> polled_edge(Some(u), guess) == u,
        u < 64 ==> polled_edge(Some(u), guess) == 64,
        polled_edge(None, guess) == guess,
{
}

/// A feed is even, loses a pixel each way at most, and is refused below 64 pixels.
pub proof fn law_feed_is_even(w: u32, h: u32)
    ensures
        feed(w, h) is Ok <==> w >= 64 && h >= 64,
        feed(w, h) matches Ok((fw, fh)) ==> fw % 2 == 0 && fh % 2 == 0 && w - 1 <= fw <= w && h - 1
            <= fh <= h,
{
}

/// A region that sticks out begins where 64 pixels are left at least, and ends at the
/// edge but for an odd pixel.
pub proof fn law_region_is_pulled_in(at: u32, len: u32, native: u32)
    requires
        native >= 64,
    ensures
        at + 64 <= native ==> clamped_start(at, native) == at,
        at + 64 > native ==> clamped_start(at, native) == native - 64,
        len >= 64 && clamped_start(at, native) + len > native ==> native - 1 <= clamped_start(
            at,
            native,
        ) + clamped_length(at, len, native) <= native,
        len >= 64 && clamped_start(at, native) + len <= native ==> len - 1 <= clamped_length(
            at,
            len,
            native,
        ) <= len,
        len < 64 ==> clamped_length(at, len, native) == 64,
{
}

/// The canvas is the size that was asked for, or else the feed's, at the frame rate.
pub proof fn law_canvas_of_a_feed(asked: (u32, u32), w: u32, h: u32, fps: u32)
    ensures
        canvas_for(Some(asked), w, h, fps).width == asked.0,
        canvas_for(Some(asked), w, h, fps).height == asked.1,
        canvas_for(None, w, h, fps).width == w,
        canvas_for(None, w, h, fps).height == h,
        canvas_for(Some(asked), w, h, fps).fps == fps,
        canvas_for(None, w, h, fps).fps == fps,
{
}

/// The recorder gets the file, the frame rate and the bitrate in bits a second.
pub proof fn law_recorder_flags(f: RecordFlags, output: Seq<char>, fps: u32, kbps: u32)
    requires
        f.common(output, fps, kbps),
    ensures
        f.output@ == output,
        f.fps == fps,
        f.bitrate_bps == 1000 * kbps,
{
}

/// What the errors say.
pub proof fn law_capture_errors(e: CaptureError, n: u32)
    ensures
        e matches CaptureError::Backend(m) ==> e.text() == "capture backend failed: "@ + m@,
        e matches CaptureError::DisplayInfo(m) ==> e.text() == m@,
        CaptureError::DisplayNotFound(n).text() == "display "@ + text::decimal(n as nat)
            + " not found"@,
        CaptureError::NoDisplays.text() == "no displays found"@,
{
}

} // verus!
