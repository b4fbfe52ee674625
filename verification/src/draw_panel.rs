//! The live drawing panel: the video underneath, the strokes that leave for the
//! recording, and the stream of the pen stroke in progress.

use crate::annotate;
use crate::annotate::{
    copy_stroke, copy_strokes, smooth_polyline, AnnotateDoc, DrawEvent, Rgba, Stroke,
    Tool,
};
use crate::encode;
use crate::frame;
use crate::frame::bgra_to_opaque_rgba;
use crate::gesture;
use crate::gesture::{Gestures, PenStep, Pointer};
use crate::pump::PreviewFrame;
use crate::single::{F32, ONE_BITS};
use crate::text;
use crate::text::{decimal_text, join3};
use vstd::prelude::*;

verus! {

/// The pen stroke in progress is sent again once it has this many new points...
pub const LIVE_MIN_POINTS: usize = 6;

/// ...or once this much time has passed, 80 milliseconds.
pub const LIVE_MAX_INTERVAL_NS: u64 = 80_000_000;

/// How often pen input is smoothed.
pub const SMOOTH_ITERS: usize = 2;

/// The bits of the default pen width, 4, of the default text size, 40, and of the
/// smallest text size, 6.
pub const PEN_WIDTH_BITS: u32 = 0x4080_0000;

pub const FONT_SIZE_BITS: u32 = 0x4220_0000;

pub const MIN_FONT_BITS: u32 = 0x40c0_0000;

/// The tools of the panel.
#[derive(Debug, Clone, Copy, PartialEq, Eq, Structural)]
pub enum DrawTool {
    Pen,
    Line,
    Arrow,
    Rect,
    Ellipse,
    Text,
}

impl DrawTool {
    /// The tool's button.
    pub fn label(self) -> (r: &'static str)
        ensures
            r@ == (match self {
                DrawTool::Pen => "Pen"@,
                DrawTool::Line => "Line"@,
                DrawTool::Arrow => "Arrow"@,
                DrawTool::Rect => "Rect"@,
                DrawTool::Ellipse => "Ell"@,
                DrawTool::Text => "Text"@,
            }),
    {
        match self {
            Self::Pen => "Pen",
            Self::Line => "Line",
            Self::Arrow => "Arrow",
            Self::Rect => "Rect",
            Self::Ellipse => "Ell",
            Self::Text => "Text",
        }
    }

    /// The tool in the document.
    pub fn as_tool(self) -> (r: Tool)
        ensures
            r == (match self {
                DrawTool::Pen => Tool::Pen,
                DrawTool::Line => Tool::Line,
                DrawTool::Arrow => Tool::Arrow,
                DrawTool::Rect => Tool::Rect,
                DrawTool::Ellipse => Tool::Ellipse,
                DrawTool::Text => Tool::Text,
            }),
    {
        match self {
            Self::Pen => Tool::Pen,
            Self::Line => Tool::Line,
            Self::Arrow => Tool::Arrow,
            Self::Rect => Tool::Rect,
            Self::Ellipse => Tool::Ellipse,
            Self::Text => Tool::Text,
        }
    }
}

/// Is there nothing to draw? A click of the pen is a dot and a text stands at one
/// point; everything else has a span.
pub open spec fn pointless(points: nat, tool: Tool) -> bool {
    points == 0 || (points < 2 && tool != Tool::Text && tool != Tool::Pen)
}

/// Is there nothing to draw?
pub fn is_pointless(points: usize, tool: Tool) -> (r: bool)
    ensures
        r == pointless(points as nat, tool),
{
    points == 0 || (points < 2 && tool != Tool::Text && tool != Tool::Pen)
}

/// The drawing panel.
#[derive(Debug, Clone, PartialEq, Eq)]
pub struct DrawPanel<P> {
    pub tool: DrawTool,
    pub color: Rgba,
    pub width: F32,
    pub font_size: F32,
    /// The strokes that were committed.
    pub strokes: Vec<Stroke>,
    pub gestures: Gestures<P>,
    /// How many points of the path in progress were sent.
    pub pen_sent: usize,
    pub pen_last_send_ns: u64,
    pub feed_w: u32,
    pub feed_h: u32,
    pub frames_shown: u64,
}

/// Is this the stroke that a panel commits? Of a text, `width_px` is the size.
pub open spec fn panel_stroke(
    s: Stroke,
    points: Seq<(F32, F32)>,
    tool: Tool,
    said: Option<String>,
    width_px: F32,
    color: Rgba,
    font_size: F32,
) -> bool {
    let least = F32 { bits: MIN_FONT_BITS };
    let one = F32 { bits: ONE_BITS };
    &&& s.points@ == points
    &&& s.color == color
    &&& s.tool == tool
    &&& s.text == said
    &&& s.appear_ms == 0
    &&& s.font_px == Some(
        if tool == Tool::Text {
            width_px.larger(least)
        } else {
            font_size.larger(least)
        },
    )
    &&& s.width_px == (if tool == Tool::Text {
        one
    } else {
        width_px.larger(one)
    })
    &&& !s.filled
    &&& s.font_path is None
}

impl<P: Copy> DrawPanel<P> {
    /// What was sent of the path in progress is part of it.
    pub open spec fn wf(self) -> bool {
        self.gestures.active_pen@.len() > 0 ==> self.pen_sent <= self.gestures.active_pen@.len()
    }

    /// The panels differ at most in the gestures.
    pub open spec fn but_gestures(self, other: DrawPanel<P>) -> bool {
        self == (DrawPanel { gestures: self.gestures, ..other })
    }

    /// Opens the panel on a feed of this size, a guess that the first frame
    /// corrects.
    pub fn new(feed_w: u32, feed_h: u32, now_ns: u64) -> (r: Self)
        ensures
            r.wf(),
            r.tool == DrawTool::Pen,
            r.color == Rgba(255, 0, 0, 255),
            r.width.bits == PEN_WIDTH_BITS,
            r.font_size.bits == FONT_SIZE_BITS,
            r.strokes@.len() == 0,
            r.gestures.active_pen@.len() == 0,
            r.gestures.shape is None,
            r.gestures.text_at is None,
            r.gestures.text_buf@.len() == 0,
            r.pen_sent == 0,
            r.pen_last_send_ns == now_ns,
            r.feed_w == (if feed_w < 64 {
                64
            } else {
                feed_w
            }),
            r.feed_h == (if feed_h < 64 {
                64
            } else {
                feed_h
            }),
            r.frames_shown == 0,
    {
        Self {
            tool: DrawTool::Pen,
            color: Rgba(255, 0, 0, 255),
            width: F32 { bits: PEN_WIDTH_BITS },
            font_size: F32 { bits: FONT_SIZE_BITS },
            strokes: Vec::new(),
            gestures: Gestures::new(),
            pen_sent: 0,
            pen_last_send_ns: now_ns,
            feed_w: if feed_w < 64 {
                64
            } else {
                feed_w
            },
            feed_h: if feed_h < 64 {
                64
            } else {
                feed_h
            },
            frames_shown: 0,
        }
    }

    pub fn stroke_count(&self) -> (n: usize)
        ensures
            n == self.strokes@.len(),
    {
        self.strokes.len()
    }

    pub fn frames_shown(&self) -> (n: u64)
        ensures
            n == self.frames_shown,
    {
        self.frames_shown
    }

    pub fn feed_size(&self) -> (r: (u32, u32))
        ensures
            r == (self.feed_w, self.feed_h),
    {
        (self.feed_w, self.feed_h)
    }

    /// Everything that was committed, as a document of the feed's size.
    pub fn doc(&self) -> (d: AnnotateDoc)
        ensures
            d.version == 1,
            d.canvas_w == self.feed_w,
            d.canvas_h == self.feed_h,
            annotate::all_alike(d.strokes@, self.strokes@),
            d.watermarks@.len() == 0,
            d.burn_in,
    {
        AnnotateDoc {
            version: 1,
            canvas_w: self.feed_w,
            canvas_h: self.feed_h,
            strokes: copy_strokes(&self.strokes),
            watermarks: Vec::new(),
            burn_in: true,
        }
    }

    // ---- video ----

    /// Takes a frame of the feed's own size; the picture for the screen, where the
    /// bytes are as many as they should be.
    pub fn push_video(&mut self, bgra: &[u8]) -> (r: Option<Vec<u8>>)
        requires
            old(self).frames_shown < u64::MAX,
        ensures
            if bgra@.len() == encode::frame_bytes(old(self).feed_w, old(self).feed_h) {
                r matches Some(v) && v@ == frame::opaque(bgra@) && *final(self) == (DrawPanel {
                    frames_shown: (old(self).frames_shown + 1) as u64,
                    ..*old(self)
                })
            } else {
                r is None && *final(self) == *old(self)
            },
    {
        let n: usize = bgra.len();
        if n as u128 != bytes_of(self.feed_w, self.feed_h) {
            return None;
        }
        assert(bgra@.len() % 4 == 0);
        self.frames_shown = self.frames_shown + 1;
        Some(bgra_to_opaque_rgba(bgra))
    }

    /// Takes a preview and follows its size. Previews of fewer than 16 pixels a
    /// side are ignored; one with too few or too many bytes is not shown.
    pub fn push_preview(&mut self, f: &PreviewFrame) -> (r: Option<Vec<u8>>)
        requires
            old(self).frames_shown < u64::MAX,
        ensures
            if f.w < 16 || f.h < 16 {
                r is None && *final(self) == *old(self)
            } else if f.bgra@.len() == encode::frame_bytes(f.w, f.h) {
                r matches Some(v) && v@ == frame::opaque(f.bgra@) && *final(self) == (DrawPanel {
                    feed_w: f.w,
                    feed_h: f.h,
                    frames_shown: (old(self).frames_shown + 1) as u64,
                    ..*old(self)
                })
            } else {
                r is None && *final(self) == (DrawPanel { feed_w: f.w, feed_h: f.h, ..*old(self) })
            },
    {
        if f.w < 16 || f.h < 16 {
            return None;
        }
        self.feed_w = f.w;
        self.feed_h = f.h;
        self.push_video(f.bgra.as_slice())
    }

    // ---- strokes ----

    /// Commits a stroke, unless there is nothing to draw; the event for the
    /// recording.
    pub fn push_stroke(
        &mut self,
        points: Vec<(F32, F32)>,
        tool: Tool,
        said: Option<String>,
        width_px: F32,
    ) -> (r: Option<DrawEvent>)
        ensures
            if pointless(points@.len(), tool) {
                r is None && *final(self) == *old(self)
            } else {
                &&& r matches Some(DrawEvent::AddStroke(s)) && panel_stroke(
                    s,
                    points@,
                    tool,
                    said,
                    width_px,
                    old(self).color,
                    old(self).font_size,
                ) && annotate::alike(final(self).strokes@.last(), s)
                &&& final(self).strokes@.len() == old(self).strokes@.len() + 1
                &&& final(self).strokes@.drop_last() == old(self).strokes@
                &&& *final(self) == (DrawPanel { strokes: final(self).strokes, ..*old(self) })
            },
    {
        if is_pointless(points.len(), tool) {
            return None;
        }
        let least = F32 { bits: MIN_FONT_BITS };
        let one = F32 { bits: ONE_BITS };
        let font_px = if tool == Tool::Text {
            width_px.max_of(least)
        } else {
            self.font_size.max_of(least)
        };
        let stroke = Stroke {
            points,
            color: self.color,
            width_px: if tool == Tool::Text {
                one
            } else {
                width_px.max_of(one)
            },
            tool,
            text: said,
            appear_ms: 0,
            font_px: Some(font_px),
            filled: false,
            font_path: None,
        };
        let ghost before = self.strokes@;
        self.strokes.push(copy_stroke(&stroke));
        assert(self.strokes@.drop_last() =~= before);
        Some(DrawEvent::AddStroke(stroke))
    }

    /// The undo button. The gesture in progress is given up too, so that panel and
    /// recording agree.
    pub fn undo(&mut self) -> (r: DrawEvent)
        ensures
            r == DrawEvent::Undo,
            final(self).strokes@ == (if old(self).strokes@.len() > 0 {
                old(self).strokes@.drop_last()
            } else {
                old(self).strokes@
            }),
            final(self).gestures.active_pen@.len() == 0,
            final(self).gestures.shape is None,
            final(self).gestures.text_at == old(self).gestures.text_at,
            final(self).gestures.text_buf == old(self).gestures.text_buf,
            final(self).wf(),
            *final(self) == (DrawPanel {
                strokes: final(self).strokes,
                gestures: final(self).gestures,
                ..*old(self)
            }),
    {
        let _ = self.strokes.pop();
        self.gestures.cancel();
        DrawEvent::Undo
    }

    /// The clear button.
    pub fn clear(&mut self) -> (r: DrawEvent)
        ensures
            r == DrawEvent::Clear,
            final(self).strokes@.len() == 0,
            final(self).gestures.active_pen@.len() == 0,
            final(self).gestures.shape is None,
            final(self).gestures.text_at == old(self).gestures.text_at,
            final(self).gestures.text_buf == old(self).gestures.text_buf,
            final(self).wf(),
            *final(self) == (DrawPanel {
                strokes: final(self).strokes,
                gestures: final(self).gestures,
                ..*old(self)
            }),
    {
        self.strokes.clear();
        self.gestures.cancel();
        DrawEvent::Clear
    }

    // ---- the pen, live ----

    /// Is the path in progress due to be sent again?
    pub open spec fn live_due(self, now_ns: u64) -> bool {
        let n = self.gestures.active_pen@.len();
        n >= 2 && (n - self.pen_sent >= LIVE_MIN_POINTS || now_ns - self.pen_last_send_ns
            >= LIVE_MAX_INTERVAL_NS)
    }

    /// A press or a move of the pen; whether the path is due to be sent again.
    pub fn pen_move(&mut self, p: Pointer<P>, on_canvas: bool, moved: bool, now_ns: u64) -> (due:
        bool)
        requires
            old(self).wf(),
        ensures
            final(self).wf(),
            final(self).gestures.but_pen(old(self).gestures),
            final(self).gestures.active_pen@ == gesture::pen_path(
                old(self).gestures.active_pen@,
                p,
                on_canvas,
                moved,
            ),
            p.pressed && on_canvas ==> !due && *final(self) == (DrawPanel {
                gestures: final(self).gestures,
                pen_sent: 0,
                pen_last_send_ns: now_ns,
                ..*old(self)
            }),
            !(p.pressed && on_canvas) ==> final(self).but_gestures(*old(self)) && due == (p.down
                && old(self).gestures.active_pen@.len() > 0 && moved && final(self).live_due(
                now_ns,
            )),
    {
        match self.gestures.pen_move(p, on_canvas, moved) {
            PenStep::Began => {
                self.pen_sent = 0;
                self.pen_last_send_ns = now_ns;
                false
            },
            PenStep::Grew => {
                let n: usize = self.gestures.active_pen.len();
                n >= 2 && (n - self.pen_sent >= LIVE_MIN_POINTS || now_ns.saturating_sub(
                    self.pen_last_send_ns,
                ) >= LIVE_MAX_INTERVAL_NS)
            },
            PenStep::Nothing => false,
        }
    }

    /// Sends the path so far, smoothed and on the canvas; nothing where none of it
    /// lies there.
    pub fn send_live(&mut self, points: Vec<(F32, F32)>, width_px: F32, now_ns: u64) -> (r: Option<
        DrawEvent,
    >)
        ensures
            if points@.len() == 0 {
                r is None && *final(self) == *old(self)
            } else {
                &&& r == Some(
                    DrawEvent::PenLive {
                        color: old(self).color,
                        width_px: width_px.larger(F32 { bits: ONE_BITS }),
                        points,
                    },
                )
                &&& final(self).wf()
                &&& *final(self) == (DrawPanel {
                    pen_sent: old(self).gestures.active_pen.len(),
                    pen_last_send_ns: now_ns,
                    ..*old(self)
                })
            },
    {
        if points.len() == 0 {
            return None;
        }
        self.pen_sent = self.gestures.active_pen.len();
        self.pen_last_send_ns = now_ns;
        Some(
            DrawEvent::PenLive {
                color: self.color,
                width_px: width_px.max_of(F32 { bits: ONE_BITS }),
                points,
            },
        )
    }

    /// The path in progress, smoothed: what is streamed, committed and shown.
    pub fn smooth_active<F: Fn(P, P) -> P>(&self, near: F) -> (out: Vec<P>)
        requires
            forall|a: P, b: P| call_requires(near, (a, b)),
        ensures
            self.gestures.active_pen@.len() < 3 ==> out@ == self.gestures.active_pen@,
            self.gestures.active_pen@.len() >= 3 ==> annotate::cut_times(
                near,
                self.gestures.active_pen@,
                SMOOTH_ITERS as nat,
                out@,
            ),
    {
        smooth_polyline(self.gestures.active_pen.as_slice(), SMOOTH_ITERS, near)
    }
}

fn bytes_of(w: u32, h: u32) -> (n: u128)
    ensures
        n == encode::frame_bytes(w, h),
        n % 4 == 0,
{
    assert(w * h <= 0xffff_ffff * 0xffff_ffff) by (nonlinear_arith)
        requires
            w <= 0xffff_ffff,
            h <= 0xffff_ffff,
    ;
    let area: u128 = (w as u128) * (h as u128);
    assert(area == (w as nat) * (h as nat));
    area * 4
}

/// A live pen stroke reaches the recording: it is sent again after at most six new
/// points, and each sending holds the whole path so far.
pub proof fn law_live_stream<P: Copy>(p: DrawPanel<P>, now_ns: u64)
    requires
        p.wf(),
        p.gestures.active_pen@.len() >= 2,
    ensures
        p.gestures.active_pen@.len() - p.pen_sent >= LIVE_MIN_POINTS ==> p.live_due(now_ns),
        now_ns - p.pen_last_send_ns >= LIVE_MAX_INTERVAL_NS ==> p.live_due(now_ns),
        !p.live_due(now_ns) ==> p.gestures.active_pen@.len() - p.pen_sent < LIVE_MIN_POINTS
            && now_ns - p.pen_last_send_ns < LIVE_MAX_INTERVAL_NS,
{
}

/// The counters in the toolbar.
pub fn counts_label(strokes: usize, frames: u64) -> (s: String)
    ensures
        s@ == text::decimal(strokes as nat) + " strokes · "@ + text::decimal(frames as nat)
            + " video frames"@,
{
    let mut s = join3(
        decimal_text(strokes as u64).as_str(),
        " strokes · ",
        decimal_text(frames).as_str(),
    );
    s.append(" video frames");
    s
}

/// The size of the feed under the picture.
pub fn feed_label(w: u32, h: u32, strokes: usize) -> (s: String)
    ensures
        s@ == text::decimal(w as nat) + "×"@ + text::decimal(h as nat) + " feed · "@
            + text::decimal(strokes as nat) + " drawn"@,
{
    let mut s = join3(decimal_text(w as u64).as_str(), "×", decimal_text(h as u64).as_str());
    s.append(" feed · ");
    s.append(decimal_text(strokes as u64).as_str());
    s.append(" drawn");
    s
}

/// What a drawing window leaves behind.
#[derive(Debug, Clone, PartialEq, Eq)]
pub struct DrawWindowResult {
    pub doc: AnnotateDoc,
    pub frames_shown: u64,
}

impl DrawWindowResult {
    /// Takes it from the panel, or from nothing where the window never opened.
    pub fn of<P: Copy>(panel: Option<&DrawPanel<P>>, feed_w: u32, feed_h: u32) -> (r: Self)
        ensures
            r.doc.version == 1,
            r.doc.watermarks@.len() == 0,
            r.doc.burn_in,
            match panel {
                Some(p) => annotate::all_alike(r.doc.strokes@, p.strokes@) && r.doc.canvas_w
                    == p.feed_w && r.doc.canvas_h == p.feed_h && r.frames_shown == p.frames_shown,
                None => r.doc.strokes@.len() == 0 && r.doc.canvas_w == feed_w && r.doc.canvas_h
                    == feed_h && r.frames_shown == 0,
            },
    {
        match panel {
            Some(p) => Self { doc: p.doc(), frames_shown: p.frames_shown },
            None => Self {
                doc: AnnotateDoc {
                    version: 1,
                    canvas_w: feed_w,
                    canvas_h: feed_h,
                    strokes: Vec::new(),
                    watermarks: Vec::new(),
                    burn_in: true,
                },
                frames_shown: 0,
            },
        }
    }
}

// ---------------------------------------------------------------------------
// What holds on every input
// ---------------------------------------------------------------------------

/// A shape needs two points; a pen stroke and a text need one.
pub proof fn law_points_that_are_needed(points: nat, tool: Tool)
    ensures
        pointless(0, tool),
        points >= 2 ==> !pointless(points, tool),
        pointless(1, tool) <==> tool == Tool::Line || tool == Tool::Arrow || tool == Tool::Rect
            || tool == Tool::Ellipse || tool == Tool::Image,
{
}

/// A stroke of the panel has the points, tool, colour and text it was drawn with and
/// appears at once. A text takes its size from the width that it was given; anything
/// else is drawn that wide, a pixel at least.
pub proof fn law_strokes_of_the_panel(
    s: Stroke,
    points: Seq<(F32, F32)>,
    tool: Tool,
    said: Option<String>,
    width_px: F32,
    color: Rgba,
    font_size: F32,
)
    requires
        panel_stroke(s, points, tool, said, width_px, color, font_size),
    ensures
        s.points@ == points,
        s.tool == tool,
        s.color == color,
        s.text == said,
        s.appear_ms == 0,
        !s.filled,
        s.font_path is None,
        tool == Tool::Text ==> s.width_px.bits == 0x3f80_0000,
        tool != Tool::Text && 0x3f80_0000 <= width_px.bits <= 0x7f80_0000 ==> s.width_px
            == width_px,
        tool != Tool::Text && width_px.bits < 0x3f80_0000 ==> s.width_px.bits == 0x3f80_0000,
        tool == Tool::Text && 0x40c0_0000 <= width_px.bits <= 0x7f80_0000 ==> s.font_px == Some(
            width_px,
        ),
        tool != Tool::Text && 0x40c0_0000 <= font_size.bits <= 0x7f80_0000 ==> s.font_px == Some(
            font_size,
        ),
        tool == Tool::Text && width_px.bits < 0x40c0_0000 ==> (s.font_px matches Some(f) && f.bits
            == 0x40c0_0000),
        tool != Tool::Text && font_size.bits < 0x40c0_0000 ==> (s.font_px matches Some(f) && f.bits
            == 0x40c0_0000),
{
}

/// A live stroke of two points is sent after six new ones or 80 ms, and not before.
pub proof fn law_live_sending<P: Copy>(p: DrawPanel<P>, now_ns: u64)
    ensures
        p.live_due(now_ns) <==> p.gestures.active_pen@.len() >= 2 && (p.gestures.active_pen@.len()
            >= p.pen_sent + 6 || now_ns >= p.pen_last_send_ns + 80_000_000),
{
}

/// A pen starts 4 wide and red, a text 40 pixels high, and lines are smoothed twice.
pub proof fn law_tools_at_the_start()
    ensures
        PEN_WIDTH_BITS == 0x4080_0000,
        FONT_SIZE_BITS == 0x4220_0000,
        SMOOTH_ITERS == 2,
{
}

/// Where only the gestures change, all the rest of the panel stays.
pub proof fn law_panel_but_for_gestures<P: Copy>(a: DrawPanel<P>, b: DrawPanel<P>)
    requires
        a.but_gestures(b),
    ensures
        a.tool == b.tool,
        a.color == b.color,
        a.width == b.width,
        a.font_size == b.font_size,
        a.strokes == b.strokes,
        a.pen_sent == b.pen_sent,
        a.pen_last_send_ns == b.pen_last_send_ns,
        a.feed_w == b.feed_w,
        a.feed_h == b.feed_h,
        a.frames_shown == b.frames_shown,
{
}

} // verus!
