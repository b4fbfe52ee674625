//! The annotation editor: a region is selected first, then drawn on.

use crate::annotate;
use crate::annotate::{copy_strokes, smooth_polyline, AnnotateDoc, Rgba, Stroke, Tool};
use crate::draw_panel;
use crate::draw_panel::{
    is_pointless, FONT_SIZE_BITS, MIN_FONT_BITS, PEN_WIDTH_BITS, SMOOTH_ITERS,
};
use crate::gesture::Gestures;
use crate::picker::MIN_EDGE;
use crate::single::{F32, ONE_BITS};
use crate::text;
use crate::text::{decimal_text, join3, to_chars};
use crate::types::Rect;
use vstd::prelude::*;

verus! {

/// What the editor is at.
#[derive(Debug, Clone, Copy, PartialEq, Eq, Structural)]
pub enum Phase {
    Select,
    Draw,
}

/// The tools of the editor.
#[derive(Debug, Clone, Copy, PartialEq, Eq, Structural)]
pub enum DrawTool {
    Pen,
    Line,
    Arrow,
    Rect,
    Ellipse,
    Text,
    Image,
}

impl DrawTool {
    /// The tool's button.
    pub fn label(self) -> (r: &'static str)
        ensures
            r@ == (match self {
                DrawTool::Pen => "Pen"@,
                DrawTool::Line => "Line"@,
                DrawTool::Arrow => "Arrow"@,
                DrawTool::Rect => "Rect"@,
                DrawTool::Ellipse => "Ellipse"@,
                DrawTool::Text => "Text"@,
                DrawTool::Image => "Img"@,
            }),
    {
        match self {
            Self::Pen => "Pen",
            Self::Line => "Line",
            Self::Arrow => "Arrow",
            Self::Rect => "Rect",
            Self::Ellipse => "Ellipse",
            Self::Text => "Text",
            Self::Image => "Img",
        }
    }

    /// The tool in the document.
    pub fn as_tool(self) -> (r: Tool)
        ensures
            r == (match self {
                DrawTool::Pen => Tool::Pen,
                DrawTool::Line => Tool::Line,
                DrawTool::Arrow => Tool::Arrow,
                DrawTool::Rect => Tool::Rect,
                DrawTool::Ellipse => Tool::Ellipse,
                DrawTool::Text => Tool::Text,
                DrawTool::Image => Tool::Image,
            }),
    {
        match self {
            Self::Pen => Tool::Pen,
            Self::Line => Tool::Line,
            Self::Arrow => Tool::Arrow,
            Self::Rect => Tool::Rect,
            Self::Ellipse => Tool::Ellipse,
            Self::Text => Tool::Text,
            Self::Image => Tool::Image,
        }
    }
}

/// The preview counts its builds apart from the changes; this one was never built.
pub const NEVER_BUILT: u64 = 0xffff_ffff_ffff_ffff;

/// The editor. Points and rectangles are those of the window system.
#[derive(Debug, Clone, PartialEq, Eq)]
pub struct EditorApp<P, R> {
    pub monitor_w: u32,
    pub monitor_h: u32,
    pub save_path: String,
    pub phase: Phase,
    pub sel_anchor: Option<P>,
    pub sel_current: P,
    pub selection: Option<R>,
    pub tool: DrawTool,
    pub color: Rgba,
    pub width: F32,
    pub font_size: F32,
    pub filled: bool,
    pub image_path: Option<String>,
    /// Is the file dialog open?
    pub picking: bool,
    pub strokes: Vec<Stroke>,
    pub gestures: Gestures<P>,
    /// Counts the changes that the preview has to show.
    pub preview_rev: u64,
    /// The change that the preview shows.
    pub built_rev: u64,
    pub save_msg: String,
}

/// Is this the stroke that the editor commits?
pub open spec fn editor_stroke(
    s: Stroke,
    tool: Tool,
    said: Option<String>,
    width_px: F32,
    font_px: F32,
    color: Rgba,
    filled: bool,
) -> bool {
    &&& s.color == color
    &&& s.width_px == width_px.larger(F32 { bits: ONE_BITS })
    &&& s.tool == tool
    &&& s.text == said
    &&& s.appear_ms == 0
    &&& s.font_px == Some(font_px.larger(F32 { bits: MIN_FONT_BITS }))
    &&& s.filled == filled
    &&& s.font_path is None
}

/// Is there nothing to draw? An image needs a file.
pub open spec fn undrawable(points: nat, tool: Tool, said: Option<String>) -> bool {
    draw_panel::pointless(points, tool) || (tool == Tool::Image && (said is None
        || said->0@.len() == 0))
}

/// What the record button does.
#[derive(Debug, Clone, Copy, PartialEq, Eq, Structural)]
pub enum RecordPress {
    /// Nothing; the editor says why.
    Refused,
    /// The document is saved, and then the region is handed over.
    Save(Rect),
}

impl<P: Copy, R: Copy> EditorApp<P, R> {
    /// Fewer changes than can be counted.
    pub open spec fn wf(self) -> bool {
        self.preview_rev < NEVER_BUILT - 2
    }

    /// Opens the editor over a monitor.
    pub fn new(monitor_w: u32, monitor_h: u32, save_path: String, origin: P) -> (r: Self)
        ensures
            r.wf(),
            r.monitor_w == monitor_w,
            r.monitor_h == monitor_h,
            r.save_path == save_path,
            r.phase == Phase::Select,
            r.sel_anchor is None,
            r.sel_current == origin,
            r.selection is None,
            r.tool == DrawTool::Pen,
            r.color == Rgba(255, 0, 0, 255),
            r.width.bits == PEN_WIDTH_BITS,
            r.font_size.bits == FONT_SIZE_BITS,
            !r.filled,
            r.image_path is None,
            !r.picking,
            r.strokes@.len() == 0,
            r.gestures.active_pen@.len() == 0,
            r.gestures.shape is None,
            r.gestures.text_at is None,
            r.gestures.text_buf@.len() == 0,
            r.preview_rev == 0,
            r.built_rev == NEVER_BUILT,
            r.save_msg@.len() == 0,
    {
        Self {
            monitor_w,
            monitor_h,
            save_path,
            phase: Phase::Select,
            sel_anchor: None,
            sel_current: origin,
            selection: None,
            tool: DrawTool::Pen,
            color: Rgba(255, 0, 0, 255),
            width: F32 { bits: PEN_WIDTH_BITS },
            font_size: F32 { bits: FONT_SIZE_BITS },
            filled: false,
            image_path: None,
            picking: false,
            strokes: Vec::new(),
            gestures: Gestures::new(),
            preview_rev: 0,
            built_rev: NEVER_BUILT,
            save_msg: String::new(),
        }
    }

    /// The escape key, one step back at a time: the text field closes, the drawing
    /// is thrown away for the selection, the selection is given up, the editor
    /// leaves.
    pub fn escape(&mut self) -> (leave: bool)
        requires
            old(self).wf(),
        ensures
            leave == (old(self).gestures.text_at is None && old(self).phase == Phase::Select && old(
                self,
            ).selection is None),
            leave ==> *final(self) == *old(self),
            leave == (steps_back(*old(self)) == 0),
            !leave ==> steps_back(*final(self)) + 1 == steps_back(*old(self)),
            old(self).gestures.text_at is Some ==> {
                &&& final(self).gestures.text_at is None
                &&& final(self).gestures.text_buf@.len() == 0
                &&& final(self).gestures.but_text(old(self).gestures)
                &&& *final(self) == (EditorApp { gestures: final(self).gestures, ..*old(self) })
            },
            old(self).gestures.text_at is None && old(self).phase == Phase::Draw ==> {
                &&& final(self).strokes@.len() == 0
                &&& *final(self) == (EditorApp {
                    phase: Phase::Select,
                    strokes: final(self).strokes,
                    preview_rev: (old(self).preview_rev + 1) as u64,
                    built_rev: (NEVER_BUILT - 1) as u64,
                    ..*old(self)
                })
            },
            old(self).gestures.text_at is None && old(self).phase == Phase::Select && !leave
                ==> *final(self) == (EditorApp { selection: None, sel_anchor: None, ..*old(self) }),
    {
        if self.gestures.text_at.is_some() {
            self.gestures.text_cancel();
            false
        } else if self.phase == Phase::Draw {
            self.phase = Phase::Select;
            self.strokes.clear();
            self.preview_rev = self.preview_rev + 1;
            self.built_rev = NEVER_BUILT - 1;
            false
        } else if self.selection.is_none() {
            true
        } else {
            self.selection = None;
            self.sel_anchor = None;
            false
        }
    }

    // ---- selecting ----

    /// The pointer is here, and the button may just have gone down.
    pub fn select_point(&mut self, p: P, pressed: bool)
        ensures
            *final(self) == (EditorApp {
                sel_current: p,
                sel_anchor: if pressed {
                    Some(p)
                } else {
                    old(self).sel_anchor
                },
                ..*old(self)
            }),
    {
        self.sel_current = p;
        if pressed {
            self.sel_anchor = Some(p);
        }
    }

    /// The button came up: where the drag began.
    pub fn select_release(&mut self) -> (r: Option<P>)
        ensures
            r == old(self).sel_anchor,
            *final(self) == (EditorApp { sel_anchor: None, ..*old(self) }),
    {
        let a = self.sel_anchor;
        self.sel_anchor = None;
        a
    }

    /// The drag spanned `r`; `big` is whether that is more than a click.
    pub fn select(&mut self, r: R, big: bool)
        ensures
            *final(self) == (EditorApp {
                selection: if big {
                    Some(r)
                } else {
                    old(self).selection
                },
                ..*old(self)
            }),
    {
        if big {
            self.selection = Some(r);
        }
    }

    /// The other button: the first click gives up the selection, the next leaves.
    pub fn secondary(&mut self) -> (leave: bool)
        ensures
            leave == old(self).selection is None,
            leave ==> *final(self) == *old(self),
            !leave ==> *final(self) == (EditorApp {
                selection: None,
                sel_anchor: None,
                ..*old(self)
            }),
    {
        if self.selection.is_none() {
            return true;
        }
        self.selection = None;
        self.sel_anchor = None;
        false
    }

    /// The enter key with the rectangle on show, `large` being whether it is large
    /// enough to record: drawing begins, else the selection is given up.
    pub fn adopt(&mut self, shown: Option<R>, large: bool)
        requires
            old(self).wf(),
        ensures
            match shown {
                None => *final(self) == *old(self),
                Some(r) => if large {
                    *final(self) == (EditorApp {
                        selection: Some(r),
                        phase: Phase::Draw,
                        preview_rev: (old(self).preview_rev + 1) as u64,
                        ..*old(self)
                    })
                } else {
                    *final(self) == (EditorApp { selection: None, ..*old(self) })
                },
            },
    {
        if let Some(r) = shown {
            if large {
                self.selection = Some(r);
                self.phase = Phase::Draw;
                self.preview_rev = self.preview_rev + 1;
            } else {
                self.selection = None;
            }
        }
    }

    /// The selection to draw on; without one the editor goes back to selecting.
    pub fn drawing_on(&mut self) -> (r: Option<R>)
        ensures
            r == old(self).selection,
            *final(self) == (EditorApp {
                phase: if r is None {
                    Phase::Select
                } else {
                    old(self).phase
                },
                ..*old(self)
            }),
    {
        if self.selection.is_none() {
            self.phase = Phase::Select;
        }
        self.selection
    }

    // ---- drawing ----

    /// Commits a stroke, unless there is nothing to draw. Pen strokes are smoothed;
    /// `near(a, b)` is the point a quarter of the way from `a` to `b`.
    pub fn push_stroke<F: Fn((F32, F32), (F32, F32)) -> (F32, F32)>(
        &mut self,
        points: Vec<(F32, F32)>,
        tool: Tool,
        said: Option<String>,
        width_px: F32,
        font_px: F32,
        near: F,
    )
        requires
            old(self).wf(),
            forall|a: (F32, F32), b: (F32, F32)| call_requires(near, (a, b)),
        ensures
            if undrawable(points@.len(), tool, said) {
                *final(self) == *old(self)
            } else {
                let s = final(self).strokes@.last();
                &&& editor_stroke(
                    s,
                    tool,
                    said,
                    width_px,
                    font_px,
                    old(self).color,
                    old(self).filled,
                )
                &&& if tool == Tool::Pen && points@.len() >= 3 {
                    annotate::cut_times(near, points@, SMOOTH_ITERS as nat, s.points@)
                } else {
                    s.points@ == points@
                }
                &&& final(self).strokes@.len() == old(self).strokes@.len() + 1
                &&& final(self).strokes@.drop_last() == old(self).strokes@
                &&& *final(self) == (EditorApp {
                    strokes: final(self).strokes,
                    preview_rev: (old(self).preview_rev + 1) as u64,
                    ..*old(self)
                })
            },
    {
        if is_pointless(points.len(), tool) {
            return;
        }
        if tool == Tool::Image {
            let missing = match &said {
                Some(path) => to_chars(path.as_str()).len() == 0,
                None => true,
            };
            if missing {
                return;
            }
        }
        let drawn = if tool == Tool::Pen {
            smooth_polyline(points.as_slice(), SMOOTH_ITERS, near)
        } else {
            points
        };
        let ghost before = self.strokes@;
        self.strokes.push(
            Stroke {
                points: drawn,
                color: self.color,
                width_px: width_px.max_of(F32 { bits: ONE_BITS }),
                tool,
                text: said,
                appear_ms: 0,
                font_px: Some(font_px.max_of(F32 { bits: MIN_FONT_BITS })),
                filled: self.filled,
                font_path: None,
            },
        );
        assert(self.strokes@.drop_last() =~= before);
        self.preview_rev = self.preview_rev + 1;
    }

    /// What a shape carries: an image its file, everything else nothing.
    pub fn shape_text(&self) -> (r: Option<String>)
        ensures
            r == (if self.tool == DrawTool::Image {
                self.image_path
            } else {
                None
            }),
    {
        if self.tool == DrawTool::Image {
            match &self.image_path {
                Some(p) => Some(p.clone()),
                None => None,
            }
        } else {
            None
        }
    }

    /// The undo button. The gesture in progress is given up too.
    pub fn undo(&mut self)
        requires
            old(self).wf(),
        ensures
            final(self).strokes@ == (if old(self).strokes@.len() > 0 {
                old(self).strokes@.drop_last()
            } else {
                old(self).strokes@
            }),
            final(self).gestures.active_pen@.len() == 0,
            final(self).gestures.shape is None,
            final(self).gestures.text_at == old(self).gestures.text_at,
            final(self).gestures.text_buf == old(self).gestures.text_buf,
            *final(self) == (EditorApp {
                strokes: final(self).strokes,
                gestures: final(self).gestures,
                preview_rev: (old(self).preview_rev + 1) as u64,
                ..*old(self)
            }),
    {
        let _ = self.strokes.pop();
        self.gestures.cancel();
        self.preview_rev = self.preview_rev + 1;
    }

    /// The clear button.
    pub fn clear(&mut self)
        requires
            old(self).wf(),
        ensures
            final(self).strokes@.len() == 0,
            final(self).gestures.active_pen@.len() == 0,
            final(self).gestures.shape is None,
            final(self).gestures.text_at == old(self).gestures.text_at,
            final(self).gestures.text_buf == old(self).gestures.text_buf,
            *final(self) == (EditorApp {
                strokes: final(self).strokes,
                gestures: final(self).gestures,
                preview_rev: (old(self).preview_rev + 1) as u64,
                ..*old(self)
            }),
    {
        self.strokes.clear();
        self.gestures.cancel();
        self.preview_rev = self.preview_rev + 1;
    }

    /// Opens the file dialog, unless it is open.
    pub fn pick_image(&mut self) -> (open: bool)
        ensures
            open == !old(self).picking,
            *final(self) == (EditorApp { picking: true, ..*old(self) }),
    {
        let open = !self.picking;
        self.picking = true;
        open
    }

    /// The file dialog has closed, with a file or without. Without one the old
    /// file stays.
    pub fn image_picked(&mut self, picked: Option<String>)
        ensures
            *final(self) == (EditorApp {
                picking: false,
                image_path: if picked is Some {
                    picked
                } else {
                    old(self).image_path
                },
                ..*old(self)
            }),
    {
        if picked.is_some() {
            self.image_path = picked;
        }
        self.picking = false;
    }

    /// Has the preview to be built again?
    pub fn take_preview(&mut self) -> (stale: bool)
        ensures
            stale == (old(self).built_rev != old(self).preview_rev),
            *final(self) == (EditorApp { built_rev: old(self).preview_rev, ..*old(self) }),
    {
        let stale = self.built_rev != self.preview_rev;
        self.built_rev = self.preview_rev;
        stale
    }

    /// The document. `region` is the size of the selection in physical pixels,
    /// where it is large enough; else the monitor's counts.
    pub fn build_doc(&self, region: Option<(u32, u32)>) -> (d: AnnotateDoc)
        ensures
            d.version == 1,
            (d.canvas_w, d.canvas_h) == (match region {
                Some(size) => size,
                None => (self.monitor_w, self.monitor_h),
            }),
            annotate::all_alike(d.strokes@, self.strokes@),
            d.watermarks@.len() == 0,
            d.burn_in,
    {
        let (w, h) = match region {
            Some(size) => size,
            None => (self.monitor_w, self.monitor_h),
        };
        AnnotateDoc {
            version: 1,
            canvas_w: w,
            canvas_h: h,
            strokes: copy_strokes(&self.strokes),
            watermarks: Vec::new(),
            burn_in: true,
        }
    }

    /// The document was saved, or could not be.
    pub fn note_saved(&mut self, failed: Option<&str>)
        ensures
            *final(self) == (EditorApp { save_msg: final(self).save_msg, ..*old(self) }),
            final(self).save_msg@ == (match failed {
                None => "saved "@ + old(self).save_path@ + " ("@ + text::decimal(
                    old(self).strokes@.len(),
                ) + " strokes)"@,
                Some(e) => "save "@ + old(self).save_path@ + ": "@ + e@,
            }),
    {
        let n: usize = self.strokes.len();
        match failed {
            None => {
                let mut m = join3("saved ", self.save_path.as_str(), " (");
                m.append(decimal_text(n as u64).as_str());
                m.append(" strokes)");
                self.save_msg = m;
            },
            Some(e) => {
                let mut m = join3("save ", self.save_path.as_str(), ": ");
                m.append(e);
                self.save_msg = m;
            },
        }
    }

    /// The record button. `phys` is the selection in physical pixels, where it is
    /// large enough.
    pub fn press_record(&mut self, phys: Option<Rect>) -> (r: RecordPress)
        ensures
            match (old(self).selection, phys) {
                (None, _) => r == RecordPress::Refused && final(self).save_msg@
                    == "select a region first (Esc)"@,
                (Some(_), None) => r == RecordPress::Refused && final(self).save_msg@
                    == "region too small (min 64×64)"@,
                (Some(_), Some(rect)) => r == RecordPress::Save(rect) && *final(self) == *old(self),
            },
            *final(self) == (EditorApp { save_msg: final(self).save_msg, ..*old(self) }),
    {
        if self.selection.is_none() {
            self.save_msg = "select a region first (Esc)".to_owned();
            return RecordPress::Refused;
        }
        match phys {
            Some(rect) => RecordPress::Save(rect),
            None => {
                self.save_msg = "region too small (min 64×64)".to_owned();
                RecordPress::Refused
            },
        }
    }
}

/// The size of a selection in physical pixels, where it is large enough.
pub fn region_phys(w: i32, h: i32) -> (r: Option<(u32, u32)>)
    ensures
        r == (if w >= MIN_EDGE && h >= MIN_EDGE {
            Some((w as u32, h as u32))
        } else {
            None
        }),
{
    if w >= MIN_EDGE && h >= MIN_EDGE {
        Some((w as u32, h as u32))
    } else {
        None
    }
}

/// The steps back that are left before the editor leaves.
pub open spec fn steps_back<P, R>(e: EditorApp<P, R>) -> nat {
    (if e.gestures.text_at is Some {
        1nat
    } else {
        0
    }) + (if e.phase == Phase::Draw {
        1nat
    } else {
        0
    }) + (if e.selection is Some {
        1nat
    } else {
        0
    })
}

// ---------------------------------------------------------------------------
// What holds on every input
// ---------------------------------------------------------------------------

/// A stroke of the editor has the tool, colour and text it was drawn with, appears from
/// the start, is a pixel wide at least and has a font of 6 pixels at least.
pub proof fn law_strokes_of_the_editor(
    s: Stroke,
    tool: Tool,
    said: Option<String>,
    width_px: F32,
    font_px: F32,
    color: Rgba,
    filled: bool,
)
    requires
        editor_stroke(s, tool, said, width_px, font_px, color, filled),
    ensures
        s.tool == tool,
        s.color == color,
        s.text == said,
        s.filled == filled,
        s.appear_ms == 0,
        s.font_path is None,
        0x3f80_0000 <= width_px.bits <= 0x7f80_0000 ==> s.width_px == width_px,
        width_px.bits < 0x3f80_0000 || width_px.bits >= 0x8000_0000 ==> s.width_px.bits
            == 0x3f80_0000,
        0x40c0_0000 <= font_px.bits <= 0x7f80_0000 ==> s.font_px == Some(font_px),
        font_px.bits < 0x40c0_0000 || font_px.bits >= 0x8000_0000 ==> (s.font_px matches Some(f)
            && f.bits == 0x40c0_0000),
{
}

/// Nothing is drawn without a point, a shape needs two, and an image its path.
pub proof fn law_strokes_that_are_dropped(points: nat, tool: Tool, said: Option<String>)
    ensures
        points == 0 ==> undrawable(points, tool, said),
        points == 1 && (tool == Tool::Line || tool == Tool::Arrow || tool == Tool::Rect || tool
            == Tool::Ellipse || tool == Tool::Image) ==> undrawable(points, tool, said),
        points >= 1 && (tool == Tool::Pen || tool == Tool::Text) ==> !undrawable(
            points,
            tool,
            said,
        ),
        points >= 2 && tool != Tool::Image ==> !undrawable(points, tool, said),
        points >= 2 && tool == Tool::Image ==> (undrawable(points, tool, said) <==> (said is None
            || said->0@.len() == 0)),
{
}

/// The way back: out of the text, out of the drawing, out of the selection.
pub proof fn law_way_back<P, R>(e: EditorApp<P, R>)
    ensures
        steps_back(e) == 0 <==> e.gestures.text_at is None && e.phase == Phase::Select
            && e.selection is None,
        steps_back(e) <= 3,
        e.gestures.text_at is Some && e.phase == Phase::Draw && e.selection is Some ==> steps_back(e)
            == 3,
{
}

/// A preview that was never built has a number that no drawing reaches.
pub proof fn law_preview_numbers<P: Copy, R: Copy>(e: EditorApp<P, R>)
    requires
        e.wf(),
    ensures
        e.preview_rev != NEVER_BUILT,
        e.preview_rev + 1 < NEVER_BUILT - 1,
        NEVER_BUILT == u64::MAX,
{
}

} // verus!
