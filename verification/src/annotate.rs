//! The annotation document: timed vector strokes and watermarks in normalised
//! coordinates, and the smoothing of pen input.

use crate::single::{F32, ONE_BITS, ZERO_BITS};
use crate::text;
use crate::text::{join2, push_text};
use vstd::prelude::*;

verus! {

#[derive(Debug, Clone, Copy, PartialEq, Eq, Structural)]
pub enum Tool {
    Pen,
    Line,
    Arrow,
    Rect,
    Ellipse,
    Text,
    Image,
}

/// Red, green, blue, alpha.
#[derive(Debug, Clone, Copy, PartialEq, Eq, Structural)]
pub struct Rgba(pub u8, pub u8, pub u8, pub u8);

/// One stroke of the document.
#[derive(Debug, Clone, PartialEq, Eq)]
pub struct Stroke {
    /// Normalised points, 0 to 1 in canvas space.
    pub points: Vec<(F32, F32)>,
    pub color: Rgba,
    pub width_px: F32,
    pub tool: Tool,
    /// The text of a text stroke, or the image path of an image stroke.
    pub text: Option<String>,
    /// Milliseconds since recording start when the stroke appears; it persists
    /// afterwards.
    pub appear_ms: u64,
    /// Text height in canvas pixels.
    pub font_px: Option<F32>,
    /// Fill the interior of a rectangle or ellipse.
    pub filled: bool,
    /// Font file; `None` is the system's default.
    pub font_path: Option<String>,
}

/// An image placed on the canvas.
#[derive(Debug, Clone, PartialEq, Eq)]
pub struct Watermark {
    pub asset_id: String,
    pub x: F32,
    pub y: F32,
    pub w: F32,
    pub h: F32,
    pub opacity: F32,
    /// Milliseconds since recording start when the watermark appears.
    pub appear_ms: u64,
}

/// The document that is saved beside a recording.
#[derive(Debug, Clone, PartialEq, Eq)]
pub struct AnnotateDoc {
    pub version: u32,
    /// Canvas size the coordinates were authored against.
    pub canvas_w: u32,
    pub canvas_h: u32,
    pub strokes: Vec<Stroke>,
    pub watermarks: Vec<Watermark>,
    pub burn_in: bool,
}

/// Live drawing events.
///
/// `PenLive` carries the pen stroke in progress with all its points so far, so
/// that a later one replaces it. The matching `AddStroke` commits it; `Undo` and
/// `Clear` cancel it.
#[derive(Debug, Clone, PartialEq, Eq)]
pub enum DrawEvent {
    AddStroke(Stroke),
    PenLive { color: Rgba, width_px: F32, points: Vec<(F32, F32)> },
    Undo,
    Clear,
}

#[derive(Debug, Clone, PartialEq, Eq)]
pub enum AnnotateError {
    Io(String),
    Json(String),
    EmptyStroke,
}

impl AnnotateError {
    /// The text of the error.
    pub open spec fn text(self) -> Seq<char> {
        match self {
            AnnotateError::Io(m) => "io: "@ + m@,
            AnnotateError::Json(m) => "json: "@ + m@,
            AnnotateError::EmptyStroke => "stroke has no points"@,
        }
    }

    /// The text of the error, for the user.
    pub fn message(&self) -> (s: String)
        ensures
            s@ == self.text(),
    {
        match self {
            AnnotateError::Io(m) => join2("io: ", m.as_str()),
            AnnotateError::Json(m) => join2("json: ", m.as_str()),
            AnnotateError::EmptyStroke => "stroke has no points".to_owned(),
        }
    }
}

/// A coordinate limited to the canvas.
pub open spec fn on_canvas(v: F32) -> F32 {
    v.clamped(F32 { bits: ZERO_BITS }, F32 { bits: ONE_BITS })
}

/// Points limited to the canvas.
pub open spec fn points_on_canvas(pts: Seq<(F32, F32)>) -> Seq<(F32, F32)> {
    pts.map_values(|p: (F32, F32)| (on_canvas(p.0), on_canvas(p.1)))
}

/// Are the strokes alike but for their points?
pub open spec fn same_but_points(a: Stroke, b: Stroke) -> bool {
    &&& a.color == b.color
    &&& a.width_px == b.width_px
    &&& a.tool == b.tool
    &&& a.text == b.text
    &&& a.appear_ms == b.appear_ms
    &&& a.font_px == b.font_px
    &&& a.filled == b.filled
    &&& a.font_path == b.font_path
}

fn clamp_points(pts: &Vec<(F32, F32)>) -> (out: Vec<(F32, F32)>)
    ensures
        out@ == points_on_canvas(pts@),
{
    let zero = F32 { bits: ZERO_BITS };
    let one = F32 { bits: ONE_BITS };
    let mut out: Vec<(F32, F32)> = Vec::new();
    let mut i: usize = 0;
    while i < pts.len()
        invariant
            i <= pts@.len(),
            zero.bits == ZERO_BITS,
            one.bits == ONE_BITS,
            out@ == points_on_canvas(pts@.take(i as int)),
        decreases pts@.len() - i,
    {
        let p = pts[i];
        out.push((p.0.clamp_to(zero, one), p.1.clamp_to(zero, one)));
        i += 1;
        assert(out@ =~= points_on_canvas(pts@.take(i as int)));
    }
    assert(pts@.take(pts@.len() as int) =~= pts@);
    out
}

impl Default for AnnotateDoc {
    fn default() -> (r: Self)
        ensures
            r.version == 1,
            r.canvas_w == 1920,
            r.canvas_h == 1080,
            r.strokes@.len() == 0,
            r.watermarks@.len() == 0,
            r.burn_in,
    {
        Self {
            version: 1,
            canvas_w: 1920,
            canvas_h: 1080,
            strokes: Vec::new(),
            watermarks: Vec::new(),
            burn_in: true,
        }
    }
}

impl AnnotateDoc {
    /// The two documents agree on everything but their strokes.
    pub open spec fn same_but_strokes(self, other: AnnotateDoc) -> bool {
        &&& self.version == other.version
        &&& self.canvas_w == other.canvas_w
        &&& self.canvas_h == other.canvas_h
        &&& self.watermarks == other.watermarks
        &&& self.burn_in == other.burn_in
    }

    /// Adds a stroke at the end, its points limited to the canvas. A stroke
    /// without points is refused.
    pub fn add_stroke(&mut self, s: Stroke) -> (r: Result<(), AnnotateError>)
        ensures
            final(self).same_but_strokes(*old(self)),
            s.points@.len() == 0 ==> r == Err::<(), AnnotateError>(AnnotateError::EmptyStroke)
                && final(self).strokes@ == old(self).strokes@,
            s.points@.len() > 0 ==> {
                &&& r is Ok
                &&& final(self).strokes@.len() == old(self).strokes@.len() + 1
                &&& final(self).strokes@.drop_last() == old(self).strokes@
                &&& same_but_points(final(self).strokes@.last(), s)
                &&& final(self).strokes@.last().points@ == points_on_canvas(s.points@)
            },
    {
        if s.points.len() == 0 {
            return Err(AnnotateError::EmptyStroke);
        }
        let clamped = Stroke { points: clamp_points(&s.points), ..s };
        self.strokes.push(clamped);
        assert(self.strokes@.drop_last() =~= old(self).strokes@);
        Ok(())
    }

    /// Removes all strokes and watermarks.
    pub fn clear(&mut self)
        ensures
            final(self).strokes@.len() == 0,
            final(self).watermarks@.len() == 0,
            final(self).version == old(self).version,
            final(self).canvas_w == old(self).canvas_w,
            final(self).canvas_h == old(self).canvas_h,
            final(self).burn_in == old(self).burn_in,
    {
        self.strokes.clear();
        self.watermarks.clear();
    }

    /// The path of the document beside a recording.
    pub fn sidecar_path_for(video_path: &str) -> (r: String)
        ensures
            r@ == video_path@ + ".qcap.json"@,
    {
        join2(video_path, ".qcap.json")
    }
}

/// Strokes that a document accepted lie on the canvas: each coordinate that is a
/// number is between 0 and 1.
pub proof fn law_points_on_canvas(pts: Seq<(F32, F32)>, i: int)
    requires
        0 <= i < pts.len(),
    ensures
        ({
            let zero = F32 { bits: ZERO_BITS };
            let one = F32 { bits: ONE_BITS };
            let q = points_on_canvas(pts)[i];
            &&& !pts[i].0.nan() ==> zero.at_most(q.0) && q.0.at_most(one)
            &&& !pts[i].1.nan() ==> zero.at_most(q.1) && q.1.at_most(one)
        }),
        points_on_canvas(points_on_canvas(pts)) == points_on_canvas(pts),
{
    assert(points_on_canvas(points_on_canvas(pts)) =~= points_on_canvas(pts));
}

/// Are the strokes alike?
pub open spec fn alike(a: Stroke, b: Stroke) -> bool {
    same_but_points(a, b) && a.points@ == b.points@
}

/// Are the strokes alike, one by one?
pub open spec fn all_alike(a: Seq<Stroke>, b: Seq<Stroke>) -> bool {
    &&& a.len() == b.len()
    &&& forall|i: int| 0 <= i < a.len() ==> alike(#[trigger] a[i], b[i])
}

fn copy_text(t: &Option<String>) -> (r: Option<String>)
    ensures
        r == *t,
{
    match t {
        Some(s) => Some(s.clone()),
        None => None,
    }
}

/// The same stroke.
pub fn copy_stroke(s: &Stroke) -> (r: Stroke)
    ensures
        alike(r, *s),
{
    Stroke {
        points: copy_points(s.points.as_slice()),
        color: s.color,
        width_px: s.width_px,
        tool: s.tool,
        text: copy_text(&s.text),
        appear_ms: s.appear_ms,
        font_px: s.font_px,
        filled: s.filled,
        font_path: copy_text(&s.font_path),
    }
}

/// The same strokes.
pub fn copy_strokes(v: &Vec<Stroke>) -> (r: Vec<Stroke>)
    ensures
        all_alike(r@, v@),
{
    let mut out: Vec<Stroke> = Vec::new();
    let mut i: usize = 0;
    while i < v.len()
        invariant
            i <= v@.len(),
            out@.len() == i,
            forall|k: int| 0 <= k < i ==> alike(#[trigger] out@[k], v@[k]),
        decreases v@.len() - i,
    {
        out.push(copy_stroke(&v[i]));
        i += 1;
    }
    out
}

// ---------------------------------------------------------------------------
// Smoothing
// ---------------------------------------------------------------------------

/// Is `next` the line `cur` with its corners cut once? The ends stay, and each
/// segment gives the points near its first and near its second end.
pub open spec fn cut_once<P, F: Fn(P, P) -> P>(near: F, cur: Seq<P>, next: Seq<P>) -> bool {
    &&& cur.len() >= 1
    &&& next.len() == 2 * cur.len()
    &&& next[0] == cur[0]
    &&& next.last() == cur.last()
    &&& forall|i: int|
        0 <= i < cur.len() - 1 ==> {
            &&& call_ensures(near, (cur[i], #[trigger] cur[i + 1]), next[2 * i + 1])
            &&& call_ensures(near, (cur[i + 1], cur[i]), next[2 * i + 2])
        }
}

/// Is `out` the line `pts` with its corners cut `n` times?
pub open spec fn cut_times<P, F: Fn(P, P) -> P>(
    near: F,
    pts: Seq<P>,
    n: nat,
    out: Seq<P>,
) -> bool
    decreases n,
{
    if n == 0 {
        out == pts
    } else {
        exists|mid: Seq<P>|
            cut_times(near, pts, (n - 1) as nat, mid) && #[trigger] cut_once(near, mid, out)
    }
}

fn copy_points<P: Copy>(pts: &[P]) -> (out: Vec<P>)
    ensures
        out@ == pts@,
{
    let mut out: Vec<P> = Vec::new();
    let mut i: usize = 0;
    while i < pts.len()
        invariant
            i <= pts@.len(),
            out@ == pts@.take(i as int),
        decreases pts@.len() - i,
    {
        out.push(pts[i]);
        i += 1;
        assert(out@ =~= pts@.take(i as int));
    }
    assert(pts@.take(pts@.len() as int) =~= pts@);
    out
}

fn cut_corners<P: Copy, F: Fn(P, P) -> P>(cur: &Vec<P>, near: &F) -> (next: Vec<P>)
    requires
        cur@.len() >= 1,
        forall|a: P, b: P| call_requires(*near, (a, b)),
    ensures
        cut_once(*near, cur@, next@),
{
    let mut next: Vec<P> = Vec::new();
    next.push(cur[0]);
    let mut i: usize = 0;
    while i < cur.len() - 1
        invariant
            cur@.len() >= 1,
            i <= cur@.len() - 1,
            forall|a: P, b: P| call_requires(*near, (a, b)),
            next@.len() == 2 * i + 1,
            next@[0] == cur@[0],
            forall|k: int|
                0 <= k < i ==> {
                    &&& call_ensures(*near, (cur@[k], #[trigger] cur@[k + 1]), next@[2 * k + 1])
                    &&& call_ensures(*near, (cur@[k + 1], cur@[k]), next@[2 * k + 2])
                },
        decreases cur@.len() - i,
    {
        let a = cur[i];
        let b = cur[i + 1];
        next.push(near(a, b));
        next.push(near(b, a));
        i += 1;
    }
    next.push(cur[cur.len() - 1]);
    next
}

/// Corner cutting on an open line: each round replaces every segment by the
/// points at one and three quarters of it and keeps the ends, which turns angular
/// pointer input into a smooth curve. `near(a, b)` is the point a quarter of the
/// way from `a` to `b`. Lines of fewer than three points stay.
pub fn smooth_polyline<P: Copy, F: Fn(P, P) -> P>(
    points: &[P],
    iterations: usize,
    near: F,
) -> (out: Vec<P>)
    requires
        forall|a: P, b: P| call_requires(near, (a, b)),
    ensures
        points@.len() < 3 ==> out@ == points@,
        points@.len() >= 3 ==> cut_times(near, points@, iterations as nat, out@),
{
    let mut cur = copy_points(points);
    if points.len() < 3 {
        return cur;
    }
    let mut n: usize = 0;
    while n < iterations
        invariant
            n <= iterations,
            cur@.len() >= 3,
            forall|a: P, b: P| call_requires(near, (a, b)),
            cut_times(near, points@, n as nat, cur@),
        decreases iterations - n,
    {
        let ghost mid = cur@;
        cur = cut_corners(&cur, &near);
        assert(cut_times(near, points@, n as nat, mid));
        assert(cut_once(near, mid, cur@));
        n += 1;
        assert(cut_times(near, points@, n as nat, cur@));
    }
    cur
}

/// Smoothing keeps both ends of a line and doubles its points each time.
pub proof fn law_smoothing_keeps_ends<P, F: Fn(P, P) -> P>(
    near: F,
    pts: Seq<P>,
    n: nat,
    out: Seq<P>,
)
    requires
        pts.len() >= 1,
        cut_times(near, pts, n, out),
    ensures
        out.len() == pts.len() * vstd::arithmetic::power2::pow2(n),
        out.len() >= 1,
        out[0] == pts[0],
        out.last() == pts.last(),
    decreases n,
{
    if n == 0 {
        vstd::arithmetic::power2::lemma2_to64();
    } else {
        let mid = choose|mid: Seq<P>|
            cut_times(near, pts, (n - 1) as nat, mid) && #[trigger] cut_once(near, mid, out);
        law_smoothing_keeps_ends(near, pts, (n - 1) as nat, mid);
        vstd::arithmetic::power2::lemma_pow2_unfold(n);
        let p = vstd::arithmetic::power2::pow2((n - 1) as nat);
        assert(2 * (pts.len() * p) == pts.len() * (2 * p)) by (nonlinear_arith);
    }
}

// ---------------------------------------------------------------------------
// Fonts
// ---------------------------------------------------------------------------

/// The default fonts to try, in order. `windir` is the Windows directory, where
/// the system names one.
pub fn font_candidates(windir: Option<&str>) -> (r: Vec<String>)
    ensures
        text::texts(r@) == (match windir {
            Some(w) => seq![w@ + "\\Fonts\\arial.ttf"@],
            None => Seq::empty(),
        }) + seq![
            "/usr/share/fonts/truetype/dejavu/DejaVuSans.ttf"@,
            "/System/Library/Fonts/Helvetica.ttc"@,
        ],
{
    let mut r: Vec<String> = Vec::new();
    if let Some(w) = windir {
        push_text(&mut r, join2(w, "\\Fonts\\arial.ttf").as_str());
    }
    push_text(&mut r, "/usr/share/fonts/truetype/dejavu/DejaVuSans.ttf");
    push_text(&mut r, "/System/Library/Fonts/Helvetica.ttc");
    r
}

// ---------------------------------------------------------------------------
// What holds on every input
// ---------------------------------------------------------------------------

/// A coordinate on the canvas stays; one below 0 becomes 0 and one above 1 becomes 1.
pub proof fn law_coordinate_on_the_canvas(v: F32)
    ensures
        v.bits <= 0x3f80_0000 ==> on_canvas(v) == v,
        0x3f80_0000 < v.bits <= 0x7f80_0000 ==> on_canvas(v).bits == 0x3f80_0000,
        0x8000_0000 < v.bits <= 0xff80_0000 ==> on_canvas(v).bits == 0,
{
}

/// Each point is limited by itself, across and down, and none is lost.
pub proof fn law_points_one_by_one(pts: Seq<(F32, F32)>, i: int)
    requires
        0 <= i < pts.len(),
    ensures
        points_on_canvas(pts).len() == pts.len(),
        points_on_canvas(pts)[i].0 == on_canvas(pts[i].0),
        points_on_canvas(pts)[i].1 == on_canvas(pts[i].1),
{
}

/// Strokes that are alike agree in everything.
pub proof fn law_alike_strokes(a: Stroke, b: Stroke)
    ensures
        alike(a, b) <==> {
            &&& a.points@ == b.points@
            &&& a.color == b.color
            &&& a.width_px == b.width_px
            &&& a.tool == b.tool
            &&& a.text == b.text
            &&& a.appear_ms == b.appear_ms
            &&& a.font_px == b.font_px
            &&& a.filled == b.filled
            &&& a.font_path == b.font_path
        },
        same_but_points(a, b) && a.points@ == b.points@ ==> alike(a, b),
        same_but_points(a, b) ==> a.tool == b.tool && a.color == b.color && a.appear_ms
            == b.appear_ms && a.text == b.text && a.width_px == b.width_px && a.font_px == b.font_px
            && a.filled == b.filled && a.font_path == b.font_path,
{
}

/// Lists of strokes are alike where they are so one by one.
pub proof fn law_alike_lists(a: Seq<Stroke>, b: Seq<Stroke>, i: int)
    requires
        all_alike(a, b),
        0 <= i < a.len(),
    ensures
        a.len() == b.len(),
        alike(a[i], b[i]),
{
}

/// Documents that agree but for their strokes agree in all the rest.
pub proof fn law_documents_but_for_strokes(a: AnnotateDoc, b: AnnotateDoc)
    requires
        a.same_but_strokes(b),
    ensures
        a.version == b.version,
        a.canvas_w == b.canvas_w,
        a.canvas_h == b.canvas_h,
        a.watermarks == b.watermarks,
        a.burn_in == b.burn_in,
{
}

/// Cutting the corners of a line puts two points on each piece of it, the first near
/// its beginning and the second near its end, and keeps both ends of the line.
pub proof fn law_cut_corners<P, F: Fn(P, P) -> P>(near: F, cur: Seq<P>, next: Seq<P>, i: int)
    requires
        cut_once(near, cur, next),
        0 <= i < cur.len() - 1,
    ensures
        next.len() == 2 * cur.len(),
        next[0] == cur[0],
        next[next.len() - 1] == cur[cur.len() - 1],
        call_ensures(near, (cur[i], cur[i + 1]), next[2 * i + 1]),
        call_ensures(near, (cur[i + 1], cur[i]), next[2 * i + 2]),
{
    assert(cur[i + 1] == cur[i + 1]);
}

/// Smoothing no time changes nothing, and smoothing once more cuts the corners of what
/// was smoothed.
pub proof fn law_smoothing_step<P, F: Fn(P, P) -> P>(
    near: F,
    pts: Seq<P>,
    n: nat,
    mid: Seq<P>,
    out: Seq<P>,
)
    ensures
        cut_times(near, pts, 0, out) <==> out == pts,
        cut_times(near, pts, n, mid) && cut_once(near, mid, out) ==> cut_times(
            near,
            pts,
            n + 1,
            out,
        ),
        cut_times(near, pts, 1, out) ==> cut_once(near, pts, out),
{
    if cut_times(near, pts, 1, out) {
        let m = choose|m: Seq<P>|
            cut_times(near, pts, 0, m) && #[trigger] cut_once(near, m, out);
        assert(m == pts);
    }
}

/// What the errors of a document say.
pub proof fn law_document_errors(e: AnnotateError)
    ensures
        e matches AnnotateError::Io(m) ==> e.text() == "io: "@ + m@,
        e matches AnnotateError::Json(m) ==> e.text() == "json: "@ + m@,
        e is EmptyStroke ==> e.text() == "stroke has no points"@,
{
}

} // verus!
