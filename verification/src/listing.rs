//! The lines that the query flags print, and the demonstration document.

use crate::annotate;
use crate::annotate::{AnnotateDoc, Rgba, Stroke, Tool};
use crate::encode;
use crate::encode::{parse_canvas, EncodeError, EncodeErrorView};
use crate::single::F32;
use crate::text;
use crate::text::{decimal_int_text, decimal_long_text, decimal_text, join3};
use crate::types::{CanvasConfig, DisplayInfo, WindowInfo};
use vstd::prelude::*;

verus! {

/// `WxH+X+Y`.
pub open spec fn geometry(w: u32, h: u32, x: i32, y: i32) -> Seq<char> {
    text::decimal(w as nat) + "x"@ + text::decimal(h as nat) + "+"@ + text::decimal_int(x as int)
        + "+"@ + text::decimal_int(y as int)
}

fn geometry_text(w: u32, h: u32, x: i32, y: i32) -> (s: String)
    ensures
        s@ == geometry(w, h, x, y),
{
    let mut s = join3(decimal_text(w as u64).as_str(), "x", decimal_text(h as u64).as_str());
    s.append("+");
    s.append(decimal_int_text(x).as_str());
    s.append("+");
    s.append(decimal_int_text(y).as_str());
    s
}

/// `true` or `false`.
pub open spec fn truth(b: bool) -> Seq<char> {
    if b {
        "true"@
    } else {
        "false"@
    }
}

/// A display as `--list-screens` prints it; `scale` is the scale factor with two
/// decimals.
pub fn display_line(d: &DisplayInfo, scale: &str) -> (s: String)
    ensures
        s@ == "#"@ + text::decimal(d.id as nat) + " "@ + d.name@ + " "@ + geometry(
            d.width,
            d.height,
            d.x,
            d.y,
        ) + " scale="@ + scale@ + " primary="@ + truth(d.is_primary) + " refresh="@ + (
        match d.refresh_hz {
            Some(hz) => "Some("@ + text::decimal(hz as nat) + ")"@,
            None => "None"@,
        }),
{
    let mut s = join3("#", decimal_text(d.id as u64).as_str(), " ");
    s.append(d.name.as_str());
    s.append(" ");
    s.append(geometry_text(d.width, d.height, d.x, d.y).as_str());
    s.append(" scale=");
    s.append(scale);
    s.append(" primary=");
    s.append(
        if d.is_primary {
            "true"
        } else {
            "false"
        },
    );
    s.append(" refresh=");
    let refresh = match d.refresh_hz {
        Some(hz) => join3("Some(", decimal_text(hz as u64).as_str(), ")"),
        None => "None".to_owned(),
    };
    s.append(refresh.as_str());
    s
}

/// A window as `--list-windows` prints it.
pub fn window_line(w: &WindowInfo) -> (s: String)
    ensures
        s@ == "["@ + text::decimal_int(w.id as int) + "] "@ + w.app_name@ + " — "@ + w.title@
            + " ("@ + geometry(w.width, w.height, w.x, w.y) + (if w.minimized {
            " minimized"@
        } else {
            ""@
        }) + ")"@,
{
    let mut s = join3("[", decimal_long_text(w.id).as_str(), "] ");
    s.append(w.app_name.as_str());
    s.append(" — ");
    s.append(w.title.as_str());
    s.append(" (");
    s.append(geometry_text(w.width, w.height, w.x, w.y).as_str());
    s.append(
        if w.minimized {
            " minimized"
        } else {
            ""
        },
    );
    s.append(")");
    s
}

/// A canvas as `--canvas-presets` prints it.
pub fn preset_line(c: CanvasConfig) -> (s: String)
    ensures
        s@ == "  "@ + text::decimal(c.width as nat) + "x"@ + text::decimal(c.height as nat)
            + " @ "@ + text::decimal(c.fps as nat) + "fps"@,
{
    let mut s = join3("  ", decimal_text(c.width as u64).as_str(), "x");
    s.append(decimal_text(c.height as u64).as_str());
    s.append(" @ ");
    s.append(decimal_text(c.fps as u64).as_str());
    s.append("fps");
    s
}

/// What is said of the annotations that a recording burns in.
pub fn annotations_line(doc: &AnnotateDoc, path: &str) -> (s: String)
    ensures
        s@ == "annotations: "@ + text::decimal(doc.strokes@.len()) + " strokes + "@
            + text::decimal(doc.watermarks@.len()) + " watermarks from "@ + path@,
{
    let strokes: usize = doc.strokes.len();
    let marks: usize = doc.watermarks.len();
    let mut s = join3("annotations: ", decimal_text(strokes as u64).as_str(), " strokes + ");
    s.append(decimal_text(marks as u64).as_str());
    s.append(" watermarks from ");
    s.append(path);
    s
}

// ---------------------------------------------------------------------------
// The demonstration document
// ---------------------------------------------------------------------------

/// The bits of 0.05, 0.95, 0.08 and 0.78, of the widths 6 and 1, and of the text
/// height 48.
pub const NEAR_BITS: u32 = 0x3d4c_cccd;

pub const FAR_BITS: u32 = 0x3f73_3333;

pub const CAPTION_X_BITS: u32 = 0x3da3_d70a;

pub const CAPTION_Y_BITS: u32 = 0x3f47_ae14;

pub const THICK_BITS: u32 = 0x40c0_0000;

pub const THIN_BITS: u32 = 0x3f80_0000;

pub const DEMO_FONT_BITS: u32 = 0x4240_0000;

/// The point with these coordinates.
pub open spec fn point(x: u32, y: u32) -> (F32, F32) {
    (F32 { bits: x }, F32 { bits: y })
}

/// Is this a stroke of the demonstration?
pub open spec fn demo_stroke(
    s: Stroke,
    tool: Tool,
    points: Seq<(F32, F32)>,
    color: Rgba,
    width: u32,
    caption: Option<Seq<char>>,
    appear_ms: u64,
) -> bool {
    &&& s.tool == tool
    &&& s.points@ == points
    &&& s.color == color
    &&& s.width_px.bits == width
    &&& match caption {
        Some(c) => s.text matches Some(t) && t@ == c,
        None => s.text is None,
    }
    &&& s.appear_ms == appear_ms
    &&& s.font_px == Some(F32 { bits: DEMO_FONT_BITS })
    &&& !s.filled
    &&& s.font_path is None
}

fn add_demo(
    doc: &mut AnnotateDoc,
    tool: Tool,
    points: Vec<(F32, F32)>,
    color: Rgba,
    width: u32,
    caption: Option<&str>,
    appear_ms: u64,
)
    requires
        points@.len() > 0,
        annotate::points_on_canvas(points@) == points@,
    ensures
        final(doc).same_but_strokes(*old(doc)),
        final(doc).strokes@.len() == old(doc).strokes@.len() + 1,
        final(doc).strokes@.drop_last() == old(doc).strokes@,
        demo_stroke(
            final(doc).strokes@.last(),
            tool,
            points@,
            color,
            width,
            match caption {
                Some(c) => Some(c@),
                None => None,
            },
            appear_ms,
        ),
{
    let text = match caption {
        Some(c) => Some(c.to_owned()),
        None => None,
    };
    let _ = doc.add_stroke(
        Stroke {
            points,
            color,
            width_px: F32 { bits: width },
            tool,
            text,
            appear_ms,
            font_px: Some(F32 { bits: DEMO_FONT_BITS }),
            filled: false,
            font_path: None,
        },
    );
}

/// The demonstration: a red border at once, a green diagonal after a second, a
/// white caption after two.
pub fn demo_doc(canvas: &str) -> (r: Result<AnnotateDoc, EncodeError>)
    ensures
        match encode::canvas_in(canvas@) {
            Err(m) => r matches Err(e) && e@ == EncodeErrorView::Probe(m),
            Ok((w, h, _)) => r matches Ok(d) && d.version == 1 && d.canvas_w == w && d.canvas_h
                == h && d.watermarks@.len() == 0 && d.burn_in && d.strokes@.len() == 3
                && demo_stroke(
                d.strokes@[0],
                Tool::Rect,
                seq![point(NEAR_BITS, NEAR_BITS), point(FAR_BITS, FAR_BITS)],
                Rgba(255, 0, 0, 255),
                THICK_BITS,
                None,
                0,
            ) && demo_stroke(
                d.strokes@[1],
                Tool::Line,
                seq![point(NEAR_BITS, FAR_BITS), point(FAR_BITS, NEAR_BITS)],
                Rgba(0, 255, 0, 255),
                THICK_BITS,
                None,
                1000,
            ) && demo_stroke(
                d.strokes@[2],
                Tool::Text,
                seq![point(CAPTION_X_BITS, CAPTION_Y_BITS)],
                Rgba(255, 255, 255, 255),
                THIN_BITS,
                Some("QCapture demo"@),
                2000,
            ),
        },
{
    let (w, h, _) = match parse_canvas(canvas) {
        Ok(c) => c,
        Err(e) => {
            return Err(e);
        },
    };
    let mut doc = AnnotateDoc::default();
    doc.canvas_w = w;
    doc.canvas_h = h;
    let near = F32 { bits: NEAR_BITS };
    let far = F32 { bits: FAR_BITS };
    let border: Vec<(F32, F32)> = vec![(near, near), (far, far)];
    let diagonal: Vec<(F32, F32)> = vec![(near, far), (far, near)];
    let place: Vec<(F32, F32)> = vec![
        (F32 { bits: CAPTION_X_BITS }, F32 { bits: CAPTION_Y_BITS }),
    ];
    assert(border@ =~= seq![point(NEAR_BITS, NEAR_BITS), point(FAR_BITS, FAR_BITS)]);
    assert(diagonal@ =~= seq![point(NEAR_BITS, FAR_BITS), point(FAR_BITS, NEAR_BITS)]);
    assert(place@ =~= seq![point(CAPTION_X_BITS, CAPTION_Y_BITS)]);
    assert(annotate::points_on_canvas(border@) =~= border@);
    assert(annotate::points_on_canvas(diagonal@) =~= diagonal@);
    assert(annotate::points_on_canvas(place@) =~= place@);
    add_demo(&mut doc, Tool::Rect, border, Rgba(255, 0, 0, 255), THICK_BITS, None, 0);
    let ghost one = doc.strokes@;
    add_demo(&mut doc, Tool::Line, diagonal, Rgba(0, 255, 0, 255), THICK_BITS, None, 1000);
    let ghost two = doc.strokes@;
    add_demo(
        &mut doc,
        Tool::Text,
        place,
        Rgba(255, 255, 255, 255),
        THIN_BITS,
        Some("QCapture demo"),
        2000,
    );
    proof {
        assert(doc.strokes@[1] == two[1]);
        assert(doc.strokes@[0] == two[0]);
        assert(two[0] == one[0]);
    }
    Ok(doc)
}

/// What is said once the demonstration is written.
pub fn demo_line(path: &str, doc: &AnnotateDoc) -> (s: String)
    ensures
        s@ == "wrote "@ + path@ + " ("@ + text::decimal(doc.strokes@.len()) + " strokes, canvas "@
            + text::decimal(doc.canvas_w as nat) + "x"@ + text::decimal(doc.canvas_h as nat)
            + ")"@,
{
    let n: usize = doc.strokes.len();
    let mut s = join3("wrote ", path, " (");
    s.append(decimal_text(n as u64).as_str());
    s.append(" strokes, canvas ");
    s.append(decimal_text(doc.canvas_w as u64).as_str());
    s.append("x");
    s.append(decimal_text(doc.canvas_h as u64).as_str());
    s.append(")");
    s
}

// ---------------------------------------------------------------------------
// What holds on every input
// ---------------------------------------------------------------------------

/// A geometry reads as the size and then the place: up to the `x` the width, up to the
/// first `+` the height, up to the next the left edge, and then the top edge.
pub proof fn law_geometry(w: u32, h: u32, x: i32, y: i32)
    ensures
        ({
            let (a, behind_w) = text::split_at_first(geometry(w, h, x, y), 'x')->0;
            let (b, behind_h) = text::split_at_first(behind_w, '+')->0;
            let (c, d) = text::split_at_first(behind_h, '+')->0;
            &&& text::int_in(a) == Some(w as int)
            &&& text::int_in(b) == Some(h as int)
            &&& text::int_in(c) == Some(x as int)
            &&& text::int_in(d) == Some(y as int)
        }),
{
    reveal_strlit("x");
    reveal_strlit("+");
    assert("x"@ =~= seq!['x']);
    assert("+"@ =~= seq!['+']);
    let dw = text::decimal_int(w as int);
    let dh = text::decimal_int(h as int);
    let dx = text::decimal_int(x as int);
    let dy = text::decimal_int(y as int);
    let place = dx + seq!['+'] + dy;
    let behind = dh + seq!['+'] + place;
    assert(geometry(w, h, x, y) =~= dw + seq!['x'] + behind);
    text::law_number_before(w as int, 'x', behind);
    text::law_number_before(h as int, '+', place);
    text::law_number_before(x as int, '+', dy);
    text::law_decimal_int_reads_back(y as int);
}

/// Truth is written out.
pub proof fn law_truth(b: bool)
    ensures
        b ==> truth(b) == "true"@,
        !b ==> truth(b) == "false"@,
{
}

/// A stroke of the demo is drawn with its own tool, points, colour, width and caption,
/// in its own moment.
pub proof fn law_demo_strokes(
    s: Stroke,
    tool: Tool,
    points: Seq<(F32, F32)>,
    color: Rgba,
    width: u32,
    caption: Option<Seq<char>>,
    appear_ms: u64,
)
    requires
        demo_stroke(s, tool, points, color, width, caption, appear_ms),
    ensures
        s.tool == tool,
        s.points@ == points,
        s.color == color,
        s.width_px.bits == width,
        s.appear_ms == appear_ms,
        !s.filled,
        caption is None <==> s.text is None,
        caption matches Some(c) ==> s.text->0@ == c,
        s.font_px matches Some(f) && f.bits == 0x4240_0000,
{
}

/// The demo reaches from 5 to 95 percent of the canvas, with its caption below.
pub proof fn law_demo_places(x: u32, y: u32)
    ensures
        NEAR_BITS == 0x3d4c_cccd && FAR_BITS == 0x3f73_3333,
        CAPTION_X_BITS == 0x3da3_d70a && CAPTION_Y_BITS == 0x3f47_ae14,
        THICK_BITS == 0x40c0_0000 && THIN_BITS == 0x3f80_0000,
        point(x, y).0.bits == x,
        point(x, y).1.bits == y,
{
}

} // verus!
