//! The region picker: a drag selects, a drag inside moves, and the keys confirm
//! or cancel. Points, rectangles and offsets are those of the window system.

use crate::capture::RgbaShot;
use crate::text;
use crate::text::{decimal_int_text, decimal_text, join3};
use crate::single::F32;
use crate::types::Rect;
use vstd::prelude::*;

verus! {

/// A monitor in physical pixels, in virtual-screen space, with its scale factor.
#[derive(Debug, Clone, Copy, PartialEq, Eq, Structural)]
pub struct MonitorGeom {
    pub x: i32,
    pub y: i32,
    pub w: u32,
    pub h: u32,
    pub scale: F32,
}

/// The smallest edge of a selection, in physical pixels.
pub const MIN_EDGE: i32 = 64;

/// Can the screenshot be the backdrop of the monitor? One of another size was
/// taken in another mode.
pub fn backdrop_fits(shot: &RgbaShot, monitor: &MonitorGeom) -> (r: bool)
    ensures
        r == (shot.width == monitor.w && shot.height == monitor.h),
{
    shot.width == monitor.w && shot.height == monitor.h
}

/// A selection in physical pixels, where it is large enough.
pub fn to_physical(x: i32, y: i32, w: i32, h: i32) -> (r: Option<Rect>)
    ensures
        r == (if w < MIN_EDGE || h < MIN_EDGE {
            None
        } else {
            Some(Rect { x, y, w: w as u32, h: h as u32 })
        }),
{
    if w < MIN_EDGE || h < MIN_EDGE {
        return None;
    }
    Some(Rect { x, y, w: w as u32, h: h as u32 })
}

/// A selection in physical pixels as the label shows it: also one that is too
/// small, unless nothing of it is left.
pub fn shown_physical(x: i32, y: i32, w: i32, h: i32) -> (r: Option<Rect>)
    ensures
        r == (if w > 0 && h > 0 {
            Some(Rect { x, y, w: w as u32, h: h as u32 })
        } else {
            None
        }),
{
    if w > 0 && h > 0 {
        Some(Rect { x, y, w: w as u32, h: h as u32 })
    } else {
        None
    }
}

/// `W × H @ X,Y`.
pub open spec fn size_of(r: Rect) -> Seq<char> {
    text::decimal(r.w as nat) + " × "@ + text::decimal(r.h as nat) + " @ "@ + text::decimal_int(
        r.x as int,
    ) + ","@ + text::decimal_int(r.y as int)
}

/// Writes the size and the place of a selection.
pub fn size_text(r: Rect) -> (s: String)
    ensures
        s@ == size_of(r),
{
    let mut s = join3(decimal_text(r.w as u64).as_str(), " × ", decimal_text(r.h as u64).as_str());
    s.append(" @ ");
    s.append(decimal_int_text(r.x).as_str());
    s.append(",");
    s.append(decimal_int_text(r.y).as_str());
    s
}

/// The label of a selection, and whether it warns.
pub fn size_label(r: Rect) -> (l: (String, bool))
    ensures
        l.1 == (r.w < MIN_EDGE || r.h < MIN_EDGE),
        l.0@ == size_of(r) + " "@ + (if l.1 {
            "(min 64×64)"@
        } else {
            ""@
        }),
{
    let small = r.w < MIN_EDGE as u32 || r.h < MIN_EDGE as u32;
    let mut s = size_text(r);
    s.append(" ");
    s.append(
        if small {
            "(min 64×64)"
        } else {
            ""
        },
    );
    (s, small)
}

/// The rectangle on show.
#[derive(Debug, Clone, Copy, PartialEq, Eq)]
pub enum Live<P, R> {
    Nothing,
    /// The one that a drag spans.
    Span(P, P),
    /// The selection.
    Selected(R),
}

/// The state of the picker.
#[derive(Debug, Clone, Copy, PartialEq, Eq)]
pub struct PickerApp<P, R, V> {
    /// Where the drag that selects began.
    pub anchor: Option<P>,
    pub current: P,
    pub selection: Option<R>,
    /// Where the selection was taken hold of, while it moves.
    pub moving: Option<V>,
}

impl<P: Copy, R: Copy, V: Copy> PickerApp<P, R, V> {
    pub fn new(origin: P) -> (r: Self)
        ensures
            r.anchor is None,
            r.current == origin,
            r.selection is None,
            r.moving is None,
    {
        Self { anchor: None, current: origin, selection: None, moving: None }
    }

    /// The rectangle on show: the drag before the selection.
    pub fn live(&self) -> (r: Live<P, R>)
        ensures
            r == (match (self.anchor, self.selection) {
                (Some(a), _) => Live::Span(a, self.current),
                (None, Some(s)) => Live::Selected(s),
                (None, None) => Live::Nothing,
            }),
    {
        match (self.anchor, self.selection) {
            (Some(a), _) => Live::Span(a, self.current),
            (None, Some(s)) => Live::Selected(s),
            (None, None) => Live::Nothing,
        }
    }

    /// The pointer is here.
    pub fn point(&mut self, p: P)
        ensures
            *final(self) == (PickerApp { current: p, ..*old(self) }),
    {
        self.current = p;
    }

    /// The picker after a press at `p`.
    pub open spec fn pressed(self, p: P, inside: bool, grab: V) -> PickerApp<P, R, V> {
        match self.selection {
            None => PickerApp { anchor: Some(p), ..self },
            Some(_) => if self.anchor is None && inside {
                PickerApp { moving: Some(grab), ..self }
            } else if self.moving is None {
                PickerApp { anchor: Some(p), ..self }
            } else {
                self
            },
        }
    }

    /// A press: inside the selection it takes hold of it, elsewhere a new drag
    /// begins. `grab` is the place inside the selection.
    pub fn press(&mut self, p: P, inside: bool, grab: V)
        ensures
            *final(self) == old(self).pressed(p, inside, grab),
    {
        if self.selection.is_some() {
            if self.anchor.is_none() && inside {
                self.moving = Some(grab);
            } else if self.moving.is_none() {
                self.anchor = Some(p);
            }
        } else {
            self.anchor = Some(p);
        }
    }

    /// What moves with the pointer: the hold and the selection.
    pub fn moved(&self) -> (r: Option<(V, R)>)
        ensures
            r == (match (self.moving, self.selection) {
                (Some(v), Some(s)) => Some((v, s)),
                _ => None,
            }),
    {
        match (self.moving, self.selection) {
            (Some(v), Some(s)) => Some((v, s)),
            _ => None,
        }
    }

    /// The selection has moved.
    pub fn move_to(&mut self, r: R)
        ensures
            *final(self) == (PickerApp { selection: Some(r), ..*old(self) }),
    {
        self.selection = Some(r);
    }

    /// The button came up: a move ends; else the drag ends, and where it began is
    /// returned.
    pub fn release(&mut self) -> (r: Option<P>)
        ensures
            old(self).moving is Some ==> r is None && *final(self) == (PickerApp {
                moving: None,
                ..*old(self)
            }),
            old(self).moving is None ==> r == old(self).anchor && *final(self) == (PickerApp {
                anchor: None,
                ..*old(self)
            }),
    {
        if self.moving.is_some() {
            self.moving = None;
            None
        } else {
            let a = self.anchor;
            self.anchor = None;
            a
        }
    }

    /// The drag spanned `r`; `big` is whether that is more than a click.
    pub fn select(&mut self, r: R, big: bool)
        ensures
            *final(self) == (if big {
                PickerApp { selection: Some(r), ..*old(self) }
            } else {
                *old(self)
            }),
    {
        if big {
            self.selection = Some(r);
        }
    }

    /// The other button: the first click gives up the selection, the next leaves.
    pub fn secondary(&mut self) -> (leave: bool)
        ensures
            leave == old(self).selection is None,
            leave ==> *final(self) == *old(self),
            !leave ==> *final(self) == (PickerApp { selection: None, anchor: None, ..*old(self) }),
    {
        if self.selection.is_none() {
            return true;
        }
        self.selection = None;
        self.anchor = None;
        false
    }
}

/// A press that does not take hold of the selection starts a drag from there,
/// unless one is held already; a press that does leaves the selection where it is.
pub proof fn law_press<P: Copy, R: Copy, V: Copy>(s: PickerApp<P, R, V>, p: P, inside: bool, grab: V)
    requires
        s.anchor is None,
        s.moving is None,
    ensures
        s.selection is Some && inside ==> s.pressed(p, inside, grab).moving == Some(grab)
            && s.pressed(p, inside, grab).anchor is None,
        s.selection is None || !inside ==> s.pressed(p, inside, grab).anchor == Some(p)
            && s.pressed(p, inside, grab).moving is None,
        s.pressed(p, inside, grab).selection == s.selection,
{
}

// ---------------------------------------------------------------------------
// What holds on every input
// ---------------------------------------------------------------------------

/// The label of a selection reads as its width, behind a cross its height, behind an
/// at sign its left edge, and behind a comma its top edge.
pub proof fn law_selection_label(r: Rect)
    ensures
        ({
            let (a, behind_w) = text::split_at_first(size_of(r), ' ')->0;
            let (b, behind_h) = text::split_at_first(behind_w.skip(2), ' ')->0;
            let (c, d) = text::split_at_first(behind_h.skip(2), ',')->0;
            &&& text::int_in(a) == Some(r.w as int)
            &&& text::int_in(b) == Some(r.h as int)
            &&& text::int_in(c) == Some(r.x as int)
            &&& text::int_in(d) == Some(r.y as int)
        }),
{
    reveal_strlit(" × ");
    reveal_strlit(" @ ");
    reveal_strlit(",");
    let dw = text::decimal_int(r.w as int);
    let dh = text::decimal_int(r.h as int);
    let dx = text::decimal_int(r.x as int);
    let dy = text::decimal_int(r.y as int);
    let place = dx + seq![','] + dy;
    let behind_h = seq!['@', ' '] + place;
    let high = dh + seq![' '] + behind_h;
    let behind_w = seq!['×', ' '] + high;
    assert(size_of(r) =~= dw + seq![' '] + behind_w);
    assert(behind_w.skip(2) =~= high);
    assert(behind_h.skip(2) =~= place);
    text::law_number_before(r.w as int, ' ', behind_w);
    text::law_number_before(r.h as int, ' ', behind_h);
    text::law_number_before(r.x as int, ',', dy);
    text::law_decimal_int_reads_back(r.y as int);
}

/// A selection has 64 pixels at least each way.
pub proof fn law_smallest_selection(w: i32)
    ensures
        w < MIN_EDGE <==> w < 64,
{
}

/// A press while the selection is being moved changes nothing, and none changes where
/// the pointer is.
pub proof fn law_press_while_moving<P: Copy, R: Copy, V: Copy>(
    s: PickerApp<P, R, V>,
    p: P,
    inside: bool,
    grab: V,
)
    ensures
        s.selection is Some && !inside && s.moving is Some ==> s.pressed(p, inside, grab) == s,
        s.pressed(p, inside, grab).current == s.current,
        s.pressed(p, inside, grab).selection == s.selection,
        s.selection is None ==> s.pressed(p, inside, grab).anchor == Some(p) && s.pressed(
            p,
            inside,
            grab,
        ).moving == s.moving,
        s.selection is Some && inside && s.anchor is None ==> s.pressed(p, inside, grab).moving
            == Some(grab),
{
}

} // verus!
