//! Drawing gestures: pen paths, shapes spanned by a drag, and text put at a click.
//!
//! Points are whatever the window system gives; the gestures only keep them.

use crate::text;
use crate::text::{to_chars, trim};
use vstd::prelude::*;

verus! {

/// The pointer in one frame: where it is, whether the button went down or came up
/// in this frame, and whether it is down now.
#[derive(Debug, Clone, Copy, PartialEq, Eq)]
pub struct Pointer<P> {
    pub pos: P,
    pub pressed: bool,
    pub down: bool,
    pub released: bool,
}

/// What is being drawn.
#[derive(Debug, Clone, PartialEq, Eq)]
pub struct Gestures<P> {
    /// The pen path in progress; empty where there is none.
    pub active_pen: Vec<P>,
    /// Where the shape in progress began and where it is now.
    pub shape: Option<(P, P)>,
    /// Where a text is being put.
    pub text_at: Option<P>,
    pub text_buf: String,
}

/// The pen path after the pointer moved. `on_canvas` is whether a press there
/// starts a stroke, `moved` whether the pointer is far enough from the last point.
pub open spec fn pen_path<P>(path: Seq<P>, p: Pointer<P>, on_canvas: bool, moved: bool) -> Seq<P> {
    if p.pressed && on_canvas {
        seq![p.pos]
    } else if p.down && path.len() > 0 && moved {
        path.push(p.pos)
    } else {
        path
    }
}

/// The shape after the pointer moved.
pub open spec fn shape_span<P>(shape: Option<(P, P)>, p: Pointer<P>, on_canvas: bool) -> Option<
    (P, P),
> {
    if p.pressed && on_canvas {
        Some((p.pos, p.pos))
    } else {
        match shape {
            Some((a, _)) if p.down => Some((a, p.pos)),
            _ => shape,
        }
    }
}

/// What the pointer did to the pen path.
#[derive(Debug, Clone, Copy, PartialEq, Eq, Structural)]
pub enum PenStep {
    Nothing,
    /// A path began.
    Began,
    /// The path has one point more.
    Grew,
}

impl<P: Copy> Gestures<P> {
    pub fn new() -> (r: Self)
        ensures
            r.active_pen@.len() == 0,
            r.shape is None,
            r.text_at is None,
            r.text_buf@.len() == 0,
    {
        Self { active_pen: Vec::new(), shape: None, text_at: None, text_buf: String::new() }
    }

    /// The gestures differ at most in the pen path.
    pub open spec fn but_pen(self, other: Gestures<P>) -> bool {
        self.shape == other.shape && self.text_at == other.text_at && self.text_buf
            == other.text_buf
    }

    /// The gestures differ at most in the shape.
    pub open spec fn but_shape(self, other: Gestures<P>) -> bool {
        self.active_pen == other.active_pen && self.text_at == other.text_at && self.text_buf
            == other.text_buf
    }

    /// The gestures differ at most in the text.
    pub open spec fn but_text(self, other: Gestures<P>) -> bool {
        self.active_pen == other.active_pen && self.shape == other.shape
    }

    /// A press or a move of the pen.
    pub fn pen_move(&mut self, p: Pointer<P>, on_canvas: bool, moved: bool) -> (r: PenStep)
        ensures
            final(self).but_pen(*old(self)),
            final(self).active_pen@ == pen_path(old(self).active_pen@, p, on_canvas, moved),
            r == (if p.pressed && on_canvas {
                PenStep::Began
            } else if p.down && old(self).active_pen@.len() > 0 && moved {
                PenStep::Grew
            } else {
                PenStep::Nothing
            }),
    {
        if p.pressed && on_canvas {
            self.active_pen = vec![p.pos];
            assert(self.active_pen@ =~= seq![p.pos]);
            PenStep::Began
        } else if p.down && self.active_pen.len() > 0 && moved {
            self.active_pen.push(p.pos);
            PenStep::Grew
        } else {
            PenStep::Nothing
        }
    }

    /// The end of a pen stroke: the path, where the button came up. Without the
    /// button down no path goes on.
    pub fn pen_end(&mut self, p: Pointer<P>) -> (r: Option<Vec<P>>)
        ensures
            final(self).but_pen(*old(self)),
            match r {
                Some(path) => p.released && old(self).active_pen@.len() > 0 && path@ == old(
                    self,
                ).active_pen@ && final(self).active_pen@.len() == 0,
                None => !(p.released && old(self).active_pen@.len() > 0)
                    && final(self).active_pen@ == (if p.down {
                    old(self).active_pen@
                } else {
                    Seq::empty()
                }),
            },
    {
        if p.released && self.active_pen.len() > 0 {
            let mut path: Vec<P> = Vec::new();
            std::mem::swap(&mut path, &mut self.active_pen);
            return Some(path);
        }
        if !p.down {
            self.active_pen = Vec::new();
            assert(self.active_pen@ =~= Seq::<P>::empty());
        }
        None
    }

    /// A press or a move that spans a shape.
    pub fn shape_move(&mut self, p: Pointer<P>, on_canvas: bool)
        ensures
            final(self).but_shape(*old(self)),
            final(self).shape == shape_span(old(self).shape, p, on_canvas),
    {
        if p.pressed && on_canvas {
            self.shape = Some((p.pos, p.pos));
        } else if p.down {
            if let Some((a, _)) = self.shape {
                self.shape = Some((a, p.pos));
            }
        }
    }

    /// The end of a shape: its two corners, where the button came up. Without the
    /// button down no shape goes on.
    pub fn shape_end(&mut self, p: Pointer<P>) -> (r: Option<(P, P)>)
        ensures
            final(self).but_shape(*old(self)),
            r == (if p.released {
                old(self).shape
            } else {
                None
            }),
            final(self).shape == (if p.released || !p.down {
                None
            } else {
                old(self).shape
            }),
    {
        let span = if p.released {
            self.shape
        } else {
            None
        };
        if p.released || !p.down {
            self.shape = None;
        }
        span
    }

    /// A press that opens the text field.
    pub fn text_press(&mut self, p: Pointer<P>, on_canvas: bool)
        ensures
            final(self).but_text(*old(self)),
            if p.pressed && on_canvas {
                final(self).text_at == Some(p.pos) && final(self).text_buf@.len() == 0
            } else {
                *final(self) == *old(self)
            },
    {
        if p.pressed && on_canvas {
            self.text_at = Some(p.pos);
            self.text_buf = String::new();
        }
    }

    /// The "Add" button of the text field: where the text goes and what it says.
    /// Blank text is dropped.
    pub fn text_commit(&mut self) -> (r: Option<(P, String)>)
        ensures
            final(self).but_text(*old(self)),
            match old(self).text_at {
                None => r is None && *final(self) == *old(self),
                Some(at) => {
                    &&& final(self).text_at is None
                    &&& final(self).text_buf@.len() == 0
                    &&& if text::trimmed(old(self).text_buf@).len() > 0 {
                        r == Some((at, old(self).text_buf))
                    } else {
                        r is None
                    }
                },
            },
    {
        let at = match self.text_at {
            Some(at) => at,
            None => {
                return None;
            },
        };
        self.text_at = None;
        let mut said = String::new();
        std::mem::swap(&mut said, &mut self.text_buf);
        if trim(to_chars(said.as_str()).as_slice()).len() > 0 {
            Some((at, said))
        } else {
            None
        }
    }

    /// The "Cancel" button of the text field.
    pub fn text_cancel(&mut self)
        ensures
            final(self).but_text(*old(self)),
            final(self).text_at is None,
            final(self).text_buf@.len() == 0,
    {
        self.text_at = None;
        self.text_buf = String::new();
    }

    /// Gives up the path and the shape in progress.
    pub fn cancel(&mut self)
        ensures
            final(self).active_pen@.len() == 0,
            final(self).shape is None,
            final(self).text_at == old(self).text_at,
            final(self).text_buf == old(self).text_buf,
    {
        self.active_pen = Vec::new();
        self.shape = None;
    }
}

/// The path of a pen stroke begins where the button went down, and it only grows,
/// by one place of the pointer at a time.
pub proof fn law_pen_path<P>(path: Seq<P>, p: Pointer<P>, on_canvas: bool, moved: bool)
    ensures
        ({
            let next = pen_path(path, p, on_canvas, moved);
            &&& p.pressed && on_canvas ==> next == seq![p.pos]
            &&& !(p.pressed && on_canvas) ==> path.is_prefix_of(next) && next.len() <= path.len()
                + 1
            &&& !(p.pressed && on_canvas) && path.len() == 0 ==> next.len() == 0
            &&& next.len() > path.len() ==> next.last() == p.pos
        }),
{
}

// ---------------------------------------------------------------------------
// What holds on every input
// ---------------------------------------------------------------------------

/// While the button is down, each movement adds the place of the pointer to the path.
pub proof fn law_pen_follows_the_pointer<P>(path: Seq<P>, p: Pointer<P>, on_canvas: bool, moved: bool)
    requires
        !(p.pressed && on_canvas),
    ensures
        p.down && path.len() > 0 && moved ==> pen_path(path, p, on_canvas, moved) == path.push(
            p.pos,
        ),
        !p.down || path.len() == 0 || !moved ==> pen_path(path, p, on_canvas, moved) == path,
{
}

/// A shape begins where the button went down and ends where the pointer is.
pub proof fn law_shape_spans_the_drag<P>(a: P, b: P, p: Pointer<P>, on_canvas: bool)
    ensures
        p.pressed && on_canvas ==> shape_span(Some((a, b)), p, on_canvas) == Some((p.pos, p.pos))
            && shape_span(None, p, on_canvas) == Some((p.pos, p.pos)),
        !(p.pressed && on_canvas) && p.down ==> shape_span(Some((a, b)), p, on_canvas) == Some(
            (a, p.pos),
        ),
        !(p.pressed && on_canvas) && !p.down ==> shape_span(Some((a, b)), p, on_canvas) == Some(
            (a, b),
        ),
        !(p.pressed && on_canvas) ==> shape_span(None, p, on_canvas) is None,
{
}

/// The gestures do not disturb each other.
pub proof fn law_gestures_apart<P: Copy>(a: Gestures<P>, b: Gestures<P>)
    ensures
        a.but_pen(b) <==> a.shape == b.shape && a.text_at == b.text_at && a.text_buf == b.text_buf,
        a.but_shape(b) <==> a.active_pen == b.active_pen && a.text_at == b.text_at && a.text_buf
            == b.text_buf,
        a.but_text(b) <==> a.active_pen == b.active_pen && a.shape == b.shape,
{
}

} // verus!
