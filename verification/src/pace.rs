//! The rhythm of capture: which frames are taken, when capture ends, and what
//! becomes of frames that cannot be handed on.
//!
//! Times are nanoseconds on one clock that never runs backwards.

use crate::capture::{CaptureError, CaptureErrorView};
use crate::text;
use crate::text::{decimal_text, join3};
use vstd::prelude::*;

verus! {

/// Nanoseconds in a second.
pub const SECOND_NS: u64 = 1_000_000_000;

/// A pacer that fell behind by more than this starts over.
pub const LAG_NS: u64 = 500_000_000;

/// The rates at which a second, divided in double precision, comes out at half a
/// nanosecond exactly with an even number before it, or just below the half. At the
/// other rates whose interval ends in a half it comes out just above.
pub open spec fn half_goes_down(fps: u32) -> bool {
    fps == 1_024 || fps == 16_000_000 || fps == 80_000_000
}

/// The time between two frames: a second through the rate in double precision, to
/// the nearest nanosecond.
pub open spec fn interval_of(fps: u32) -> nat {
    let f: int = if fps == 0 {
        1
    } else {
        fps as int
    };
    let nearest = (SECOND_NS + f / 2) / f;
    (if half_goes_down(fps) {
        nearest - 1
    } else {
        nearest
    }) as nat
}

/// Decimates a source to a frame rate.
#[derive(Debug, Clone, Copy, PartialEq, Eq, Structural)]
pub struct Pacer {
    pub interval_ns: u64,
    pub next_tick_ns: u64,
}

impl Pacer {
    /// Is a frame due?
    pub open spec fn due(self, now_ns: u64) -> bool {
        now_ns >= self.next_tick_ns
    }

    /// The pacer after a frame was taken at `now_ns`; `after_ns` is a later
    /// reading of the clock.
    pub open spec fn ticked(self, now_ns: u64, after_ns: u64) -> Pacer {
        let next = if now_ns + self.interval_ns + LAG_NS < after_ns {
            after_ns + self.interval_ns
        } else {
            now_ns + self.interval_ns
        };
        Pacer { interval_ns: self.interval_ns, next_tick_ns: next as u64 }
    }

    /// The clock is far enough from its end.
    pub open spec fn in_range(self, after_ns: u64) -> bool {
        after_ns + self.interval_ns + LAG_NS <= u64::MAX
    }

    /// A pacer for a frame rate, with the first frame due at once.
    pub fn new(fps: u32, now_ns: u64) -> (r: Self)
        ensures
            r.interval_ns == interval_of(fps),
            r.next_tick_ns == now_ns,
            r.interval_ns <= SECOND_NS,
    {
        let f: u64 = if fps == 0 {
            1
        } else {
            fps as u64
        };
        proof {
            lemma_interval(f);
        }
        let nearest: u64 = (SECOND_NS + f / 2) / f;
        let down = fps == 1_024 || fps == 16_000_000 || fps == 80_000_000;
        let interval_ns: u64 = if down {
            assert(nearest >= 1) by {
                assert((SECOND_NS + 512) / 1_024 >= 1);
                assert((SECOND_NS + 8_000_000) / 16_000_000 >= 1);
                assert((SECOND_NS + 40_000_000) / 80_000_000 >= 1);
            }
            nearest - 1
        } else {
            nearest
        };
        Self { interval_ns, next_tick_ns: now_ns }
    }

    /// Takes a frame where one is due; false where the source is too fast.
    pub fn poll(&mut self, now_ns: u64, after_ns: u64) -> (r: bool)
        requires
            now_ns <= after_ns,
            old(self).in_range(after_ns),
        ensures
            r == old(self).due(now_ns),
            *final(self) == (if r {
                old(self).ticked(now_ns, after_ns)
            } else {
                *old(self)
            }),
    {
        if now_ns < self.next_tick_ns {
            return false;
        }
        self.next_tick_ns = now_ns + self.interval_ns;
        if self.next_tick_ns + LAG_NS < after_ns {
            self.next_tick_ns = after_ns + self.interval_ns;
        }
        true
    }
}

proof fn lemma_interval(f: u64)
    requires
        f >= 1,
    ensures
        (SECOND_NS + f / 2) / f as int <= SECOND_NS,
{
    assert((1_000_000_000 + f / 2) / f as int <= 1_000_000_000) by (nonlinear_arith)
        requires
            f >= 1,
    ;
}

/// Two frames are taken at least an interval apart.
pub proof fn law_frames_are_spaced(p: Pacer, now_ns: u64, after_ns: u64, later_ns: u64)
    requires
        now_ns <= after_ns,
        p.in_range(after_ns),
        p.ticked(now_ns, after_ns).due(later_ns),
    ensures
        later_ns >= now_ns + p.interval_ns,
{
}

/// What to do with a frame that arrived.
#[derive(Debug, Clone, Copy, PartialEq, Eq, Structural)]
pub enum Gate {
    /// The recording ends here.
    Stop,
    /// The frame is dropped.
    Skip,
    /// The frame is recorded.
    Take,
}

/// Has the recording ended: on request, or because its time is up?
pub open spec fn ended(stop: bool, now_ns: u64, deadline_ns: Option<u64>) -> bool {
    stop || (deadline_ns matches Some(t) && now_ns >= t)
}

/// Has the recording ended: on request, or because its time is up?
pub fn is_over(stop: bool, now_ns: u64, deadline_ns: Option<u64>) -> (r: bool)
    ensures
        r == ended(stop, now_ns, deadline_ns),
{
    if let Some(t) = deadline_ns {
        stop || now_ns >= t
    } else {
        stop
    }
}

/// Decides on a frame that arrived on a path without a rate of its own. While
/// paused, frames are dropped, so that paused spans are cut from the file.
pub fn record_gate(stop: bool, now_ns: u64, deadline_ns: Option<u64>, paused: bool) -> (r: Gate)
    ensures
        r == (if ended(stop, now_ns, deadline_ns) {
            Gate::Stop
        } else if paused {
            Gate::Skip
        } else {
            Gate::Take
        }),
{
    if is_over(stop, now_ns, deadline_ns) {
        return Gate::Stop;
    }
    if paused {
        return Gate::Skip;
    }
    Gate::Take
}

/// Decides on a frame that arrived. The end comes first, then the pause, then
/// the frame rate. A pause leaves the pacer alone, so that the first frame after
/// it is taken at once.
pub fn frame_gate(
    stop: bool,
    now_ns: u64,
    after_ns: u64,
    deadline_ns: Option<u64>,
    paused: bool,
    pacer: &mut Pacer,
) -> (r: Gate)
    requires
        now_ns <= after_ns,
        old(pacer).in_range(after_ns),
    ensures
        r == (if ended(stop, now_ns, deadline_ns) {
            Gate::Stop
        } else if paused || !old(pacer).due(now_ns) {
            Gate::Skip
        } else {
            Gate::Take
        }),
        *final(pacer) == (if r == Gate::Take {
            old(pacer).ticked(now_ns, after_ns)
        } else {
            *old(pacer)
        }),
{
    match record_gate(stop, now_ns, deadline_ns, paused) {
        Gate::Take => if pacer.poll(now_ns, after_ns) {
            Gate::Take
        } else {
            Gate::Skip
        },
        other => other,
    }
}

// ---------------------------------------------------------------------------
// Handing frames on
// ---------------------------------------------------------------------------

/// What became of a frame that was offered to the encoder's queue.
#[derive(Debug, Clone, Copy, PartialEq, Eq, Structural)]
pub enum Offer {
    Sent,
    /// The queue was full.
    Full,
    /// The encoder is gone.
    Gone,
}

/// How many frames were handed on and how many were lost to a full queue.
#[derive(Debug, Clone, Copy, PartialEq, Eq, Structural)]
pub struct FeedCounters {
    pub sent: u64,
    pub dropped: u64,
}

impl FeedCounters {
    pub fn new() -> (r: Self)
        ensures
            r.sent == 0,
            r.dropped == 0,
    {
        Self { sent: 0, dropped: 0 }
    }

    /// Books an offer. False where the encoder is gone and capture must end.
    pub fn note(&mut self, offer: Offer) -> (go_on: bool)
        requires
            old(self).sent < u64::MAX,
            old(self).dropped < u64::MAX,
        ensures
            go_on == (offer != Offer::Gone),
            final(self).sent == old(self).sent + (if offer == Offer::Sent {
                1int
            } else {
                0
            }),
            final(self).dropped == old(self).dropped + (if offer == Offer::Full {
                1int
            } else {
                0
            }),
    {
        match offer {
            Offer::Sent => {
                self.sent = self.sent + 1;
                true
            },
            Offer::Full => {
                self.dropped = self.dropped + 1;
                true
            },
            Offer::Gone => false,
        }
    }
}

// ---------------------------------------------------------------------------
// Sources that fail
// ---------------------------------------------------------------------------

/// How many failures in a row end a window recording.
pub const MAX_CONSEC_ERRORS: u32 = 300;

/// Counts the failures in a row of a polled source.
#[derive(Debug, Clone, Copy, PartialEq, Eq, Structural)]
pub struct Retries {
    pub errors: u32,
}

impl Retries {
    pub open spec fn wf(self) -> bool {
        self.errors < MAX_CONSEC_ERRORS
    }

    pub fn new() -> (r: Self)
        ensures
            r.wf(),
            r.errors == 0,
    {
        Self { errors: 0 }
    }

    /// The source delivered.
    pub fn succeeded(&mut self)
        ensures
            final(self).wf(),
            final(self).errors == 0,
    {
        self.errors = 0;
    }

    /// The source failed. Ok tells whether this is the first failure in a row,
    /// which is worth a message; an error ends the recording.
    pub fn failed(&mut self, why: &str) -> (r: Result<bool, CaptureError>)
        requires
            old(self).wf(),
        ensures
            final(self).errors == old(self).errors + 1,
            r is Ok <==> final(self).wf(),
            r matches Ok(first) ==> first == (old(self).errors == 0),
            r matches Err(e) ==> e@ == CaptureErrorView::Backend(
                "window capture failed "@ + text::decimal(MAX_CONSEC_ERRORS as nat)
                    + "x in a row (closed? Wayland blocks window screenshots): "@ + why@,
            ),
    {
        self.errors = self.errors + 1;
        if self.errors >= MAX_CONSEC_ERRORS {
            let mut m = join3(
                "window capture failed ",
                decimal_text(self.errors as u64).as_str(),
                "x in a row (closed? Wayland blocks window screenshots): ",
            );
            m.append(why);
            return Err(CaptureError::Backend(m));
        }
        Ok(self.errors == 1)
    }
}

// ---------------------------------------------------------------------------
// What holds on every input
// ---------------------------------------------------------------------------

/// The interval is the nearest nanosecond: as many intervals as frames are a second,
/// but for half a nanosecond each. A rate of zero counts as one.
pub proof fn law_interval_fills_the_second(fps: u32)
    requires
        fps > 0,
    ensures
        -fps <= 2 * (interval_of(fps) * fps - 1_000_000_000) <= fps,
        interval_of(0) == 1_000_000_000,
{
    let f = fps as int;
    let n = (1_000_000_000 + f / 2) / f;
    assert(f * n <= 1_000_000_000 + f / 2 < f * n + f) by (nonlinear_arith)
        requires
            f > 0,
            n == (1_000_000_000 + f / 2) / f,
    ;
    assert((1_000_000_000int + 512) / 1_024 == 976_563);
    assert((1_000_000_000int + 8_000_000) / 16_000_000 == 63);
    assert((1_000_000_000int + 40_000_000) / 80_000_000 == 13);
    assert(n >= 0) by (nonlinear_arith)
        requires
            f > 0,
            n == (1_000_000_000 + f / 2) / f,
    ;
    assert(interval_of(fps) * fps == f * interval_of(fps)) by (nonlinear_arith)
        requires
            f == fps,
    ;
    if half_goes_down(fps) {
        assert(interval_of(fps) == n - 1);
    } else {
        assert(interval_of(fps) == n);
    }
}

/// A frame is due once the clock has reached its tick. The next is due an interval
/// later; a source that has fallen more than half a second behind starts over.
pub proof fn law_next_tick(p: Pacer, now_ns: u64, after_ns: u64)
    requires
        p.in_range(after_ns),
        now_ns <= after_ns,
    ensures
        p.due(now_ns) <==> p.next_tick_ns <= now_ns,
        p.ticked(now_ns, after_ns).interval_ns == p.interval_ns,
        after_ns - now_ns <= p.interval_ns + 500_000_000 ==> p.ticked(
            now_ns,
            after_ns,
        ).next_tick_ns == now_ns + p.interval_ns,
        after_ns - now_ns > p.interval_ns + 500_000_000 ==> p.ticked(
            now_ns,
            after_ns,
        ).next_tick_ns == after_ns + p.interval_ns,
{
}

/// A recording ends when it is stopped or its time is up, and not before.
pub proof fn law_recording_ends(stop: bool, now_ns: u64, t: u64)
    ensures
        ended(true, now_ns, None) && ended(true, now_ns, Some(t)),
        !ended(false, now_ns, None),
        ended(false, now_ns, Some(t)) <==> t <= now_ns,
{
}

/// Three hundred failures in a row are too many.
pub proof fn law_failures_are_limited(r: Retries)
    ensures
        r.wf() <==> r.errors < 300,
{
}

/// An interval that ends in half a nanosecond is rounded up, but for three rates whose
/// second, divided in double precision, is not above the half.
pub proof fn law_half_a_nanosecond(fps: u32)
    requires
        fps > 0,
    ensures
        2 * (1_000_000_000 - interval_of(fps) * fps) == fps <==> fps == 1_024 || fps == 16_000_000
            || fps == 80_000_000,
{
    let f = fps as int;
    let n = (1_000_000_000 + f / 2) / f;
    assert(f * n <= 1_000_000_000 + f / 2 < f * n + f && n >= 0) by (nonlinear_arith)
        requires
            f > 0,
            n == (1_000_000_000 + f / 2) / f,
    ;
    assert((1_000_000_000int + 512) / 1_024 == 976_563);
    assert((1_000_000_000int + 8_000_000) / 16_000_000 == 63);
    assert((1_000_000_000int + 40_000_000) / 80_000_000 == 13);
    assert(interval_of(fps) * fps == f * interval_of(fps)) by (nonlinear_arith)
        requires
            f == fps,
    ;
    if half_goes_down(fps) {
        assert(interval_of(fps) == n - 1);
    } else {
        assert(interval_of(fps) == n);
    }
}

} // verus!
