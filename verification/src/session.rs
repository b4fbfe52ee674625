//! A recording session of the command line: what is checked before it starts,
//! what it records, and what it reports at the end.

use crate::annotate;
use crate::annotate::{AnnotateDoc, Stroke};
use crate::audio::AudioStats;
use crate::capture;
use crate::capture::{display_index, CaptureError};
use crate::encode;
use crate::encode::{rate_control_args, supports, FfmpegInfo};
use crate::pump::encoder_name;
use crate::region;
use crate::region::parse_region;
use crate::search;
use crate::text;
use crate::text::{contains, decimal_text, join2, join3, to_chars, to_lower};
use crate::types::{CursorFx, DisplayInfo, EncoderKind, Os, RateControl, WindowInfo};
use vstd::prelude::*;

verus! {

// ---------------------------------------------------------------------------
// Displays and windows
// ---------------------------------------------------------------------------

/// What is said where the displays could not be listed.
pub open spec fn unlisted(e: CaptureError) -> Seq<char> {
    "display enumeration failed: "@ + e.text()
}

/// Looks up the display at a screen position; 0 is the primary one.
pub fn resolve_display(screen: u32, displays: Result<Vec<DisplayInfo>, CaptureError>) -> (r: Result<
    DisplayInfo,
    String,
>)
    ensures
        match displays {
            Err(e) => r matches Err(m) && m@ == unlisted(e),
            Ok(ds) => match capture::display_at(ds@, screen as nat) {
                Some(d) => r == Ok::<DisplayInfo, String>(d),
                None => r matches Err(m) && m@ == (if screen == 0 {
                    "no displays detected"@
                } else {
                    "--screen "@ + text::decimal(screen as nat) + " out of range ("@
                        + text::decimal(ds@.len()) + " displays)"@
                }),
            },
        },
{
    let mut ds = match displays {
        Ok(ds) => ds,
        Err(e) => {
            return Err(join2("display enumeration failed: ", e.message().as_str()));
        },
    };
    match display_index(&ds, screen as usize) {
        Some(i) => Ok(ds.remove(i)),
        None => {
            if screen == 0 {
                return Err("no displays detected".to_owned());
            }
            let n: usize = ds.len();
            let mut s = join3(
                "--screen ",
                decimal_text(screen as u64).as_str(),
                " out of range (",
            );
            s.append(decimal_text(n as u64).as_str());
            s.append(" displays)");
            Err(s)
        },
    }
}

/// Looks up the display that an overlay opens on; 0 is the primary one.
pub fn overlay_display(screen: usize, displays: Result<Vec<DisplayInfo>, CaptureError>) -> (r:
    Result<DisplayInfo, String>)
    ensures
        match displays {
            Err(e) => r matches Err(m) && m@ == unlisted(e),
            Ok(ds) => match capture::display_at(ds@, screen as nat) {
                Some(d) => r == Ok::<DisplayInfo, String>(d),
                None => r matches Err(m) && m@ == (if ds@.len() == 0 {
                    "no displays detected"@
                } else {
                    "--screen "@ + text::decimal(screen as nat) + " out of range ("@
                        + text::decimal(ds@.len()) + " displays; 0=primary)"@
                }),
            },
        },
{
    let mut ds = match displays {
        Ok(ds) => ds,
        Err(e) => {
            return Err(join2("display enumeration failed: ", e.message().as_str()));
        },
    };
    match display_index(&ds, screen) {
        Some(i) => Ok(ds.remove(i)),
        None => {
            let n: usize = ds.len();
            if n == 0 {
                return Err("no displays detected".to_owned());
            }
            let mut s = join3(
                "--screen ",
                decimal_text(screen as u64).as_str(),
                " out of range (",
            );
            s.append(decimal_text(n as u64).as_str());
            s.append(" displays; 0=primary)");
            Err(s)
        },
    }
}

/// Contains the window's title `needle`, whatever the letter case?
pub open spec fn titled(needle: Seq<char>) -> spec_fn(WindowInfo) -> bool {
    |w: WindowInfo| text::has_part(text::lowercase(w.title@), text::lowercase(needle))
}

/// An edge of the drawing panel: even, and at least 64.
pub open spec fn panel_edge(n: u32) -> u32 {
    if n < 64 {
        64
    } else {
        capture::even(n)
    }
}

/// An edge of the drawing panel.
pub fn panel_edge_of(n: u32) -> (r: u32)
    ensures
        r == panel_edge(n),
{
    if n < 64 {
        64
    } else {
        n - n % 2
    }
}

/// The panel's size for a listed window whose title contains `title`.
pub fn window_panel_size(listed: Result<Vec<WindowInfo>, CaptureError>, title: &str) -> (r: Result<
    (u32, u32),
    String,
>)
    ensures
        match listed {
            Err(e) => r matches Err(m) && m@ == "window enumeration failed: "@ + e.text(),
            Ok(ws) => match search::find_where(ws@, titled(title@)) {
                Some(w) => r == Ok::<(u32, u32), String>(
                    (panel_edge(w.width), panel_edge(w.height)),
                ),
                None => r matches Err(m) && m@ == "no window matching '"@ + title@ + "'"@,
            },
        },
{
    let ws = match listed {
        Ok(ws) => ws,
        Err(e) => {
            return Err(join2("window enumeration failed: ", e.message().as_str()));
        },
    };
    let want = to_chars(to_lower(title).as_str());
    let mut i: usize = 0;
    while i < ws.len()
        invariant
            listed == Ok::<Vec<WindowInfo>, CaptureError>(ws),
            i <= ws@.len(),
            want@ == text::lowercase(title@),
            forall|k: int| 0 <= k < i ==> !titled(title@)(#[trigger] ws@[k]),
        decreases ws@.len() - i,
    {
        let have = to_chars(to_lower(ws[i].title.as_str()).as_str());
        if contains(have.as_slice(), want.as_slice()) {
            proof {
                assert(titled(title@)(ws@[i as int]));
                search::lemma_first_where(ws@, titled(title@), i as int);
            }
            return Ok((panel_edge_of(ws[i].width), panel_edge_of(ws[i].height)));
        }
        i += 1;
    }
    proof {
        search::lemma_first_where(ws@, titled(title@), i as int);
    }
    Err(join3("no window matching '", title, "'"))
}

// ---------------------------------------------------------------------------
// Before the start
// ---------------------------------------------------------------------------

/// What keeps an ffmpeg recording from starting: the encoder that is missing, the
/// rate control that it does not take, the effects that the system cannot show.
pub open spec fn start_fault(
    kind: EncoderKind,
    rate: RateControl,
    fps: u32,
    os: Os,
    cursor_fx: bool,
    info: FfmpegInfo,
) -> Option<Seq<char>> {
    let name = encode::encoder_name_of(kind, EncoderKind::LibX264);
    if !encode::provides(info, kind) {
        Some(
            "this ffmpeg has no "@ + name + " ("@ + info.version_line@
                + ") — see `qcapture --probe-ffmpeg`"@,
        )
    } else {
        match encode::rate_args(name, rate, fps) {
            Err(e) => Some(e.text()),
            Ok(_) => if os != Os::Windows && cursor_fx {
                Some(
                    "cursor fx is Windows-only in this release (no portable cursor position API yet)"@,
                )
            } else {
                None
            },
        }
    }
}

/// Checks an ffmpeg recording before any thread or capture starts.
pub fn check_start(
    kind: EncoderKind,
    rate: RateControl,
    fps: u32,
    os: Os,
    cursor_fx: bool,
    info: &FfmpegInfo,
) -> (r: Result<(), String>)
    requires
        fps * 4 <= u32::MAX,
    ensures
        match start_fault(kind, rate, fps, os, cursor_fx, *info) {
            Some(m) => r matches Err(e) && e@ == m,
            None => r is Ok,
        },
{
    let name = encoder_name(kind);
    if !supports(kind, info) {
        let mut s = join3("this ffmpeg has no ", name, " (");
        s.append(info.version_line.as_str());
        s.append(") — see `qcapture --probe-ffmpeg`");
        return Err(s);
    }
    if let Err(e) = rate_control_args(name, &rate, fps) {
        return Err(e.message());
    }
    if os != Os::Windows && cursor_fx {
        return Err(
            "cursor fx is Windows-only in this release (no portable cursor position API yet)".to_owned(),
        );
    }
    Ok(())
}

/// What a recording is taken from.
#[derive(Debug, Clone, PartialEq, Eq)]
pub enum RecordTarget {
    Window(String),
    Region { screen: u32, x: u32, y: u32, w: u32, h: u32 },
    Screen(u32),
}

/// What is said of a region that starts left of or above its monitor.
pub open spec fn off_monitor(native: bool) -> Seq<char> {
    if native {
        "--region x,y must be >= 0 (monitor-relative in Phase 2a)"@
    } else {
        "--region x,y must be >= 0 (monitor-relative)"@
    }
}

/// Settles what is recorded: a window before a region, a region before a screen.
/// A region lies on its monitor.
pub fn record_target(
    window_title: Option<&str>,
    region: Option<&str>,
    region_screen: u32,
    screen: u32,
    native: bool,
) -> (r: Result<RecordTarget, String>)
    ensures
        match (window_title, region) {
            (Some(t), _) => r matches Ok(RecordTarget::Window(w)) && w@ == t@,
            (None, Some(s)) => match region::region_in(s@) {
                Err(m) => r matches Err(e) && e@ == m,
                Ok(rect) => if rect.x < 0 || rect.y < 0 {
                    r matches Err(e) && e@ == off_monitor(native)
                } else {
                    r == Ok::<RecordTarget, String>(
                        RecordTarget::Region {
                            screen: region_screen,
                            x: rect.x as u32,
                            y: rect.y as u32,
                            w: rect.w,
                            h: rect.h,
                        },
                    )
                },
            },
            (None, None) => r == Ok::<RecordTarget, String>(RecordTarget::Screen(screen)),
        },
{
    if let Some(t) = window_title {
        return Ok(RecordTarget::Window(t.to_owned()));
    }
    match region {
        Some(s) => {
            let rect = match parse_region(s) {
                Ok(rect) => rect,
                Err(m) => {
                    return Err(m);
                },
            };
            if rect.x < 0 || rect.y < 0 {
                return Err(
                    (if native {
                        "--region x,y must be >= 0 (monitor-relative in Phase 2a)"
                    } else {
                        "--region x,y must be >= 0 (monitor-relative)"
                    }).to_owned(),
                );
            }
            Ok(
                RecordTarget::Region {
                    screen: region_screen,
                    x: rect.x as u32,
                    y: rect.y as u32,
                    w: rect.w,
                    h: rect.h,
                },
            )
        },
        None => Ok(RecordTarget::Screen(screen)),
    }
}

impl RecordTarget {
    /// The canvas that the recording gets: a region has its own size.
    pub fn canvas(&self, asked: Option<(u32, u32)>) -> (r: Option<(u32, u32)>)
        ensures
            r == (if self is Region {
                None
            } else {
                asked
            }),
    {
        match self {
            RecordTarget::Region { .. } => None,
            _ => asked,
        }
    }

    /// The size of the drawing panel: that of the region, else of the window or
    /// display, which is `shown`.
    pub fn panel_size(&self, shown: (u32, u32)) -> (r: (u32, u32))
        ensures
            r == (match *self {
                RecordTarget::Region { w, h, .. } => (panel_edge(w), panel_edge(h)),
                _ => (panel_edge(shown.0), panel_edge(shown.1)),
            }),
    {
        match self {
            RecordTarget::Region { w, h, .. } => (panel_edge_of(*w), panel_edge_of(*h)),
            _ => (panel_edge_of(shown.0), panel_edge_of(shown.1)),
        }
    }
}

/// What is said once the audio runs.
pub fn audio_started(mic: Option<&str>) -> (s: String)
    ensures
        s@ == "audio: system loopback on"@ + (match mic {
            Some(m) => " + mic '"@ + m@ + "'"@,
            None => Seq::empty(),
        }),
{
    let mut s = "audio: system loopback on".to_owned();
    if let Some(m) = mic {
        s.append(join3(" + mic '", m, "'").as_str());
    }
    proof {
        assert(mic is None ==> s@ =~= "audio: system loopback on"@ + Seq::<char>::empty());
    }
    s
}

/// Audio that does not start ends the recording only where a microphone was asked
/// for; else the warning is returned and the recording goes on without sound.
pub fn audio_failed(mic: bool, reason: &str) -> (r: Result<String, String>)
    ensures
        if mic {
            r matches Err(m) && m@ == "audio pipeline failed: "@ + reason@
        } else {
            r matches Ok(m) && m@ == "warning: audio unavailable ("@ + reason@
                + ") — recording video-only"@
        },
{
    if mic {
        Err(join2("audio pipeline failed: ", reason))
    } else {
        Ok(join3("warning: audio unavailable (", reason, ") — recording video-only"))
    }
}

// ---------------------------------------------------------------------------
// Reports
// ---------------------------------------------------------------------------

/// The effects that were burned in, as the report names them.
pub open spec fn fx_words(fx: Option<CursorFx>) -> Seq<char> {
    match fx {
        Some(c) => if c.highlight && c.ripple {
            " +cursor highlight+ripple"@
        } else if c.highlight {
            " +cursor highlight"@
        } else if c.ripple {
            " +cursor ripple"@
        } else {
            ""@
        },
        None => ""@,
    }
}

/// Names the effects that were burned in.
pub fn fx_note(fx: Option<CursorFx>) -> (s: &'static str)
    ensures
        s@ == fx_words(fx),
{
    match fx {
        Some(c) => {
            if c.highlight && c.ripple {
                " +cursor highlight+ripple"
            } else if c.highlight {
                " +cursor highlight"
            } else if c.ripple {
                " +cursor ripple"
            } else {
                ""
            }
        },
        None => "",
    }
}

/// What the mixer did, as the report tells it.
pub open spec fn audio_words(stats: AudioStats) -> Seq<char> {
    " + AAC "@ + text::decimal(stats.quanta_emitted as nat) + " quanta ("@ + text::decimal(
        stats.sys_underruns as nat,
    ) + " sys/"@ + text::decimal(stats.mic_underruns as nat) + " mic underruns)"@
}

/// Tells what the mixer did; nothing where it emitted nothing.
pub fn audio_note(stats: Option<AudioStats>) -> (s: String)
    ensures
        s@ == (match stats {
            Some(a) if a.quanta_emitted > 0 => audio_words(a),
            _ => Seq::empty(),
        }),
{
    match stats {
        Some(a) => {
            if a.quanta_emitted > 0 {
                audio_report(a)
            } else {
                String::new()
            }
        },
        None => String::new(),
    }
}

/// Tells what the mixer did.
pub fn audio_report(a: AudioStats) -> (s: String)
    ensures
        s@ == audio_words(a),
{
    let mut s = join3(" + AAC ", decimal_text(a.quanta_emitted).as_str(), " quanta (");
    s.append(decimal_text(a.sys_underruns).as_str());
    s.append(" sys/");
    s.append(decimal_text(a.mic_underruns).as_str());
    s.append(" mic underruns)");
    s
}

/// The report of an ffmpeg recording. `preview` counts the frames that the drawing
/// window showed; `secs` and `mb` are the time and the size, written out.
pub fn saved_line(
    output: &str,
    written: u64,
    annotated: u64,
    preview: Option<u64>,
    secs: &str,
    mb: &str,
    kind: EncoderKind,
    fx: Option<CursorFx>,
    audio: Option<AudioStats>,
) -> (s: String)
    ensures
        s@ == "Saved "@ + output@ + " — "@ + text::decimal(written as nat) + " frames ("@
            + text::decimal(annotated as nat) + " annotated"@ + (match preview {
            Some(n) => ", "@ + text::decimal(n as nat) + " preview"@,
            None => Seq::empty(),
        }) + ") in "@ + secs@ + "s, "@ + mb@ + " MB via "@ + encode::encoder_name_of(
            kind,
            EncoderKind::LibX264,
        ) + fx_words(fx) + (match audio {
            Some(a) if a.quanta_emitted > 0 => audio_words(a),
            _ => Seq::empty(),
        }) + "."@,
{
    let mut s = join3("Saved ", output, " — ");
    s.append(decimal_text(written).as_str());
    s.append(" frames (");
    s.append(decimal_text(annotated).as_str());
    s.append(" annotated");
    let shown = match preview {
        Some(n) => join3(", ", decimal_text(n).as_str(), " preview"),
        None => String::new(),
    };
    s.append(shown.as_str());
    s.append(") in ");
    s.append(secs);
    s.append("s, ");
    s.append(mb);
    s.append(" MB via ");
    s.append(encoder_name(kind));
    s.append(fx_note(fx));
    s.append(audio_note(audio).as_str());
    s.append(".");
    s
}

/// The report of a native recording; `audio` is `None` where none was recorded.
pub fn native_saved_line(output: &str, secs: &str, mb: &str, audio: Option<AudioStats>) -> (s:
    String)
    ensures
        s@ == "Saved "@ + output@ + " — "@ + secs@ + "s, "@ + mb@ + " MB. "@ + (match audio {
            Some(a) => "audio: AAC "@ + text::decimal(a.quanta_emitted as nat) + " quanta ("@
                + text::decimal(a.sys_underruns as nat) + " sys / "@ + text::decimal(
                a.mic_underruns as nat,
            ) + " mic underruns)"@,
            None => "video-only (--no-audio or unavailable)"@,
        }) + "."@,
{
    let note = match audio {
        Some(a) => {
            let mut n = join3("audio: AAC ", decimal_text(a.quanta_emitted).as_str(), " quanta (");
            n.append(decimal_text(a.sys_underruns).as_str());
            n.append(" sys / ");
            n.append(decimal_text(a.mic_underruns).as_str());
            n.append(" mic underruns)");
            n
        },
        None => "video-only (--no-audio or unavailable)".to_owned(),
    };
    let mut s = join3("Saved ", output, " — ");
    s.append(secs);
    s.append("s, ");
    s.append(mb);
    s.append(" MB. ");
    s.append(note.as_str());
    s.append(".");
    s
}

// ---------------------------------------------------------------------------
// The document beside the recording
// ---------------------------------------------------------------------------

/// The strokes that have points.
pub open spec fn drawn(live: Seq<Stroke>) -> Seq<Stroke>
    decreases live.len(),
{
    if live.len() == 0 {
        live
    } else if live.last().points@.len() > 0 {
        drawn(live.drop_last()).push(live.last())
    } else {
        drawn(live.drop_last())
    }
}

/// Is `new` the strokes `live` that have points, their points on the canvas?
pub open spec fn accepted(new: Seq<Stroke>, live: Seq<Stroke>) -> bool {
    &&& new.len() == drawn(live).len()
    &&& forall|i: int|
        0 <= i < new.len() ==> annotate::same_but_points(#[trigger] new[i], drawn(live)[i])
            && new[i].points@ == annotate::points_on_canvas(drawn(live)[i].points@)
}

/// Adds strokes to a document, in their order; strokes without points are left out.
pub fn merge_strokes(doc: &mut AnnotateDoc, live: Vec<Stroke>)
    ensures
        final(doc).same_but_strokes(*old(doc)),
        final(doc).strokes@.len() >= old(doc).strokes@.len(),
        final(doc).strokes@.take(old(doc).strokes@.len() as int) == old(doc).strokes@,
        accepted(final(doc).strokes@.skip(old(doc).strokes@.len() as int), live@),
{
    let ghost base = doc.strokes@;
    let ghost all = live@;
    let mut rest = live;
    let ghost mut done: int = 0;
    assert(doc.strokes@.take(base.len() as int) =~= base);
    assert(all.take(0).len() == 0);
    while rest.len() > 0
        invariant
            base == old(doc).strokes@,
            doc.same_but_strokes(*old(doc)),
            0 <= done <= all.len(),
            rest@ == all.skip(done),
            doc.strokes@.len() >= base.len(),
            doc.strokes@.take(base.len() as int) == base,
            accepted(doc.strokes@.skip(base.len() as int), all.take(done)),
        decreases rest@.len(),
    {
        let ghost before = doc.strokes@;
        let s = rest.remove(0);
        let ghost taken = s;
        let _ = doc.add_stroke(s);
        proof {
            assert(taken == all[done]);
            assert(rest@ =~= all.skip(done + 1));
            assert(all.take(done + 1).drop_last() =~= all.take(done));
            assert(all.take(done + 1).last() == taken);
            if taken.points@.len() > 0 {
                assert(doc.strokes@ =~= before.push(doc.strokes@.last()));
                assert(doc.strokes@.skip(base.len() as int) =~= before.skip(base.len() as int).push(
                    doc.strokes@.last(),
                ));
            }
            assert(doc.strokes@.take(base.len() as int) =~= base);
            done = done + 1;
        }
    }
    assert(all.take(done) =~= all);
}

/// The document that is saved beside a recording: the scripted one with the live
/// strokes added, or a new one of the panel's size for them; `None` where there
/// was neither.
pub fn sidecar_doc(
    annotate: Option<AnnotateDoc>,
    feed_w: u32,
    feed_h: u32,
    live: Vec<Stroke>,
) -> (r: Option<AnnotateDoc>)
    ensures
        live@.len() == 0 ==> r == annotate,
        live@.len() > 0 ==> match annotate {
            Some(a) => r matches Some(d) && d.same_but_strokes(a) && d.strokes@.len()
                >= a.strokes@.len() && d.strokes@.take(a.strokes@.len() as int) == a.strokes@
                && accepted(d.strokes@.skip(a.strokes@.len() as int), live@),
            None => r matches Some(d) && d.version == 1 && d.canvas_w == feed_w && d.canvas_h
                == feed_h && d.watermarks@.len() == 0 && d.burn_in && accepted(
                d.strokes@,
                live@,
            ),
        },
{
    if live.len() == 0 {
        return annotate;
    }
    let mut doc = match annotate {
        Some(a) => a,
        None => AnnotateDoc {
            version: 1,
            canvas_w: feed_w,
            canvas_h: feed_h,
            strokes: Vec::new(),
            watermarks: Vec::new(),
            burn_in: true,
        },
    };
    let ghost before = doc;
    merge_strokes(&mut doc, live);
    assert(before.strokes@.len() == 0 ==> doc.strokes@.skip(0) =~= doc.strokes@);
    Some(doc)
}

/// Names the saved document.
pub fn sidecar_note(path: &str, live: usize) -> (s: String)
    ensures
        s@ == (if live > 0 {
            "sidecar: "@ + path@ + " ("@ + text::decimal(live as nat) + " live strokes)"@
        } else {
            "sidecar: "@ + path@
        }),
{
    if live > 0 {
        let mut s = join3("sidecar: ", path, " (");
        s.append(decimal_text(live as u64).as_str());
        s.append(" live strokes)");
        s
    } else {
        join2("sidecar: ", path)
    }
}

// ---------------------------------------------------------------------------
// What holds on every input
// ---------------------------------------------------------------------------

/// A panel has 64 pixels at least and an even number of them.
pub proof fn law_panel_edges(n: u32)
    ensures
        panel_edge(n) % 2 == 0,
        n < 64 ==> panel_edge(n) == 64,
        n >= 64 ==> n - 1 <= panel_edge(n) <= n,
{
}

/// A window is found by a part of its title, whatever the letter case.
pub proof fn law_window_by_title(w: WindowInfo, needle: Seq<char>)
    ensures
        titled(needle)(w) <==> text::has_part(text::lowercase(w.title@), text::lowercase(needle)),
{
}

/// A recording starts where ffmpeg has the encoder, the encoder has the mode, and
/// marks at the cursor are drawn on Windows only.
pub proof fn law_recordings_that_start(
    kind: EncoderKind,
    rate: RateControl,
    fps: u32,
    os: Os,
    cursor_fx: bool,
    info: FfmpegInfo,
)
    ensures
        start_fault(kind, rate, fps, os, cursor_fx, info) is None <==> {
            &&& encode::provides(info, kind)
            &&& encode::rate_args(
                encode::encoder_name_of(kind, EncoderKind::LibX264),
                rate,
                fps,
            ) is Ok
            &&& cursor_fx ==> os == Os::Windows
        },
{
}

/// The effects are named that are on.
pub proof fn law_effects_are_named(c: CursorFx)
    ensures
        c.highlight && c.ripple ==> fx_words(Some(c)) == " +cursor highlight+ripple"@,
        c.highlight && !c.ripple ==> fx_words(Some(c)) == " +cursor highlight"@,
        !c.highlight && c.ripple ==> fx_words(Some(c)) == " +cursor ripple"@,
        !c.highlight && !c.ripple ==> fx_words(Some(c)) == ""@,
        fx_words(None) == ""@,
{
}

/// The report on the sound tells the quanta, then the gaps of the system's sound and
/// then those of the microphone.
pub proof fn law_sound_report(a: AudioStats)
    ensures
        ({
            let (quanta, more) = text::split_at_first(audio_words(a).skip(7), ' ')->0;
            let (sys, last) = text::split_at_first(more.skip(8), ' ')->0;
            let (mic, _) = text::split_at_first(last.skip(4), ' ')->0;
            &&& text::int_in(quanta) == Some(a.quanta_emitted as int)
            &&& text::int_in(sys) == Some(a.sys_underruns as int)
            &&& text::int_in(mic) == Some(a.mic_underruns as int)
        }),
{
    reveal_strlit(" + AAC ");
    reveal_strlit(" quanta (");
    reveal_strlit(" sys/");
    reveal_strlit(" mic underruns)");
    let q = text::decimal_int(a.quanta_emitted as int);
    let s = text::decimal_int(a.sys_underruns as int);
    let m = text::decimal_int(a.mic_underruns as int);
    let end = " mic underruns)"@.skip(1);
    let mic = m + seq![' '] + end;
    let last = " sys/"@.skip(1) + mic;
    let sys = s + seq![' '] + last;
    let more = " quanta ("@.skip(1) + sys;
    assert(" mic underruns)"@ =~= seq![' '] + end);
    assert(" sys/"@ =~= seq![' '] + " sys/"@.skip(1));
    assert(" quanta ("@ =~= seq![' '] + " quanta ("@.skip(1));
    assert(audio_words(a).skip(7) =~= q + seq![' '] + more);
    assert(more.skip(8) =~= sys);
    assert(last.skip(4) =~= mic);
    text::law_number_before(a.quanta_emitted as int, ' ', more);
    text::law_number_before(a.sys_underruns as int, ' ', last);
    text::law_number_before(a.mic_underruns as int, ' ', end);
}

/// What was drawn live counts where it has points, stroke by stroke and in order.
pub proof fn law_drawn_strokes(live: Seq<Stroke>, s: Stroke)
    ensures
        drawn(Seq::empty()).len() == 0,
        s.points@.len() > 0 ==> drawn(live.push(s)) == drawn(live).push(s),
        s.points@.len() == 0 ==> drawn(live.push(s)) == drawn(live),
{
    assert(live.push(s).drop_last() =~= live);
}

/// Strokes that are taken over are those that were drawn, in order: each is as it was,
/// with its points on the canvas.
pub proof fn law_accepted_strokes(new: Seq<Stroke>, live: Seq<Stroke>, i: int)
    requires
        accepted(new, live),
        forall|k: int| 0 <= k < live.len() ==> (#[trigger] live[k]).points@.len() > 0,
        0 <= i < live.len(),
    ensures
        new.len() == live.len(),
        new[i].color == live[i].color,
        new[i].width_px == live[i].width_px,
        new[i].tool == live[i].tool,
        new[i].text == live[i].text,
        new[i].appear_ms == live[i].appear_ms,
        new[i].filled == live[i].filled,
        new[i].font_px == live[i].font_px,
        new[i].points@ == annotate::points_on_canvas(live[i].points@),
{
    lemma_all_drawn(live);
}

proof fn lemma_all_drawn(live: Seq<Stroke>)
    requires
        forall|k: int| 0 <= k < live.len() ==> (#[trigger] live[k]).points@.len() > 0,
    ensures
        drawn(live) == live,
    decreases live.len(),
{
    if live.len() > 0 {
        let head = live.drop_last();
        assert forall|k: int| 0 <= k < head.len() implies (#[trigger] head[k]).points@.len() > 0 by {
            assert(head[k] == live[k]);
        }
        lemma_all_drawn(head);
        assert(head.push(live.last()) =~= live);
    }
}

/// What is said where a display or a region cannot be had.
pub proof fn law_session_messages(e: CaptureError, native: bool)
    ensures
        unlisted(e) == "display enumeration failed: "@ + e.text(),
        native ==> off_monitor(native)
            == "--region x,y must be >= 0 (monitor-relative in Phase 2a)"@,
        !native ==> off_monitor(native) == "--region x,y must be >= 0 (monitor-relative)"@,
{
}

/// What is said where a recording cannot start.
pub proof fn law_start_refusals(
    kind: EncoderKind,
    rate: RateControl,
    fps: u32,
    os: Os,
    cursor_fx: bool,
    info: FfmpegInfo,
)
    ensures
        ({
            let name = encode::encoder_name_of(kind, EncoderKind::LibX264);
            let fault = start_fault(kind, rate, fps, os, cursor_fx, info);
            &&& !encode::provides(info, kind) ==> fault == Some(
                "this ffmpeg has no "@ + name + " ("@ + info.version_line@
                    + ") — see `qcapture --probe-ffmpeg`"@,
            )
            &&& encode::provides(info, kind) ==> (encode::rate_args(name, rate, fps) matches Err(e)
                ==> fault == Some(e.text()))
            &&& encode::provides(info, kind) && encode::rate_args(name, rate, fps) is Ok && cursor_fx
                && os != Os::Windows ==> fault == Some(
                "cursor fx is Windows-only in this release (no portable cursor position API yet)"@,
            )
        }),
{
}

} // verus!
