//! The floating control widget: what its buttons, lists and timers do.
//!
//! Times are readings of one clock that never runs backwards, in nanoseconds.

use crate::advanced;
use crate::advanced::AdvCfg;
use crate::annotate::AnnotateDoc;
use crate::cli::default_output;
use crate::pace::SECOND_NS;
use crate::region;
use crate::region::region_text;
use crate::search;
use crate::session;
use crate::session::{panel_edge_of, sidecar_doc};
use crate::settings::{PersistedSettings, TargetSel, SETTINGS_VERSION};
use crate::single::F32;
use crate::text;
use crate::text::{
    decimal_int_text, decimal_text, find_part, from_chars, join2, join3, matches_at, piece, same,
    to_chars, trim,
};
use crate::types::{CursorFx, DisplayInfo, Os, Rect, WindowInfo};
use vstd::prelude::*;

verus! {

// ---------------------------------------------------------------------------
// The recording in progress
// ---------------------------------------------------------------------------

/// A recording in progress.
#[derive(Debug, Clone, PartialEq, Eq)]
pub struct ActiveRec {
    pub started_ns: u64,
    pub output: String,
    /// Has the user asked it to stop?
    pub stopping: bool,
    pub paused: bool,
    /// The time of all pauses that are over.
    pub paused_total_ns: u64,
    /// When the pause that is on began.
    pub pause_began_ns: Option<u64>,
}

impl ActiveRec {
    /// At time `now_ns` the pauses lie in the recording.
    pub open spec fn wf(self, now_ns: u64) -> bool {
        &&& self.started_ns + self.paused_total_ns <= (match self.pause_began_ns {
            Some(b) => b,
            None => now_ns,
        })
        &&& self.pause_began_ns matches Some(b) ==> b <= now_ns
    }

    /// The time in pauses up to `now_ns`.
    pub open spec fn paused_ns(self, now_ns: u64) -> int {
        self.paused_total_ns + (match self.pause_began_ns {
            Some(b) => if b < now_ns {
                now_ns - b
            } else {
                0
            },
            None => 0,
        })
    }

    /// What lands in the file up to `now_ns`: the session without its pauses.
    pub open spec fn content_ns(self, now_ns: u64) -> int {
        let session = now_ns - self.started_ns - self.paused_ns(now_ns);
        if session < 0 {
            0
        } else {
            session
        }
    }

    /// A recording that starts now.
    pub fn new(output: String, now_ns: u64) -> (r: Self)
        ensures
            r.started_ns == now_ns,
            r.output == output,
            !r.stopping,
            !r.paused,
            r.paused_total_ns == 0,
            r.pause_began_ns is None,
            r.wf(now_ns),
            r.content_ns(now_ns) == 0,
    {
        Self {
            started_ns: now_ns,
            output,
            stopping: false,
            paused: false,
            paused_total_ns: 0,
            pause_began_ns: None,
        }
    }

    /// The content clock. It stands still during a pause.
    pub fn content_elapsed(&self, now_ns: u64) -> (r: u64)
        ensures
            r == self.content_ns(now_ns),
            r <= now_ns,
    {
        let session: u64 = now_ns.saturating_sub(self.started_ns);
        let ongoing: u64 = match self.pause_began_ns {
            Some(b) => now_ns.saturating_sub(b),
            None => 0,
        };
        session.saturating_sub(self.paused_total_ns).saturating_sub(ongoing)
    }

    /// The recording once it was paused or resumed at `now_ns`.
    pub open spec fn after(self, paused: bool, now_ns: u64) -> ActiveRec {
        if paused {
            ActiveRec { paused: true, pause_began_ns: Some(now_ns), ..self }
        } else {
            ActiveRec {
                paused: false,
                pause_began_ns: None,
                paused_total_ns: self.paused_ns(now_ns) as u64,
                ..self
            }
        }
    }

    /// Pauses or resumes the recording.
    pub fn set_paused(&mut self, paused: bool, now_ns: u64)
        requires
            old(self).wf(now_ns),
        ensures
            final(self).wf(now_ns),
            *final(self) == old(self).after(paused, now_ns),
    {
        self.paused = paused;
        if paused {
            self.pause_began_ns = Some(now_ns);
        } else {
            if let Some(began) = self.pause_began_ns {
                self.paused_total_ns = self.paused_total_ns + (now_ns - began);
            }
            self.pause_began_ns = None;
        }
    }

    /// The pause button: pauses a recording that runs, resumes one that is paused.
    pub fn toggle_pause(&mut self, now_ns: u64)
        requires
            old(self).wf(now_ns),
        ensures
            final(self).wf(now_ns),
            *final(self) == old(self).after(!old(self).paused, now_ns),
    {
        let on = self.paused;
        self.set_paused(!on, now_ns);
    }

    /// The pause button's text.
    pub fn pause_label(&self) -> (r: &'static str)
        ensures
            r@ == (if self.paused {
                "▶ Resume"@
            } else {
                "⏸ Pause"@
            }),
    {
        if self.paused {
            "▶ Resume"
        } else {
            "⏸ Pause"
        }
    }
}

/// The content clock never runs ahead of the session, stands still during a pause
/// and keeps pace with the session otherwise.
pub proof fn law_content_clock(r: ActiveRec, now_ns: u64, later_ns: u64)
    requires
        r.wf(now_ns),
        now_ns <= later_ns,
    ensures
        r.wf(later_ns),
        r.content_ns(now_ns) <= now_ns - r.started_ns,
        r.pause_began_ns is Some ==> r.content_ns(later_ns) == r.content_ns(now_ns),
        r.pause_began_ns is None ==> r.content_ns(later_ns) - r.content_ns(now_ns) == later_ns
            - now_ns,
{
}

/// Pausing and resuming do not move the content clock, and a pause is cut out
/// whole: when it ends the clock reads what it read when it began.
pub proof fn law_pause_is_cut(r: ActiveRec, at: u64, end: u64)
    requires
        r.wf(at),
        r.pause_began_ns is None,
        at <= end,
    ensures
        r.after(true, at).content_ns(at) == r.content_ns(at),
        r.after(true, at).wf(end),
        r.after(true, at).after(false, end).content_ns(end) == r.content_ns(at),
{
}

// ---------------------------------------------------------------------------
// Overlays that run beside the widget
// ---------------------------------------------------------------------------

/// An overlay that was sent off and what it brought back.
#[derive(Debug, Clone, PartialEq, Eq)]
pub struct Errand<T> {
    pub pending: bool,
    /// `Some(None)` came back without a result.
    pub result: Option<Option<T>>,
}

impl<T> Errand<T> {
    pub fn new() -> (r: Self)
        ensures
            !r.pending,
            r.result is None,
    {
        Self { pending: false, result: None }
    }

    /// Sends the overlay off, unless one is on its way.
    pub fn start(&mut self) -> (r: bool)
        ensures
            r == !old(self).pending,
            old(self).pending ==> *final(self) == *old(self),
            !old(self).pending ==> final(self).pending && final(self).result is None,
    {
        if self.pending {
            return false;
        }
        self.pending = true;
        self.result = None;
        true
    }

    /// The overlay has come back.
    pub fn bring(&mut self, result: Option<T>)
        ensures
            final(self).result == Some(result),
            final(self).pending == old(self).pending,
    {
        self.result = Some(result);
    }

    /// Takes what the overlay brought back. One that is still away stays on its way.
    pub fn take(&mut self) -> (r: Option<Option<T>>)
        ensures
            r == old(self).result,
            final(self).result is None,
            final(self).pending == (old(self).pending && old(self).result is None),
    {
        if self.result.is_some() {
            self.pending = false;
        }
        self.result.take()
    }
}

// ---------------------------------------------------------------------------
// The widget
// ---------------------------------------------------------------------------

/// How long the countdown before a recording takes, in seconds.
pub const COUNTDOWN_SECS: u64 = 3;

/// What the widget says while the file is being finished.
pub const FINALIZING: &'static str = "finalizing…";

/// The state of the widget.
#[derive(Debug, Clone, PartialEq, Eq)]
pub struct WidgetApp {
    pub screens: Vec<DisplayInfo>,
    pub windows: Vec<WindowInfo>,
    pub target: TargetSel,
    pub window_text: String,
    pub region_screen: u32,
    pub mic_name: Option<String>,
    pub audio_on: bool,
    pub adv: AdvCfg,
    pub rec: Option<ActiveRec>,
    pub last_msg: String,
    /// Annotations that are burned into the next recording.
    pub pending_doc: Option<AnnotateDoc>,
    pub draw_live: bool,
    pub cursor_highlight: bool,
    pub cursor_ripple: bool,
    pub output_dir: String,
    pub countdown_enabled: bool,
    /// When the countdown ends; `None` where none runs.
    pub countdown_until_ns: Option<u64>,
}

/// A screen position that exists, else 0.
pub open spec fn screen_or_first(s: u32, n: nat) -> u32 {
    if s < n {
        s
    } else {
        0
    }
}

fn screen_or_zero(s: u32, n: usize) -> (r: u32)
    ensures
        r == screen_or_first(s, n as nat),
{
    if (s as usize) < n {
        s
    } else {
        0
    }
}

/// A target whose screen exists.
pub open spec fn target_on(t: TargetSel, n: nat) -> TargetSel {
    match t {
        TargetSel::Screen(s) => TargetSel::Screen(screen_or_first(s, n)),
        TargetSel::Region { screen, rect } => TargetSel::Region {
            screen: screen_or_first(screen, n),
            rect,
        },
        TargetSel::Window(_) => t,
    }
}

/// The overlay's screen for a target.
pub open spec fn screen_of(t: TargetSel, region_screen: u32) -> u32 {
    match t {
        TargetSel::Screen(s) => s,
        TargetSel::Region { screen, .. } => screen,
        TargetSel::Window(_) => region_screen,
    }
}

/// `WxH` at a place, as the widget writes a region.
pub open spec fn place_of(r: Rect) -> Seq<char> {
    text::decimal_int(r.x as int) + ","@ + text::decimal_int(r.y as int) + " "@ + text::decimal(
        r.w as nat,
    ) + "x"@ + text::decimal(r.h as nat)
}

fn place_text(r: Rect) -> (s: String)
    ensures
        s@ == place_of(r),
{
    let mut s = join3(decimal_int_text(r.x).as_str(), ",", decimal_int_text(r.y).as_str());
    s.append(" ");
    s.append(decimal_text(r.w as u64).as_str());
    s.append("x");
    s.append(decimal_text(r.h as u64).as_str());
    s
}

/// What the record button did.
#[derive(Debug, Clone, Copy, PartialEq, Eq, Structural)]
pub enum Press {
    /// Nothing to record; the widget says so.
    Refused,
    /// The countdown runs.
    Armed,
    /// The recording starts now.
    Start,
}

/// Whether a recording may start.
#[derive(Debug, Clone, Copy, PartialEq, Eq)]
pub enum Begin {
    /// One is running.
    Busy,
    /// It may not; the widget says why.
    Refused,
    /// It may, with a drawing panel of this size where live drawing is on.
    Go { panel: Option<(u32, u32)> },
}

impl WidgetApp {
    /// The widgets differ at most in target, region screen and message.
    pub open spec fn retargeted(self, other: WidgetApp) -> bool {
        self == (WidgetApp {
            target: self.target,
            region_screen: self.region_screen,
            last_msg: self.last_msg,
            ..other
        })
    }

    /// The widgets differ at most in the message.
    pub open spec fn said_more(self, other: WidgetApp) -> bool {
        self == (WidgetApp { last_msg: self.last_msg, ..other })
    }

    /// Is the widget as the settings say, on a system with `n` screens?
    pub open spec fn remembers(self, s: PersistedSettings, n: nat) -> bool {
        &&& self.target == (match s.target {
            Some(t) => target_on(t, n),
            None => TargetSel::Screen(0),
        })
        &&& self.region_screen == screen_or_first(s.region_screen, n)
        &&& self.window_text == s.window_text
        &&& self.mic_name == s.mic_name
        &&& self.audio_on == s.audio_on
        &&& s.adv matches Some(a) ==> self.adv == a.sanitized()
        &&& self.draw_live == s.draw_live
        &&& self.cursor_highlight == s.cursor_highlight
        &&& self.cursor_ripple == s.cursor_ripple
        &&& self.output_dir == s.output_dir
        &&& self.countdown_enabled == s.countdown_enabled
    }

    /// What is worth remembering of the widget.
    pub open spec fn snapshot(
        self,
        sys_gain_db: F32,
        sys_muted: bool,
        mic_gain_db: F32,
        mic_muted: bool,
    ) -> PersistedSettings {
        PersistedSettings {
            version: SETTINGS_VERSION,
            target: Some(self.target),
            region_screen: self.region_screen,
            window_text: self.window_text,
            mic_name: self.mic_name,
            audio_on: self.audio_on,
            sys_gain_db,
            sys_muted,
            mic_gain_db,
            mic_muted,
            adv: Some(self.adv),
            draw_live: self.draw_live,
            cursor_highlight: self.cursor_highlight,
            cursor_ripple: self.cursor_ripple,
            output_dir: self.output_dir,
            countdown_enabled: self.countdown_enabled,
        }
    }

    /// Opens the widget as it was left, or as new where nothing was saved. Screens
    /// that are gone become the first one, and settings out of range are mended.
    pub fn restore(
        saved: Option<PersistedSettings>,
        screens: Vec<DisplayInfo>,
        windows: Vec<WindowInfo>,
    ) -> (r: Self)
        ensures
            r.screens == screens,
            r.windows == windows,
            r.rec is None,
            r.last_msg@.len() == 0,
            r.pending_doc is None,
            r.countdown_until_ns is None,
            ({
                let n = if screens@.len() == 0 {
                    1
                } else {
                    screens@.len()
                };
                match saved {
                    Some(s) => r.remembers(s, n),
                    None => {
                        &&& r.target == TargetSel::Screen(0)
                        &&& r.region_screen == 0
                        &&& r.window_text@.len() == 0
                        &&& r.mic_name is None
                        &&& r.audio_on
                        &&& !r.draw_live
                        &&& !r.cursor_highlight
                        &&& !r.cursor_ripple
                        &&& r.output_dir@.len() == 0
                        &&& !r.countdown_enabled
                    },
                }
            }),
            saved is None || saved->0.adv is None ==> r.adv.standard(),
            r.adv.in_range(),
    {
        let n: usize = if screens.len() == 0 {
            1
        } else {
            screens.len()
        };
        let s = match saved {
            Some(s) => s,
            None => PersistedSettings::default(),
        };
        let target = match s.target {
            Some(TargetSel::Screen(p)) => TargetSel::Screen(screen_or_zero(p, n)),
            Some(TargetSel::Region { screen, rect }) => {
                TargetSel::Region { screen: screen_or_zero(screen, n), rect }
            },
            Some(TargetSel::Window(t)) => TargetSel::Window(t),
            None => TargetSel::Screen(0),
        };
        let mut adv = match s.adv {
            Some(a) => a,
            None => AdvCfg::default(),
        };
        adv.sanitize();
        Self {
            screens,
            windows,
            target,
            window_text: s.window_text,
            region_screen: screen_or_zero(s.region_screen, n),
            mic_name: s.mic_name,
            audio_on: s.audio_on,
            adv,
            rec: None,
            last_msg: String::new(),
            pending_doc: None,
            draw_live: s.draw_live,
            cursor_highlight: s.cursor_highlight,
            cursor_ripple: s.cursor_ripple,
            output_dir: s.output_dir,
            countdown_enabled: s.countdown_enabled,
            countdown_until_ns: None,
        }
    }

    /// What is worth remembering for the next launch. The gains are those of the
    /// mixer, in decibels.
    pub fn snapshot_settings(
        &self,
        sys_gain_db: F32,
        sys_muted: bool,
        mic_gain_db: F32,
        mic_muted: bool,
    ) -> (r: PersistedSettings)
        ensures
            r == self.snapshot(sys_gain_db, sys_muted, mic_gain_db, mic_muted),
    {
        PersistedSettings {
            version: SETTINGS_VERSION,
            target: Some(self.target.copy()),
            region_screen: self.region_screen,
            window_text: self.window_text.clone(),
            mic_name: match &self.mic_name {
                Some(m) => Some(m.clone()),
                None => None,
            },
            audio_on: self.audio_on,
            sys_gain_db,
            sys_muted,
            mic_gain_db,
            mic_muted,
            adv: Some(self.adv),
            draw_live: self.draw_live,
            cursor_highlight: self.cursor_highlight,
            cursor_ripple: self.cursor_ripple,
            output_dir: self.output_dir.clone(),
            countdown_enabled: self.countdown_enabled,
        }
    }

    /// Is a recording in progress?
    pub fn recording(&self) -> (r: bool)
        ensures
            r == self.rec is Some,
    {
        self.rec.is_some()
    }

    // ---- target ----

    /// The screen that an overlay opens on.
    pub fn overlay_screen(&self) -> (r: u32)
        ensures
            r == screen_of(self.target, self.region_screen),
    {
        match &self.target {
            TargetSel::Screen(s) => *s,
            TargetSel::Region { screen, .. } => *screen,
            TargetSel::Window(_) => self.region_screen,
        }
    }

    /// The "Screen" button.
    pub fn choose_screen_mode(&mut self)
        ensures
            *final(self) == (WidgetApp { target: TargetSel::Screen(0), ..*old(self) }),
    {
        self.target = TargetSel::Screen(0);
    }

    /// The "Window" button: the window that was typed last.
    pub fn choose_window_mode(&mut self)
        ensures
            *final(self) == (WidgetApp {
                target: TargetSel::Window(old(self).window_text),
                ..*old(self)
            }),
    {
        self.target = TargetSel::Window(self.window_text.clone());
    }

    /// The "Region" button: at first the whole screen, unless a region is chosen
    /// already.
    pub fn choose_region_mode(&mut self)
        ensures
            final(self).retargeted(*old(self)),
            old(self).target is Region ==> *final(self) == *old(self),
            !(old(self).target is Region) ==> {
                let screen = screen_of(old(self).target, old(self).region_screen);
                let (w, h) = if screen < old(self).screens@.len() {
                    (
                        old(self).screens@[screen as int].width,
                        old(self).screens@[screen as int].height,
                    )
                } else {
                    (1920u32, 1080u32)
                };
                &&& final(self).region_screen == screen
                &&& final(self).target == TargetSel::Region {
                    screen,
                    rect: Rect { x: 0, y: 0, w, h },
                }
                &&& final(self).last_msg@ == "region 0,0 "@ + text::decimal(w as nat) + "x"@
                    + text::decimal(h as nat) + " (full screen)"@
            },
    {
        if let TargetSel::Region { .. } = &self.target {
            return;
        }
        let screen = self.overlay_screen();
        let (w, h) = if (screen as usize) < self.screens.len() {
            (self.screens[screen as usize].width, self.screens[screen as usize].height)
        } else {
            (1920, 1080)
        };
        self.region_screen = screen;
        self.target = TargetSel::Region { screen, rect: Rect { x: 0, y: 0, w, h } };
        let mut m = join3("region 0,0 ", decimal_text(w as u64).as_str(), "x");
        m.append(decimal_text(h as u64).as_str());
        m.append(" (full screen)");
        self.last_msg = m;
    }

    /// The place in the list of screens that is shown as chosen.
    pub fn screen_index(&self, s: u32) -> (r: usize)
        ensures
            r == (if self.screens@.len() == 0 {
                0int
            } else if s < self.screens@.len() {
                s as int
            } else {
                self.screens@.len() - 1
            }),
    {
        let n: usize = self.screens.len();
        if n == 0 {
            0
        } else if (s as usize) < n {
            s as usize
        } else {
            n - 1
        }
    }

    /// A choice in the list of screens.
    pub fn choose_screen(&mut self, i: u32)
        ensures
            *final(self) == (WidgetApp { target: TargetSel::Screen(i), ..*old(self) }),
    {
        self.target = TargetSel::Screen(i);
    }

    /// Text typed into the window field: the target follows it.
    pub fn type_window(&mut self, t: &str)
        ensures
            final(self).window_text@ == t@,
            final(self).target matches TargetSel::Window(w) && w@ == t@,
            *final(self) == (WidgetApp {
                target: final(self).target,
                window_text: final(self).window_text,
                ..*old(self)
            }),
    {
        self.window_text = t.to_owned();
        self.target = TargetSel::Window(t.to_owned());
    }

    /// A choice in the list of windows.
    pub fn choose_window(&mut self, i: usize)
        requires
            i < old(self).windows@.len(),
        ensures
            final(self).window_text@ == old(self).windows@[i as int].title@,
            final(self).target matches TargetSel::Window(w) && w@ == old(
                self,
            ).windows@[i as int].title@,
            *final(self) == (WidgetApp {
                target: final(self).target,
                window_text: final(self).window_text,
                ..*old(self)
            }),
    {
        let t = self.windows[i].title.clone();
        self.type_window(t.as_str());
    }

    /// A choice in the list of microphones; the empty name is none.
    pub fn choose_mic(&mut self, name: &str)
        ensures
            name@.len() == 0 ==> final(self).mic_name is None,
            name@.len() > 0 ==> (final(self).mic_name matches Some(m) && m@ == name@),
            *final(self) == (WidgetApp { mic_name: final(self).mic_name, ..*old(self) }),
    {
        if to_chars(name).len() == 0 {
            self.mic_name = None;
        } else {
            self.mic_name = Some(name.to_owned());
        }
    }

    /// Sends for a region on the screen that is the target.
    pub fn want_region(&mut self, screen: u32)
        ensures
            *final(self) == (WidgetApp { region_screen: screen, ..*old(self) }),
    {
        self.region_screen = screen;
    }

    /// The overlay came back with a region, or was cancelled.
    pub fn take_pick(&mut self, picked: Option<(u32, Rect)>)
        ensures
            final(self).retargeted(*old(self)),
            picked is None ==> *final(self) == *old(self),
            picked matches Some((screen, rect)) ==> final(self).region_screen == screen
                && final(self).target == (TargetSel::Region { screen, rect })
                && final(self).last_msg@ == "region "@ + region::region_of(rect),
    {
        if let Some((screen, rect)) = picked {
            self.region_screen = screen;
            self.target = TargetSel::Region { screen, rect };
            self.last_msg = join2("region ", region_text(rect).as_str());
        }
    }

    /// The editor came back with a region and a document, or with nothing.
    pub fn take_annotation(&mut self, brought: Option<(u32, Rect, AnnotateDoc)>)
        ensures
            match brought {
                None => final(self).said_more(*old(self)) && final(self).last_msg@
                    == "annotate finished without a result — see log file"@,
                Some((screen, rect, doc)) => *final(self) == (WidgetApp {
                    region_screen: screen,
                    target: TargetSel::Region { screen, rect },
                    pending_doc: Some(doc),
                    last_msg: final(self).last_msg,
                    ..*old(self)
                }) && final(self).last_msg@ == "annotated region "@ + region::region_of(rect)
                    + " ("@ + text::decimal(doc.strokes@.len()) + " strokes)"@,
            },
    {
        match brought {
            None => {
                self.last_msg = "annotate finished without a result — see log file".to_owned();
            },
            Some((screen, rect, doc)) => {
                let n: usize = doc.strokes.len();
                self.region_screen = screen;
                self.target = TargetSel::Region { screen, rect };
                self.pending_doc = Some(doc);
                let mut m = join3("annotated region ", region_text(rect).as_str(), " (");
                m.append(decimal_text(n as u64).as_str());
                m.append(" strokes)");
                self.last_msg = m;
            },
        }
    }

    // ---- record ----

    /// The target, for the countdown.
    pub fn target_desc(&self) -> (s: String)
        ensures
            s@ == (match self.target {
                TargetSel::Screen(n) => "Screen #"@ + text::decimal(n as nat),
                TargetSel::Window(t) => if text::trimmed(t@).len() == 0 {
                    "Window […]"@
                } else {
                    "Window '"@ + t@ + "'"@
                },
                TargetSel::Region { screen, rect } => "Region "@ + region::region_of(rect)
                    + " on screen "@ + text::decimal(screen as nat),
            }),
    {
        match &self.target {
            TargetSel::Screen(n) => join2("Screen #", decimal_text(*n as u64).as_str()),
            TargetSel::Window(t) => {
                if blank(t.as_str()) {
                    "Window […]".to_owned()
                } else {
                    join3("Window '", t.as_str(), "'")
                }
            },
            TargetSel::Region { screen, rect } => {
                let mut s = join3("Region ", region_text(*rect).as_str(), " on screen ");
                s.append(decimal_text(*screen as u64).as_str());
                s
            },
        }
    }

    /// Is there no window to record?
    pub open spec fn windowless(self) -> bool {
        self.target matches TargetSel::Window(t) && text::trimmed(t@).len() == 0
    }

    /// The record button.
    pub fn press_record(&mut self, now_ns: u64) -> (r: Press)
        requires
            now_ns + COUNTDOWN_SECS * SECOND_NS <= u64::MAX,
        ensures
            if old(self).windowless() {
                &&& r == Press::Refused
                &&& final(self).said_more(*old(self))
                &&& final(self).last_msg@ == "pick a window first (substring of its title)"@
            } else if old(self).countdown_enabled {
                &&& r == Press::Armed
                &&& final(self).last_msg@.len() == 0
                &&& *final(self) == (WidgetApp {
                    countdown_until_ns: Some((now_ns + COUNTDOWN_SECS * SECOND_NS) as u64),
                    last_msg: final(self).last_msg,
                    ..*old(self)
                })
            } else {
                r == Press::Start && *final(self) == *old(self)
            },
    {
        let none = match &self.target {
            TargetSel::Window(t) => blank(t.as_str()),
            _ => false,
        };
        if none {
            self.last_msg = "pick a window first (substring of its title)".to_owned();
            Press::Refused
        } else if self.countdown_enabled {
            self.countdown_until_ns = Some(now_ns + COUNTDOWN_SECS * SECOND_NS);
            self.last_msg = String::new();
            Press::Armed
        } else {
            Press::Start
        }
    }

    /// The cancel button of the countdown.
    pub fn cancel_countdown(&mut self)
        ensures
            final(self).last_msg@ == "countdown cancelled."@,
            *final(self) == (WidgetApp {
                countdown_until_ns: None,
                last_msg: final(self).last_msg,
                ..*old(self)
            }),
    {
        self.countdown_until_ns = None;
        self.last_msg = "countdown cancelled.".to_owned();
    }

    /// Has the time come?
    pub fn countdown_finished(deadline_ns: u64, now_ns: u64) -> (r: bool)
        ensures
            r == (now_ns >= deadline_ns),
    {
        now_ns >= deadline_ns
    }

    /// Takes a countdown that is over.
    pub fn take_expired_countdown(&mut self, now_ns: u64) -> (r: bool)
        ensures
            r == (old(self).countdown_until_ns matches Some(d) && now_ns >= d),
            r ==> *final(self) == (WidgetApp { countdown_until_ns: None, ..*old(self) }),
            !r ==> *final(self) == *old(self),
    {
        match self.countdown_until_ns {
            Some(d) => {
                if Self::countdown_finished(d, now_ns) {
                    self.countdown_until_ns = None;
                    true
                } else {
                    false
                }
            },
            None => false,
        }
    }

    /// The number that the countdown shows.
    pub fn countdown_number(deadline_ns: u64, now_ns: u64) -> (r: u64)
        ensures
            r == (if now_ns < deadline_ns {
                (deadline_ns - now_ns) / SECOND_NS as int + 1
            } else {
                1
            }),
    {
        deadline_ns.saturating_sub(now_ns) / SECOND_NS + 1
    }

    /// The size of the feed that is drawn on, or why there is none. `window_feed`
    /// is the size that a window is captured at, where the system tells it.
    pub open spec fn feed_of(self, window_feed: Option<(u32, u32)>) -> Result<
        (u32, u32),
        Seq<char>,
    > {
        match self.target {
            TargetSel::Screen(s) => if s < self.screens@.len() {
                Ok((self.screens@[s as int].width, self.screens@[s as int].height))
            } else {
                Err(gone(s))
            },
            TargetSel::Region { screen, rect } => if screen < self.screens@.len() {
                Ok((rect.w, rect.h))
            } else {
                Err(gone(screen))
            },
            TargetSel::Window(t) => match window_feed {
                Some(size) => Ok(size),
                None => match search::find_where(self.windows@, named(t@)) {
                    Some(w) => Ok((session::panel_edge(w.width), session::panel_edge(w.height))),
                    None => Ok((1280, 720)),
                },
            },
        }
    }

    /// The size of the feed that is drawn on.
    pub fn draw_feed_size(&self, window_feed: Option<(u32, u32)>) -> (r: Result<(u32, u32), String>)
        ensures
            text::said(r) == self.feed_of(window_feed),
    {
        match &self.target {
            TargetSel::Screen(s) => {
                if (*s as usize) < self.screens.len() {
                    let d = &self.screens[*s as usize];
                    Ok((d.width, d.height))
                } else {
                    Err(gone_text(*s))
                }
            },
            TargetSel::Region { screen, rect } => {
                if (*screen as usize) < self.screens.len() {
                    Ok((rect.w, rect.h))
                } else {
                    Err(gone_text(*screen))
                }
            },
            TargetSel::Window(t) => {
                if let Some(size) = window_feed {
                    return Ok(size);
                }
                let i = find_named(&self.windows, t.as_str());
                if i < self.windows.len() {
                    let w = &self.windows[i];
                    Ok((panel_edge_of(w.width), panel_edge_of(w.height)))
                } else {
                    Ok((1280, 720))
                }
            },
        }
    }

    /// What keeps a recording from starting.
    pub open spec fn start_refusal(self, os: Os, window_feed: Option<(u32, u32)>) -> Option<
        Seq<char>,
    > {
        if os != Os::Windows && (self.cursor_highlight || self.cursor_ripple) {
            Some("cursor fx is Windows-only in this release"@)
        } else if self.draw_live {
            match self.feed_of(window_feed) {
                Ok(_) => None,
                Err(m) => Some(m),
            }
        } else {
            None
        }
    }

    /// Asks whether a recording may start, and how large its drawing panel is.
    pub fn begin(&mut self, os: Os, window_feed: Option<(u32, u32)>) -> (r: Begin)
        ensures
            final(self).said_more(*old(self)),
            if old(self).rec is Some {
                r == Begin::Busy && *final(self) == *old(self)
            } else {
                match old(self).start_refusal(os, window_feed) {
                    Some(m) => r == Begin::Refused && final(self).last_msg@ == m,
                    None => *final(self) == *old(self) && r == (Begin::Go {
                        panel: if old(self).draw_live {
                            let (w, h) = old(self).feed_of(window_feed)->Ok_0;
                            Some((session::panel_edge(w), session::panel_edge(h)))
                        } else {
                            None
                        },
                    }),
                }
            },
    {
        if self.rec.is_some() {
            return Begin::Busy;
        }
        if os != Os::Windows && (self.cursor_highlight || self.cursor_ripple) {
            self.last_msg = "cursor fx is Windows-only in this release".to_owned();
            return Begin::Refused;
        }
        if self.draw_live {
            match self.draw_feed_size(window_feed) {
                Ok((w, h)) => Begin::Go { panel: Some((panel_edge_of(w), panel_edge_of(h))) },
                Err(m) => {
                    self.last_msg = m;
                    Begin::Refused
                },
            }
        } else {
            Begin::Go { panel: None }
        }
    }

    /// The recording has nowhere to go; why.
    pub fn refuse_output(&mut self, why: &str)
        ensures
            final(self).said_more(*old(self)),
            final(self).last_msg@ == why@,
    {
        self.last_msg = why.to_owned();
    }

    /// The microphone that a recording uses: none without audio.
    pub fn record_mic(&self) -> (r: Option<String>)
        ensures
            r == (if self.audio_on {
                self.mic_name
            } else {
                None
            }),
    {
        if self.audio_on {
            match &self.mic_name {
                Some(m) => Some(m.clone()),
                None => None,
            }
        } else {
            None
        }
    }

    /// The cursor effects that a recording burns in.
    pub fn record_fx(&self) -> (r: Option<CursorFx>)
        ensures
            r == (if self.cursor_highlight || self.cursor_ripple {
                Some(
                    CursorFx {
                        highlight: self.cursor_highlight,
                        ripple: self.cursor_ripple,
                        style: self.adv.style_spec(),
                    },
                )
            } else {
                None
            }),
    {
        CursorFx::opt_with(self.cursor_highlight, self.cursor_ripple, self.adv.style())
    }

    /// The recording has started.
    pub fn started(&mut self, output: &str, now_ns: u64)
        ensures
            final(self).rec matches Some(r) && r.started_ns == now_ns && r.output@ == output@
                && !r.stopping && !r.paused && r.paused_total_ns == 0 && r.pause_began_ns is None
                && r.wf(now_ns),
            final(self).last_msg@.len() == 0,
            *final(self) == (WidgetApp {
                rec: final(self).rec,
                last_msg: final(self).last_msg,
                ..*old(self)
            }),
    {
        self.rec = Some(ActiveRec::new(output.to_owned(), now_ns));
        self.last_msg = String::new();
    }

    /// The stop button.
    pub fn stop_recording(&mut self)
        ensures
            old(self).rec is None ==> *final(self) == *old(self),
            old(self).rec matches Some(r) ==> final(self).rec == Some(
                ActiveRec { stopping: true, ..r },
            ) && final(self).last_msg@ == FINALIZING@,
            *final(self) == (WidgetApp {
                rec: final(self).rec,
                last_msg: final(self).last_msg,
                ..*old(self)
            }),
    {
        if let Some(r) = self.rec.take() {
            let mut r = r;
            r.stopping = true;
            self.rec = Some(r);
            self.last_msg = FINALIZING.to_owned();
        }
    }

    /// The pause button.
    pub fn press_pause(&mut self, now_ns: u64)
        requires
            old(self).rec matches Some(r) ==> r.wf(now_ns),
        ensures
            old(self).rec is None ==> *final(self) == *old(self),
            old(self).rec matches Some(r) ==> final(self).rec == Some(r.after(!r.paused, now_ns)),
            final(self).rec matches Some(r) ==> r.wf(now_ns),
            *final(self) == (WidgetApp { rec: final(self).rec, ..*old(self) }),
    {
        if let Some(r) = self.rec.take() {
            let mut r = r;
            r.toggle_pause(now_ns);
            self.rec = Some(r);
        }
    }

    /// Is the file being finished?
    pub fn finishing(&self) -> (r: bool)
        ensures
            r == (self.rec is Some && self.last_msg@ == FINALIZING@),
    {
        self.rec.is_some() && same(self.last_msg.as_str(), FINALIZING)
    }

    /// The recording is over.
    pub fn finished(&mut self, message: &str)
        ensures
            final(self).last_msg@ == message@,
            *final(self) == (WidgetApp {
                rec: None,
                last_msg: final(self).last_msg,
                ..*old(self)
            }),
    {
        self.last_msg = message.to_owned();
        self.rec = None;
    }

    /// The live strokes were saved beside the recording, or could not be.
    pub fn note_sidecar(&mut self, strokes: usize, sidecar: &str, failed: Option<&str>)
        ensures
            final(self).said_more(*old(self)),
            final(self).last_msg@ == old(self).last_msg@ + (match failed {
                None => " (+"@ + text::decimal(strokes as nat) + " live strokes → "@ + sidecar@
                    + ")"@,
                Some(e) => " (sidecar failed: "@ + e@ + ")"@,
            }),
    {
        let note = match failed {
            None => {
                let mut n = join3(" (+", decimal_text(strokes as u64).as_str(), " live strokes → ");
                n.append(sidecar);
                n.append(")");
                n
            },
            Some(e) => join3(" (sidecar failed: ", e, ")"),
        };
        self.last_msg = join2(self.last_msg.as_str(), note.as_str());
    }

    /// The file that the last message says was saved.
    pub fn last_saved_path(&self) -> (r: Option<String>)
        ensures
            match saved_path(self.last_msg@) {
                Some(p) => r matches Some(s) && s@ == p,
                None => r is None,
            },
    {
        let v = to_chars(self.last_msg.as_str());
        let head = to_chars("Saved ");
        if v.len() < head.len() || !matches_at(v.as_slice(), head.as_slice(), 0) {
            return None;
        }
        let rest = piece(v.as_slice(), head.len(), v.len());
        assert(rest@ == v@.skip(head@.len() as int));
        let cut = find_part(rest.as_slice(), to_chars(" — ").as_slice());
        let name = piece(rest.as_slice(), 0, cut);
        assert(name@ == rest@.take(cut as int));
        Some(from_chars(name.as_slice()))
    }
}

/// The widget opens as it was closed: target, texts, devices, switches and
/// settings come back, as long as the screens are there and the settings are in
/// their ranges.
pub proof fn law_widget_reopens(
    before: WidgetApp,
    after: WidgetApp,
    n: nat,
    sys_gain_db: F32,
    sys_muted: bool,
    mic_gain_db: F32,
    mic_muted: bool,
)
    requires
        after.remembers(before.snapshot(sys_gain_db, sys_muted, mic_gain_db, mic_muted), n),
        before.adv.in_range(),
        screen_of(before.target, before.region_screen) < n,
        before.region_screen < n,
    ensures
        after.target == before.target,
        after.region_screen == before.region_screen,
        after.window_text == before.window_text,
        after.mic_name == before.mic_name,
        after.audio_on == before.audio_on,
        after.adv == before.adv,
        after.draw_live == before.draw_live,
        after.cursor_highlight == before.cursor_highlight,
        after.cursor_ripple == before.cursor_ripple,
        after.output_dir == before.output_dir,
        after.countdown_enabled == before.countdown_enabled,
{
    advanced::law_sanitized(before.adv);
}

/// Is there nothing but white space?
fn blank(t: &str) -> (r: bool)
    ensures
        r == (text::trimmed(t@).len() == 0),
{
    trim(to_chars(t).as_slice()).len() == 0
}

/// The file that a message says was saved: what stands between "Saved " and the
/// first dash.
pub open spec fn saved_path(msg: Seq<char>) -> Option<Seq<char>> {
    if text::occurs_at(msg, "Saved "@, 0) {
        let rest = msg.skip("Saved "@.len() as int);
        Some(rest.take(text::first_part(rest, " — "@) as int))
    } else {
        None
    }
}

/// A report that a file was saved names the file, unless the name itself holds
/// the dash that ends it.
pub proof fn law_saved_path(output: Seq<char>, more: Seq<char>)
    requires
        forall|i: int| 0 <= i < output.len() ==> !text::occurs_at(output + " — "@ + more, " — "@, i),
    ensures
        saved_path("Saved "@ + output + " — "@ + more) == Some(output),
{
    reveal_strlit("Saved ");
    reveal_strlit(" — ");
    let dash = " — "@;
    let rest = output + dash + more;
    let msg = "Saved "@ + output + dash + more;
    assert(msg.skip("Saved "@.len() as int) =~= rest);
    assert(msg.subrange(0, "Saved "@.len() as int) =~= "Saved "@);
    assert(rest.subrange(output.len() as int, (output.len() + dash.len()) as int) =~= dash);
    text::lemma_first_part(rest, dash, output.len() as int);
    assert(rest.take(output.len() as int) =~= output);
}

/// What is said of a screen that is not listed.
pub open spec fn gone(screen: u32) -> Seq<char> {
    "screen "@ + text::decimal(screen as nat) + " not in the display list — reopen the widget"@
}

fn gone_text(screen: u32) -> (s: String)
    ensures
        s@ == gone(screen),
{
    join3(
        "screen ",
        decimal_text(screen as u64).as_str(),
        " not in the display list — reopen the widget",
    )
}

/// Has the window exactly this title?
pub open spec fn named(title: Seq<char>) -> spec_fn(WindowInfo) -> bool {
    |w: WindowInfo| w.title@ == title
}

fn find_named(windows: &Vec<WindowInfo>, title: &str) -> (i: usize)
    ensures
        i == search::first_where(windows@, named(title@)),
        i <= windows@.len(),
{
    let mut i: usize = 0;
    while i < windows.len()
        invariant
            i <= windows@.len(),
            forall|k: int| 0 <= k < i ==> !named(title@)(#[trigger] windows@[k]),
        decreases windows@.len() - i,
    {
        if same(windows[i].title.as_str(), title) {
            proof {
                assert(named(title@)(windows@[i as int]));
                search::lemma_first_where(windows@, named(title@), i as int);
            }
            return i;
        }
        i += 1;
    }
    proof {
        search::lemma_first_where(windows@, named(title@), i as int);
    }
    i
}

/// The folder that has to be made before a recording is written: none where the
/// setting is blank, which is the current folder.
pub fn output_folder(dir: &str) -> (r: Option<String>)
    ensures
        match r {
            Some(d) => d@ == dir@ && text::trimmed(dir@).len() > 0,
            None => text::trimmed(dir@).len() == 0,
        },
{
    if blank(dir) {
        None
    } else {
        Some(dir.to_owned())
    }
}

/// Does the character separate the parts of a path?
pub open spec fn separates(os: Os, c: char) -> bool {
    c == '/' || (os == Os::Windows && c == '\\')
}

/// Is the path the current folder of a drive, such as `C:`?
pub open spec fn bare_drive(os: Os, path: Seq<char>) -> bool {
    &&& os == Os::Windows
    &&& path.len() == 2
    &&& ('a' <= path[0] <= 'z' || 'A' <= path[0] <= 'Z')
    &&& path[1] == ':'
}

/// The path of a file in a folder.
pub open spec fn file_in(os: Os, dir: Seq<char>, name: Seq<char>) -> Seq<char> {
    if dir.len() == 0 || separates(os, dir.last()) || bare_drive(os, dir) {
        dir + name
    } else if os == Os::Windows {
        dir + "\\"@ + name
    } else {
        dir + "/"@ + name
    }
}

/// The path of a file in a folder.
fn path_in(os: Os, dir: &str, name: &str) -> (r: String)
    ensures
        r@ == file_in(os, dir@, name@),
{
    let v = to_chars(dir);
    let n = v.len();
    let windows = os == Os::Windows;
    if n == 0 || v[n - 1] == '/' || (windows && v[n - 1] == '\\') {
        return join2(dir, name);
    }
    if windows && n == 2 && v[1] == ':' && (('a' <= v[0] && v[0] <= 'z') || ('A' <= v[0] && v[0]
        <= 'Z')) {
        return join2(dir, name);
    }
    if windows {
        join3(dir, "\\", name)
    } else {
        join3(dir, "/", name)
    }
}

/// Where a recording is written: in the folder of the settings, a blank one being
/// the current one, under a name by the local time. `made` says whether the folder
/// is there, or why it could not be made; a blank setting does not look at it.
pub fn default_output_in(dir: &str, stamp: &str, os: Os, made: Result<(), &str>) -> (r: Result<
    String,
    String,
>)
    ensures
        ({
            let name = "qcapture_"@ + stamp@ + ".mp4"@;
            if text::trimmed(dir@).len() == 0 {
                r matches Ok(p) && p@ == name
            } else {
                match made {
                    Err(e) => r matches Err(m) && m@ == "output folder '"@ + dir@ + "': "@ + e@,
                    Ok(_) => r matches Ok(p) && p@ == file_in(os, dir@, name),
                }
            }
        }),
{
    let name = default_output(stamp);
    if blank(dir) {
        return Ok(name);
    }
    match made {
        Err(e) => {
            let mut m = join3("output folder '", dir, "': ");
            m.append(e);
            Err(m)
        },
        Ok(_) => Ok(path_in(os, dir, name.as_str())),
    }
}

/// A file in a folder has the folder in front and its name at the end.
pub proof fn law_file_in_folder(os: Os, dir: Seq<char>, name: Seq<char>)
    ensures
        ({
            let path = file_in(os, dir, name);
            &&& path.len() >= dir.len() + name.len()
            &&& path.take(dir.len() as int) == dir
            &&& path.skip(path.len() - name.len()) == name
        }),
{
    let path = file_in(os, dir, name);
    assert(path.take(dir.len() as int) =~= dir);
    assert(path.skip(path.len() - name.len()) =~= name);
}

/// The document that is saved beside a recording with live strokes: the staged
/// one with them added. Nothing is saved where nothing was drawn.
pub fn merge_drawn(staged: Option<AnnotateDoc>, drawn: AnnotateDoc) -> (r: Option<AnnotateDoc>)
    ensures
        drawn.strokes@.len() == 0 ==> r is None,
        drawn.strokes@.len() > 0 ==> match staged {
            Some(a) => r matches Some(d) && d.same_but_strokes(a) && d.strokes@.len()
                >= a.strokes@.len() && d.strokes@.take(a.strokes@.len() as int) == a.strokes@
                && session::accepted(d.strokes@.skip(a.strokes@.len() as int), drawn.strokes@),
            None => r matches Some(d) && d.version == 1 && d.canvas_w == drawn.canvas_w
                && d.canvas_h == drawn.canvas_h && d.watermarks@.len() == 0 && d.burn_in
                && session::accepted(d.strokes@, drawn.strokes@),
        },
{
    if drawn.strokes.len() == 0 {
        return None;
    }
    sidecar_doc(staged, drawn.canvas_w, drawn.canvas_h, drawn.strokes)
}

// ---------------------------------------------------------------------------
// Texts
// ---------------------------------------------------------------------------

/// A screen in the list.
pub fn screen_label(i: usize, d: &DisplayInfo) -> (s: String)
    ensures
        s@ == (if d.is_primary {
            "Primary"@
        } else {
            "Monitor"@
        }) + " #"@ + text::decimal(i as nat) + " — "@ + d.name@ + " "@ + text::decimal(
            d.width as nat,
        ) + "x"@ + text::decimal(d.height as nat),
{
    let mut s = (if d.is_primary {
        "Primary"
    } else {
        "Monitor"
    }).to_owned();
    s.append(" #");
    s.append(decimal_text(i as u64).as_str());
    s.append(" — ");
    s.append(d.name.as_str());
    s.append(" ");
    s.append(decimal_text(d.width as u64).as_str());
    s.append("x");
    s.append(decimal_text(d.height as u64).as_str());
    s
}

/// How much of a title the list of windows shows.
pub const TITLE_CHARS: usize = 48;

/// A window in the list.
pub fn window_label(w: &WindowInfo) -> (s: String)
    ensures
        s@ == w.app_name@ + " — "@ + (if w.title@.len() > TITLE_CHARS {
            w.title@.take(TITLE_CHARS as int)
        } else {
            w.title@
        }),
{
    let v = to_chars(w.title.as_str());
    let n: usize = if v.len() > TITLE_CHARS {
        TITLE_CHARS
    } else {
        v.len()
    };
    let shown = from_chars(piece(v.as_slice(), 0, n).as_slice());
    assert(shown@ =~= v@.take(n as int));
    assert(v@.take(v@.len() as int) =~= v@);
    join3(w.app_name.as_str(), " — ", shown.as_str())
}

/// The region that is the target.
pub fn region_label(screen: u32, rect: Rect) -> (s: String)
    ensures
        s@ == "screen "@ + text::decimal(screen as nat) + ": "@ + place_of(rect),
{
    let mut s = join3("screen ", decimal_text(screen as u64).as_str(), ": ");
    s.append(place_text(rect).as_str());
    s
}

/// The staged annotations.
pub fn staged_label(doc: &AnnotateDoc) -> (s: String)
    ensures
        s@ == "staged annotations ("@ + text::decimal(doc.strokes@.len())
            + " strokes) — burns in on next record"@,
{
    let n: usize = doc.strokes.len();
    join3(
        "staged annotations (",
        decimal_text(n as u64).as_str(),
        " strokes) — burns in on next record",
    )
}

/// How the thread that records came to its end.
pub enum ThreadEnd<'a> {
    Saved(&'a str),
    Failed(&'a str),
    Panicked,
}

/// What the widget says of it.
pub fn thread_message(end: ThreadEnd) -> (s: String)
    ensures
        s@ == (match end {
            ThreadEnd::Saved(m) => m@,
            ThreadEnd::Failed(e) => "record failed: "@ + e@,
            ThreadEnd::Panicked => "record thread panicked"@,
        }),
{
    match end {
        ThreadEnd::Saved(m) => m.to_owned(),
        ThreadEnd::Failed(e) => join2("record failed: ", e),
        ThreadEnd::Panicked => "record thread panicked".to_owned(),
    }
}

// ---------------------------------------------------------------------------
// What holds on every input
// ---------------------------------------------------------------------------

/// The time in pauses: those that are over, and the one that runs up to now.
pub proof fn law_time_in_pauses(r: ActiveRec, now_ns: u64)
    ensures
        r.pause_began_ns is None ==> r.paused_ns(now_ns) == r.paused_total_ns,
        r.pause_began_ns matches Some(b) ==> (b <= now_ns ==> r.paused_ns(now_ns)
            == r.paused_total_ns + (now_ns - b)),
{
}

/// The content is what is left of the session without its pauses.
pub proof fn law_content_of_a_session(r: ActiveRec, now_ns: u64)
    requires
        r.wf(now_ns),
    ensures
        r.pause_began_ns is None ==> r.started_ns + r.paused_total_ns + r.content_ns(now_ns)
            == now_ns,
        r.pause_began_ns matches Some(b) ==> r.started_ns + r.paused_total_ns + r.content_ns(now_ns)
            == b,
{
}

/// Pausing notes the moment, resuming adds the pause to those before it, and neither
/// touches anything else of the recording.
pub proof fn law_pausing_and_resuming(r: ActiveRec, now_ns: u64)
    requires
        r.wf(now_ns),
    ensures
        r.after(true, now_ns).paused && r.after(true, now_ns).pause_began_ns == Some(now_ns),
        r.after(true, now_ns).paused_total_ns == r.paused_total_ns,
        !r.after(false, now_ns).paused && r.after(false, now_ns).pause_began_ns is None,
        r.pause_began_ns matches Some(b) ==> r.after(false, now_ns).paused_total_ns
            == r.paused_total_ns + (now_ns - b),
        r.pause_began_ns is None ==> r.after(false, now_ns).paused_total_ns == r.paused_total_ns,
        r.after(true, now_ns).started_ns == r.started_ns && r.after(false, now_ns).started_ns
            == r.started_ns,
        r.after(true, now_ns).output == r.output && r.after(false, now_ns).output == r.output,
        r.after(true, now_ns).stopping == r.stopping && r.after(false, now_ns).stopping
            == r.stopping,
{
}

/// A screen that is there stays, and one that is gone becomes the first.
pub proof fn law_screens_that_are_gone(s: u32, n: nat)
    ensures
        s < n ==> screen_or_first(s, n) == s,
        s >= n ==> screen_or_first(s, n) == 0,
{
}

/// A target keeps its kind, its region and its window; only a screen that is gone is
/// replaced.
pub proof fn law_targets_that_come_back(s: u32, rect: Rect, t: String, n: nat)
    ensures
        target_on(TargetSel::Screen(s), n) == TargetSel::Screen(screen_or_first(s, n)),
        target_on(TargetSel::Region { screen: s, rect }, n) == (TargetSel::Region {
            screen: screen_or_first(s, n),
            rect,
        }),
        target_on(TargetSel::Window(t), n) == TargetSel::Window(t),
{
}

/// The screen of a target is its own; a window has that of the last region.
pub proof fn law_screen_of_a_target(s: u32, rect: Rect, t: String, last: u32)
    ensures
        screen_of(TargetSel::Screen(s), last) == s,
        screen_of(TargetSel::Region { screen: s, rect }, last) == s,
        screen_of(TargetSel::Window(t), last) == last,
{
}

/// The settings that are saved are those of the widget, each in its own place.
pub proof fn law_saved_settings(
    w: WidgetApp,
    sys_gain_db: F32,
    sys_muted: bool,
    mic_gain_db: F32,
    mic_muted: bool,
)
    ensures
        ({
            let s = w.snapshot(sys_gain_db, sys_muted, mic_gain_db, mic_muted);
            &&& s.version == 1
            &&& s.target == Some(w.target)
            &&& s.region_screen == w.region_screen
            &&& s.window_text == w.window_text
            &&& s.mic_name == w.mic_name
            &&& s.audio_on == w.audio_on
            &&& s.sys_gain_db == sys_gain_db
            &&& s.sys_muted == sys_muted
            &&& s.mic_gain_db == mic_gain_db
            &&& s.mic_muted == mic_muted
            &&& s.adv == Some(w.adv)
            &&& s.draw_live == w.draw_live
            &&& s.cursor_highlight == w.cursor_highlight
            &&& s.cursor_ripple == w.cursor_ripple
            &&& s.output_dir == w.output_dir
            &&& s.countdown_enabled == w.countdown_enabled
        }),
{
}

/// A widget that remembers settings has them, each in its own place.
pub proof fn law_remembered_settings(w: WidgetApp, s: PersistedSettings, n: nat)
    requires
        w.remembers(s, n),
    ensures
        s.target matches Some(t) ==> w.target == target_on(t, n),
        s.target is None ==> w.target == TargetSel::Screen(0),
        s.region_screen < n ==> w.region_screen == s.region_screen,
        w.window_text == s.window_text,
        w.mic_name == s.mic_name,
        w.audio_on == s.audio_on,
        s.adv matches Some(a) ==> w.adv == a.sanitized(),
        w.draw_live == s.draw_live,
        w.cursor_highlight == s.cursor_highlight,
        w.cursor_ripple == s.cursor_ripple,
        w.output_dir == s.output_dir,
        w.countdown_enabled == s.countdown_enabled,
{
}

/// The widget has no window to record where it is to record one and its title is blank.
pub proof fn law_no_window_to_record(w: WidgetApp)
    ensures
        w.windowless() ==> w.target is Window,
        w.target matches TargetSel::Window(t) ==> (w.windowless() <==> text::trimmed(t@).len()
            == 0),
{
}

/// What a retargeted widget keeps, and one that only says something else.
pub proof fn law_what_the_widget_keeps(a: WidgetApp, b: WidgetApp)
    ensures
        a.said_more(b) ==> a.target == b.target && a.region_screen == b.region_screen,
        a.said_more(b) || a.retargeted(b) ==> {
            &&& a.screens == b.screens && a.windows == b.windows
            &&& a.window_text == b.window_text && a.mic_name == b.mic_name
            &&& a.audio_on == b.audio_on && a.adv == b.adv && a.rec == b.rec
            &&& a.pending_doc == b.pending_doc && a.draw_live == b.draw_live
            &&& a.cursor_highlight == b.cursor_highlight && a.cursor_ripple == b.cursor_ripple
            &&& a.output_dir == b.output_dir && a.countdown_enabled == b.countdown_enabled
            &&& a.countdown_until_ns == b.countdown_until_ns
        },
{
}

/// The picture that is drawn on has the size of the screen, of the region, or of the
/// window, as the window is or else as it is listed.
pub proof fn law_size_to_draw_on(w: WidgetApp, feed: Option<(u32, u32)>)
    ensures
        w.target matches TargetSel::Screen(s) ==> {
            &&& s < w.screens@.len() ==> (w.feed_of(feed) matches Ok((fw, fh)) && fw
                == w.screens@[s as int].width && fh == w.screens@[s as int].height)
            &&& s >= w.screens@.len() ==> w.feed_of(feed) is Err
        },
        w.target matches TargetSel::Region { screen, rect } ==> {
            &&& screen < w.screens@.len() ==> (w.feed_of(feed) matches Ok((fw, fh)) && fw == rect.w
                && fh == rect.h)
            &&& screen >= w.screens@.len() ==> w.feed_of(feed) is Err
        },
        w.target is Window && feed is Some ==> w.feed_of(feed) == Ok::<(u32, u32), Seq<char>>(
            feed->0,
        ),
        w.target is Window && feed is None && search::find_where(
            w.windows@,
            named(w.target->Window_0@),
        ) is None ==> w.feed_of(feed) == Ok::<(u32, u32), Seq<char>>((1280u32, 720u32)),
        w.target is Window && feed is None ==> (search::find_where(
            w.windows@,
            named(w.target->Window_0@),
        ) matches Some(v) ==> (w.feed_of(feed) matches Ok((fw, fh)) && fw == session::panel_edge(
            v.width,
        ) && fh == session::panel_edge(v.height))),
{
}

/// A recording of the widget is refused for marks at the cursor off Windows, and for
/// drawing on what is not there.
pub proof fn law_refused_starts(w: WidgetApp, os: Os, feed: Option<(u32, u32)>)
    ensures
        w.start_refusal(os, feed) is None <==> {
            &&& w.cursor_highlight || w.cursor_ripple ==> os == Os::Windows
            &&& w.draw_live ==> w.feed_of(feed) is Ok
        },
{
}

/// A listed window is found by its whole title.
pub proof fn law_window_by_whole_title(w: WindowInfo, title: Seq<char>)
    ensures
        named(title)(w) <==> w.title@ == title,
{
}

/// A message that does not begin with the word for it names no file.
pub proof fn law_messages_without_a_file(msg: Seq<char>, i: int)
    requires
        0 <= i < 6,
        msg.len() <= i || msg[i] != seq!['S', 'a', 'v', 'e', 'd', ' '][i],
    ensures
        saved_path(msg) is None,
{
    reveal_strlit("Saved ");
    if text::occurs_at(msg, "Saved "@, 0) {
        assert("Saved "@ =~= seq!['S', 'a', 'v', 'e', 'd', ' ']);
        assert(msg.subrange(0, 6)[i] == msg[i]);
    }
}

/// Between a folder and a file stands one separator: the system's own where the folder
/// has none at its end, and none where it has one or is a bare drive.
pub proof fn law_one_separator(os: Os, dir: Seq<char>, name: Seq<char>)
    requires
        dir.len() > 0,
    ensures
        dir.last() == '/' ==> file_in(os, dir, name) == dir + name,
        os == Os::Windows && dir.last() == '\\' ==> file_in(os, dir, name) == dir + name,
        os != Os::Windows && dir.last() != '/' ==> file_in(os, dir, name) == dir + seq!['/'] + name,
        os == Os::Windows && dir.last() != '/' && dir.last() != '\\' && dir.last() != ':'
            ==> file_in(os, dir, name) == dir + seq!['\\'] + name,
        os == Os::Windows && dir.len() == 2 && 'A' <= dir[0] <= 'Z' && dir[1] == ':' ==> file_in(
            os,
            dir,
            name,
        ) == dir + name,
        os == Os::Windows && dir.len() == 2 && 'a' <= dir[0] <= 'z' && dir[1] == ':' ==> file_in(
            os,
            dir,
            name,
        ) == dir + name,
        os == Os::Windows && dir.len() > 2 && dir.last() == ':' ==> file_in(os, dir, name) == dir
            + seq!['\\'] + name,
        file_in(os, Seq::empty(), name) == name,
{
    reveal_strlit("/");
    reveal_strlit("\\");
    assert("/"@ =~= seq!['/']);
    assert("\\"@ =~= seq!['\\']);
    assert(Seq::<char>::empty() + name =~= name);
}

/// A place reads as its left edge up to the comma, its top edge up to the blank, its
/// width up to the `x`, and its height.
pub proof fn law_place_text(r: Rect)
    ensures
        ({
            let (a, behind_x) = text::split_at_first(place_of(r), ',')->0;
            let (b, size) = text::split_at_first(behind_x, ' ')->0;
            let (c, d) = text::split_at_first(size, 'x')->0;
            &&& text::int_in(a) == Some(r.x as int)
            &&& text::int_in(b) == Some(r.y as int)
            &&& text::int_in(c) == Some(r.w as int)
            &&& text::int_in(d) == Some(r.h as int)
        }),
{
    reveal_strlit(",");
    reveal_strlit(" ");
    reveal_strlit("x");
    assert(","@ =~= seq![',']);
    assert(" "@ =~= seq![' ']);
    assert("x"@ =~= seq!['x']);
    let dx = text::decimal_int(r.x as int);
    let dy = text::decimal_int(r.y as int);
    let dw = text::decimal_int(r.w as int);
    let dh = text::decimal_int(r.h as int);
    let size = dw + seq!['x'] + dh;
    let behind = dy + seq![' '] + size;
    assert(place_of(r) =~= dx + seq![','] + behind);
    text::law_number_before(r.x as int, ',', behind);
    text::law_number_before(r.y as int, ' ', size);
    text::law_number_before(r.w as int, 'x', dh);
    text::law_decimal_int_reads_back(r.h as int);
}

/// The remark on a screen that is gone names the screen behind its first word.
pub proof fn law_screen_gone_text(s: u32)
    ensures
        text::split_at_first(gone(s).skip(7), ' ') matches Some((n, _)) && text::int_in(n) == Some(
            s as int,
        ),
{
    reveal_strlit("screen ");
    reveal_strlit(" not in the display list — reopen the widget");
    let d = text::decimal_int(s as int);
    let tail = " not in the display list — reopen the widget"@;
    assert(tail =~= seq![' '] + tail.skip(1));
    assert(gone(s).skip(7) =~= d + seq![' '] + tail.skip(1));
    text::law_number_before(s as int, ' ', tail.skip(1));
}

/// The countdown takes three seconds, and a title in the list 48 characters.
pub proof fn law_widget_numbers(t: Seq<char>)
    ensures
        COUNTDOWN_SECS == 3,
        t.len() > TITLE_CHARS <==> t.len() >= 49,
{
}

/// While a recording ends the widget says so.
pub proof fn law_finalizing_text()
    ensures
        FINALIZING@ == "finalizing…"@,
{
}

/// What is said where the widget does not start a recording.
pub proof fn law_start_refusal_texts(w: WidgetApp, os: Os, feed: Option<(u32, u32)>, s: u32)
    ensures
        os != Os::Windows && (w.cursor_highlight || w.cursor_ripple) ==> w.start_refusal(os, feed)
            == Some("cursor fx is Windows-only in this release"@),
        os == Os::Windows && w.draw_live && w.target == TargetSel::Screen(s) && s >= w.screens@.len()
            ==> w.start_refusal(os, feed) == Some(gone(s)),
{
}

/// A clock that lies before the recording shows no content.
pub proof fn law_no_content_before_the_start(r: ActiveRec, now_ns: u64)
    requires
        now_ns <= r.started_ns,
    ensures
        r.content_ns(now_ns) == 0,
{
}

} // verus!
