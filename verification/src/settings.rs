//! What the widget remembers across launches.

use crate::advanced::AdvCfg;
use crate::audio::{DB_MAX_BITS, DB_MIN_BITS};
use crate::audio;
use crate::single::{F32, ZERO_BITS};
use crate::text;
use crate::text::{decimal_text, join2, push_text};
use crate::types::{Os, Rect};
use vstd::prelude::*;

verus! {

/// The version of the settings file.
pub const SETTINGS_VERSION: u32 = 1;

/// What the widget records.
#[derive(Debug, Clone, PartialEq, Eq)]
pub enum TargetSel {
    Screen(u32),
    /// A window by a part of its title.
    Window(String),
    Region { screen: u32, rect: Rect },
}

impl TargetSel {
    /// The same target.
    pub fn copy(&self) -> (r: Self)
        ensures
            r == *self,
    {
        match self {
            TargetSel::Screen(s) => TargetSel::Screen(*s),
            TargetSel::Window(t) => TargetSel::Window(t.clone()),
            TargetSel::Region { screen, rect } => {
                TargetSel::Region { screen: *screen, rect: *rect }
            },
        }
    }
}

/// Everything that the widget restores. Gains are in decibels, so that the file
/// can be edited by hand; an empty folder is the current one.
#[derive(Debug, Clone, PartialEq, Eq)]
pub struct PersistedSettings {
    pub version: u32,
    pub target: Option<TargetSel>,
    pub region_screen: u32,
    pub window_text: String,
    pub mic_name: Option<String>,
    pub audio_on: bool,
    pub sys_gain_db: F32,
    pub sys_muted: bool,
    pub mic_gain_db: F32,
    pub mic_muted: bool,
    pub adv: Option<AdvCfg>,
    pub draw_live: bool,
    pub cursor_highlight: bool,
    pub cursor_ripple: bool,
    pub output_dir: String,
    pub countdown_enabled: bool,
}

impl Default for PersistedSettings {
    fn default() -> (r: Self)
        ensures
            r.version == SETTINGS_VERSION,
            r.target is None,
            r.region_screen == 0,
            r.window_text@.len() == 0,
            r.mic_name is None,
            r.audio_on,
            r.sys_gain_db.bits == ZERO_BITS,
            !r.sys_muted,
            r.mic_gain_db.bits == ZERO_BITS,
            !r.mic_muted,
            r.adv is None,
            !r.draw_live,
            !r.cursor_highlight,
            !r.cursor_ripple,
            r.output_dir@.len() == 0,
            !r.countdown_enabled,
    {
        Self {
            version: SETTINGS_VERSION,
            target: None,
            region_screen: 0,
            window_text: String::new(),
            mic_name: None,
            audio_on: true,
            sys_gain_db: F32 { bits: ZERO_BITS },
            sys_muted: false,
            mic_gain_db: F32 { bits: ZERO_BITS },
            mic_muted: false,
            adv: None,
            draw_live: false,
            cursor_highlight: false,
            cursor_ripple: false,
            output_dir: String::new(),
            countdown_enabled: false,
        }
    }
}

/// A gain limited to what the sliders offer.
pub open spec fn db_clamped(db: F32) -> F32 {
    db.clamped(F32 { bits: DB_MIN_BITS }, F32 { bits: DB_MAX_BITS })
}

/// Limits a gain to what the sliders offer, -60 to 12 decibels.
pub fn clamp_db(db: F32) -> (r: F32)
    ensures
        r == db_clamped(db),
{
    db.clamp_to(F32 { bits: DB_MIN_BITS }, F32 { bits: DB_MAX_BITS })
}

/// A limited gain is one that the mixer offers, unless it is no number, and
/// limiting it again changes nothing.
pub proof fn law_clamped_gain(db: F32)
    ensures
        !db.nan() ==> audio::db_ok(db_clamped(db)),
        audio::db_ok(db) ==> db_clamped(db) == db,
        db_clamped(db_clamped(db)) == db_clamped(db),
{
}

/// Takes over settings that were read from a file: gains are limited, everything
/// else stays. A file of a later version comes with a remark.
pub fn take_over(s: PersistedSettings) -> (r: (PersistedSettings, Option<String>))
    ensures
        r.0 == (PersistedSettings {
            sys_gain_db: db_clamped(s.sys_gain_db),
            mic_gain_db: db_clamped(s.mic_gain_db),
            ..s
        }),
        match r.1 {
            Some(m) => s.version > SETTINGS_VERSION && m@ == "settings v"@ + text::decimal(
                s.version as nat,
            ) + " newer than supported v1 — using what fits"@,
            None => s.version <= SETTINGS_VERSION,
        },
{
    let note = if s.version > SETTINGS_VERSION {
        let mut m = join2("settings v", decimal_text(s.version as u64).as_str());
        m.append(" newer than supported v1 — using what fits");
        Some(m)
    } else {
        None
    };
    let mut kept = s;
    kept.sys_gain_db = clamp_db(kept.sys_gain_db);
    kept.mic_gain_db = clamp_db(kept.mic_gain_db);
    (kept, note)
}

/// The parts of the path of the settings file, from the folder down.
pub open spec fn settings_parts(
    os: Os,
    appdata: Option<Seq<char>>,
    home: Option<Seq<char>>,
    temp: Seq<char>,
) -> Seq<Seq<char>> {
    if os == Os::Windows {
        match appdata {
            Some(a) => seq![a, "QCapture"@, "settings.json"@],
            None => seq![temp, "qcapture-settings.json"@],
        }
    } else {
        match home {
            Some(h) => seq![h, ".config"@, "qcapture"@, "settings.json"@],
            None => seq![temp, "qcapture-settings.json"@],
        }
    }
}

/// The contents of a text that may be missing.
pub open spec fn seen(t: Option<&str>) -> Option<Seq<char>> {
    match t {
        Some(s) => Some(s@),
        None => None,
    }
}

/// The parts of the path of the settings file. `appdata`, `home` and `temp` are
/// the system's folders.
pub fn settings_path(os: Os, appdata: Option<&str>, home: Option<&str>, temp: &str) -> (r: Vec<
    String,
>)
    ensures
        text::texts(r@) == settings_parts(os, seen(appdata), seen(home), temp@),
{
    let mut parts: Vec<String> = Vec::new();
    assert(text::texts(parts@) =~= seq![]);
    if os == Os::Windows {
        if let Some(a) = appdata {
            push_text(&mut parts, a);
            push_text(&mut parts, "QCapture");
            push_text(&mut parts, "settings.json");
            assert(text::texts(parts@) =~= seq![a@, "QCapture"@, "settings.json"@]);
            return parts;
        }
    } else {
        if let Some(h) = home {
            push_text(&mut parts, h);
            push_text(&mut parts, ".config");
            push_text(&mut parts, "qcapture");
            push_text(&mut parts, "settings.json");
            assert(text::texts(parts@) =~= seq![
                h@,
                ".config"@,
                "qcapture"@,
                "settings.json"@,
            ]);
            return parts;
        }
    }
    push_text(&mut parts, temp);
    push_text(&mut parts, "qcapture-settings.json");
    assert(text::texts(parts@) =~= seq![temp@, "qcapture-settings.json"@]);
    parts
}

/// The parts of the path of the folder that holds the widget's logs.
pub fn log_folder(os: Os, appdata: Option<&str>, home: Option<&str>, temp: &str) -> (r: Vec<String>)
    ensures
        text::texts(r@) == (if os == Os::Windows {
            seq![
                match appdata {
                    Some(a) => a@,
                    None => temp@,
                },
                "QCapture"@,
                "logs"@,
            ]
        } else {
            seq![
                match home {
                    Some(h) => h@,
                    None => temp@,
                },
                ".config"@,
                "qcapture"@,
                "logs"@,
            ]
        }),
{
    let mut parts: Vec<String> = Vec::new();
    assert(text::texts(parts@) =~= seq![]);
    if os == Os::Windows {
        let base = match appdata {
            Some(a) => a,
            None => temp,
        };
        push_text(&mut parts, base);
        push_text(&mut parts, "QCapture");
        push_text(&mut parts, "logs");
        assert(text::texts(parts@) =~= seq![base@, "QCapture"@, "logs"@]);
        parts
    } else {
        let base = match home {
            Some(h) => h,
            None => temp,
        };
        push_text(&mut parts, base);
        push_text(&mut parts, ".config");
        push_text(&mut parts, "qcapture");
        push_text(&mut parts, "logs");
        assert(text::texts(parts@) =~= seq![base@, ".config"@, "qcapture"@, "logs"@]);
        parts
    }
}

// ---------------------------------------------------------------------------
// What holds on every input
// ---------------------------------------------------------------------------

/// Gains are limited to -60 to 12 decibels.
pub proof fn law_gain_limits(db: F32)
    ensures
        db.bits <= 0x4140_0000 ==> db_clamped(db) == db,
        0x4140_0000 < db.bits <= 0x7f80_0000 ==> db_clamped(db).bits == 0x4140_0000,
        0x8000_0000 <= db.bits <= 0xc270_0000 ==> db_clamped(db) == db,
        0xc270_0000 < db.bits <= 0xff80_0000 ==> db_clamped(db).bits == 0xc270_0000,
{
}

/// The settings lie in the user's own folder, in one of the program, and in the
/// folder for temporary files where there is none.
pub proof fn law_place_of_the_settings(os: Os, folder: Seq<char>, temp: Seq<char>, other: Option<Seq<char>>)
    ensures
        settings_parts(Os::Windows, Some(folder), other, temp) == seq![
            folder,
            "QCapture"@,
            "settings.json"@,
        ],
        settings_parts(Os::Windows, None, other, temp) == seq![temp, "qcapture-settings.json"@],
        os != Os::Windows ==> settings_parts(os, other, Some(folder), temp) == seq![
            folder,
            ".config"@,
            "qcapture"@,
            "settings.json"@,
        ],
        os != Os::Windows ==> settings_parts(os, other, None, temp) == seq![
            temp,
            "qcapture-settings.json"@,
        ],
{
}

/// The version of the settings.
pub proof fn law_settings_version(v: u32)
    ensures
        v > SETTINGS_VERSION <==> v >= 2,
{
}

} // verus!
