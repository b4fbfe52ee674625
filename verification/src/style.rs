//! Cursor colours and the cursor style, as the command line gives them.

use crate::single::F32;
use crate::text;
use crate::text::{from_chars, join3, same, to_chars, to_lower, trim};
use crate::types::{CursorStyle, HL_RADIUS_BITS, RIPPLE_RADIUS_BITS};
use vstd::prelude::*;

verus! {

/// The colour that a lower-case name stands for, opaque.
pub open spec fn color_named(name: Seq<char>) -> Option<Seq<u8>> {
    if name == "red"@ {
        Some(seq![255u8, 0u8, 0u8, 255u8])
    } else if name == "green"@ {
        Some(seq![0u8, 255u8, 0u8, 255u8])
    } else if name == "blue"@ {
        Some(seq![0u8, 120u8, 255u8, 255u8])
    } else if name == "yellow"@ {
        Some(seq![255u8, 210u8, 0u8, 255u8])
    } else if name == "white"@ {
        Some(seq![255u8, 255u8, 255u8, 255u8])
    } else if name == "black"@ {
        Some(seq![0u8, 0u8, 0u8, 255u8])
    } else if name == "orange"@ {
        Some(seq![255u8, 140u8, 0u8, 255u8])
    } else if name == "cyan"@ {
        Some(seq![0u8, 220u8, 220u8, 255u8])
    } else if name == "magenta"@ {
        Some(seq![255u8, 0u8, 255u8, 255u8])
    } else {
        None
    }
}

/// The value of a hexadecimal digit, of either letter case.
pub open spec fn hex_value(c: char) -> Option<int> {
    let n = c as u32;
    if 48 <= n <= 57 {
        Some(n - 48)
    } else if 97 <= n <= 102 {
        Some(n - 87)
    } else if 65 <= n <= 70 {
        Some(n - 55)
    } else {
        None
    }
}

/// Hexadecimal digits only.
pub open spec fn all_hex(s: Seq<char>) -> bool {
    forall|i: int| 0 <= i < s.len() ==> hex_value(#[trigger] s[i]) is Some
}

/// The byte that the two digits from index `i` on write.
pub open spec fn hex_byte(s: Seq<char>, i: int) -> u8 {
    (hex_value(s[i])->0 * 16 + hex_value(s[i + 1])->0) as u8
}

/// The text behind a leading number sign.
pub open spec fn hex_part(s: Seq<char>) -> Seq<char> {
    if s.len() > 0 && s[0] == '#' {
        s.skip(1)
    } else {
        s
    }
}

/// The colour that a text in lower case and without blanks around it gives:
/// a name, six digits `rrggbb` (opaque) or eight digits `rrggbbaa`.
pub open spec fn color_in(lower: Seq<char>) -> Option<Seq<u8>> {
    let hex = hex_part(lower);
    match color_named(lower) {
        Some(c) => Some(c),
        None => if !all_hex(hex) {
            None
        } else if hex.len() == 6 {
            Some(seq![hex_byte(hex, 0), hex_byte(hex, 2), hex_byte(hex, 4), 255u8])
        } else if hex.len() == 8 {
            Some(seq![hex_byte(hex, 0), hex_byte(hex, 2), hex_byte(hex, 4), hex_byte(hex, 6)])
        } else {
            None
        },
    }
}

/// What is said of a text that gives no colour.
pub open spec fn bad_color(typed: Seq<char>) -> Seq<char> {
    "bad color '"@ + typed
        + "' (want a name, 6-digit hex like ff0000, or 8-digit hex like ff000080)"@
}

fn nibble(c: char) -> (r: Option<u8>)
    ensures
        match r {
            Some(n) => hex_value(c) == Some(n as int) && n < 16,
            None => hex_value(c) is None,
        },
{
    let n: u32 = c as u32;
    if 48 <= n && n <= 57 {
        Some((n - 48) as u8)
    } else if 97 <= n && n <= 102 {
        Some((n - 87) as u8)
    } else if 65 <= n && n <= 70 {
        Some((n - 55) as u8)
    } else {
        None
    }
}

fn named(name: &str) -> (r: Option<[u8; 4]>)
    ensures
        match r {
            Some(c) => color_named(name@) == Some(c@),
            None => color_named(name@) is None,
        },
{
    if same(name, "red") {
        Some([255, 0, 0, 255])
    } else if same(name, "green") {
        Some([0, 255, 0, 255])
    } else if same(name, "blue") {
        Some([0, 120, 255, 255])
    } else if same(name, "yellow") {
        Some([255, 210, 0, 255])
    } else if same(name, "white") {
        Some([255, 255, 255, 255])
    } else if same(name, "black") {
        Some([0, 0, 0, 255])
    } else if same(name, "orange") {
        Some([255, 140, 0, 255])
    } else if same(name, "cyan") {
        Some([0, 220, 220, 255])
    } else if same(name, "magenta") {
        Some([255, 0, 255, 255])
    } else {
        None
    }
}

/// The values of the digits of `v` from `from` on.
fn nibbles(v: &[char], from: usize) -> (r: Option<Vec<u8>>)
    requires
        from <= v@.len(),
    ensures
        match r {
            Some(d) => d@.len() == v@.len() - from && all_hex(v@.skip(from as int)) && forall|
                i: int,
            |
                0 <= i < d@.len() ==> #[trigger] d@[i] < 16 && hex_value(
                    v@.skip(from as int)[i],
                ) == Some(d@[i] as int),
            None => !all_hex(v@.skip(from as int)),
        },
{
    let ghost s = v@.skip(from as int);
    let mut d: Vec<u8> = Vec::new();
    let mut i: usize = from;
    while i < v.len()
        invariant
            from <= i <= v@.len(),
            s == v@.skip(from as int),
            d@.len() == i - from,
            forall|k: int|
                0 <= k < d@.len() ==> #[trigger] d@[k] < 16 && hex_value(s[k]) == Some(d@[k] as int),
        decreases v@.len() - i,
    {
        assert(s[i - from] == v@[i as int]);
        match nibble(v[i]) {
            Some(n) => {
                d.push(n);
            },
            None => {
                return None;
            },
        }
        i += 1;
    }
    assert forall|k: int| 0 <= k < s.len() implies hex_value(#[trigger] s[k]) is Some by {
        assert(d@[k] < 16);
    }
    Some(d)
}

/// The colour that a text in lower case and without blanks around it gives.
pub fn color_of_lower(lower: &str) -> (r: Option<[u8; 4]>)
    ensures
        match r {
            Some(c) => color_in(lower@) == Some(c@),
            None => color_in(lower@) is None,
        },
{
    if let Some(c) = named(lower) {
        return Some(c);
    }
    let v = to_chars(lower);
    let from: usize = if v.len() > 0 && v[0] == '#' {
        1
    } else {
        0
    };
    assert(v@.skip(from as int) == hex_part(lower@));
    match nibbles(v.as_slice(), from) {
        Some(d) => {
            if d.len() == 6 {
                Some([d[0] * 16 + d[1], d[2] * 16 + d[3], d[4] * 16 + d[5], 255])
            } else if d.len() == 8 {
                Some(
                    [
                        d[0] * 16 + d[1],
                        d[2] * 16 + d[3],
                        d[4] * 16 + d[5],
                        d[6] * 16 + d[7],
                    ],
                )
            } else {
                None
            }
        },
        None => None,
    }
}

/// Reads a cursor colour: one of nine names or hexadecimal digits, in any letter
/// case and with blanks around it. A typo is an error.
pub fn parse_cursor_color(s: &str) -> (r: Result<[u8; 4], String>)
    ensures
        match color_in(text::lowercase(text::trimmed(s@))) {
            Some(c) => r matches Ok(a) && a@ == c,
            None => r matches Err(m) && m@ == bad_color(s@),
        },
        text::ascii_only(s@) ==> match color_in(
            text::trimmed(s@).map_values(|c: char| text::ascii_lower(c)),
        ) {
            Some(c) => r matches Ok(a) && a@ == c,
            None => r matches Err(m) && m@ == bad_color(s@),
        },
{
    let trimmed = from_chars(trim(to_chars(s).as_slice()).as_slice());
    let lower = to_lower(trimmed.as_str());
    proof {
        text::lemma_trimmed_part(s@);
    }
    match color_of_lower(lower.as_str()) {
        Some(c) => Ok(c),
        None => Err(
            join3(
                "bad color '",
                s,
                "' (want a name, 6-digit hex like ff0000, or 8-digit hex like ff000080)",
            ),
        ),
    }
}

/// The bits of 6, 40, 12 and 120: the limits of the two radii.
pub const HL_RADIUS_MIN_BITS: u32 = 0x40c0_0000;

pub const HL_RADIUS_MAX_BITS: u32 = 0x4220_0000;

pub const RIPPLE_RADIUS_MIN_BITS: u32 = 0x4140_0000;

pub const RIPPLE_RADIUS_MAX_BITS: u32 = 0x42f0_0000;

/// The shortest and the longest life of a ripple, in milliseconds.
pub const RIPPLE_MS_MIN: u32 = 100;

pub const RIPPLE_MS_MAX: u32 = 3000;

/// May the highlight ring have this radius?
pub open spec fn hl_radius_ok(r: F32) -> bool {
    F32 { bits: HL_RADIUS_MIN_BITS }.at_most(r) && r.at_most(F32 { bits: HL_RADIUS_MAX_BITS })
}

/// May the ripple grow to this radius?
pub open spec fn ripple_radius_ok(r: F32) -> bool {
    F32 { bits: RIPPLE_RADIUS_MIN_BITS }.at_most(r) && r.at_most(
        F32 { bits: RIPPLE_RADIUS_MAX_BITS },
    )
}

/// The colour that a flag gives, where it was given.
pub open spec fn flag_color(flag: Option<String>) -> Option<Option<Seq<u8>>> {
    match flag {
        Some(s) => Some(color_in(text::lowercase(text::trimmed(s@)))),
        None => None,
    }
}

/// The flags that style the cursor effects.
#[derive(Debug, Clone, PartialEq, Eq)]
pub struct StyleArgs {
    pub cursor_color: Option<String>,
    pub cursor_size: Option<F32>,
    pub ripple_color: Option<String>,
    pub ripple_size: Option<F32>,
    pub ripple_ms: Option<u32>,
    pub cursor_additive: bool,
}

impl StyleArgs {
    /// What is wrong with the flags: the first of them that is out of order.
    pub open spec fn fault(self) -> Option<Seq<char>> {
        if flag_color(self.cursor_color) == Some(None::<Seq<u8>>) {
            Some(bad_color(self.cursor_color->0@))
        } else if self.cursor_size is Some && !hl_radius_ok(self.cursor_size->0) {
            Some("--cursor-size must be 6..40 feed pixels"@)
        } else if flag_color(self.ripple_color) == Some(None::<Seq<u8>>) {
            Some(bad_color(self.ripple_color->0@))
        } else if self.ripple_size is Some && !ripple_radius_ok(self.ripple_size->0) {
            Some("--ripple-size must be 12..120 feed pixels"@)
        } else if self.ripple_ms is Some && !(RIPPLE_MS_MIN <= self.ripple_ms->0
            <= RIPPLE_MS_MAX) {
            Some("--ripple-ms must be 100..3000"@)
        } else {
            None
        }
    }

    /// Is this the style that flags in order ask for? What no flag gives is as in
    /// the standard style.
    pub open spec fn gives(self, style: CursorStyle) -> bool {
        &&& style.hl_rgba@ == (match flag_color(self.cursor_color) {
            Some(Some(c)) => c,
            _ => seq![255u8, 210u8, 0u8, 255u8],
        })
        &&& style.hl_radius == (match self.cursor_size {
            Some(s) => s,
            None => F32 { bits: HL_RADIUS_BITS },
        })
        &&& style.ripple_rgba@ == (match flag_color(self.ripple_color) {
            Some(Some(c)) => c,
            _ => seq![255u8, 255u8, 255u8, 255u8],
        })
        &&& style.ripple_radius == (match self.ripple_size {
            Some(s) => s,
            None => F32 { bits: RIPPLE_RADIUS_BITS },
        })
        &&& style.ripple_ms == (match self.ripple_ms {
            Some(ms) => ms,
            None => 600,
        })
        &&& style.additive == self.cursor_additive
    }
}

/// Builds the cursor style from the flags. Values out of range are errors.
pub fn cursor_style_from_args(args: &StyleArgs) -> (r: Result<CursorStyle, String>)
    ensures
        match args.fault() {
            Some(m) => r matches Err(e) && e@ == m,
            None => r matches Ok(style) && args.gives(style),
        },
{
    let mut style = CursorStyle::default();
    if let Some(c) = &args.cursor_color {
        style.hl_rgba = match parse_cursor_color(c.as_str()) {
            Ok(rgba) => rgba,
            Err(m) => {
                return Err(m);
            },
        };
    }
    if let Some(s) = args.cursor_size {
        if !s.within(F32 { bits: HL_RADIUS_MIN_BITS }, F32 { bits: HL_RADIUS_MAX_BITS }) {
            return Err("--cursor-size must be 6..40 feed pixels".to_owned());
        }
        style.hl_radius = s;
    }
    if let Some(c) = &args.ripple_color {
        style.ripple_rgba = match parse_cursor_color(c.as_str()) {
            Ok(rgba) => rgba,
            Err(m) => {
                return Err(m);
            },
        };
    }
    if let Some(s) = args.ripple_size {
        if !s.within(F32 { bits: RIPPLE_RADIUS_MIN_BITS }, F32 { bits: RIPPLE_RADIUS_MAX_BITS }) {
            return Err("--ripple-size must be 12..120 feed pixels".to_owned());
        }
        style.ripple_radius = s;
    }
    if let Some(ms) = args.ripple_ms {
        if ms < RIPPLE_MS_MIN || ms > RIPPLE_MS_MAX {
            return Err("--ripple-ms must be 100..3000".to_owned());
        }
        style.ripple_ms = ms;
    }
    style.additive = args.cursor_additive;
    Ok(style)
}

/// A colour written as eight hexadecimal digits, with or without the number sign,
/// stands for its four bytes; six digits leave it opaque.
pub proof fn law_hex_colors(hex: Seq<char>)
    requires
        all_hex(hex),
        hex.len() == 6 || hex.len() == 8,
    ensures
        color_in(hex) == Some(
            seq![
                hex_byte(hex, 0),
                hex_byte(hex, 2),
                hex_byte(hex, 4),
                if hex.len() == 8 {
                    hex_byte(hex, 6)
                } else {
                    255u8
                },
            ],
        ),
        color_in(seq!['#'] + hex) == color_in(hex),
{
    reveal_strlit("red");
    reveal_strlit("green");
    reveal_strlit("blue");
    reveal_strlit("yellow");
    reveal_strlit("white");
    reveal_strlit("black");
    reveal_strlit("orange");
    reveal_strlit("cyan");
    reveal_strlit("magenta");
    let marked = seq!['#'] + hex;
    assert(marked.skip(1) == hex);
    assert(marked[0] == '#');
    assert(hex_value(hex[0]) is Some);
    assert(color_named(hex) is None);
    assert("magenta"@[0] != '#');
    assert(color_named(marked) is None);
}

// ---------------------------------------------------------------------------
// What holds on every input
// ---------------------------------------------------------------------------

/// The colours by name, all of them opaque.
pub proof fn law_colours_by_name(name: Seq<char>)
    ensures
        color_named(name) matches Some(c) ==> c.len() == 4 && c[3] == 255,
        color_named("red"@) == Some(seq![255u8, 0u8, 0u8, 255u8]),
        color_named("green"@) == Some(seq![0u8, 255u8, 0u8, 255u8]),
        color_named("blue"@) == Some(seq![0u8, 120u8, 255u8, 255u8]),
        color_named("yellow"@) == Some(seq![255u8, 210u8, 0u8, 255u8]),
        color_named("white"@) == Some(seq![255u8, 255u8, 255u8, 255u8]),
        color_named("black"@) == Some(seq![0u8, 0u8, 0u8, 255u8]),
        color_named("orange"@) == Some(seq![255u8, 140u8, 0u8, 255u8]),
        color_named("cyan"@) == Some(seq![0u8, 220u8, 220u8, 255u8]),
        color_named("magenta"@) == Some(seq![255u8, 0u8, 255u8, 255u8]),
        color_named(name) matches Some(c) ==> color_in(name) == Some(c),
{
    reveal_strlit("red");
    reveal_strlit("green");
    reveal_strlit("blue");
    reveal_strlit("yellow");
    reveal_strlit("white");
    reveal_strlit("black");
    reveal_strlit("orange");
    reveal_strlit("cyan");
    reveal_strlit("magenta");
    assert("red"@.len() == 3 && "green"@.len() == 5 && "blue"@.len() == 4 && "yellow"@.len() == 6
        && "white"@.len() == 5 && "black"@.len() == 5 && "orange"@.len() == 6 && "cyan"@.len() == 4
        && "magenta"@.len() == 7);
    assert("green"@[0] == 'g' && "white"@[0] == 'w' && "black"@[0] == 'b');
    assert("blue"@[0] == 'b' && "cyan"@[0] == 'c');
    assert("yellow"@[0] == 'y' && "orange"@[0] == 'o');
}

/// A hexadecimal digit is worth its place in 0 to 9 and a to f, in either case; a
/// byte is sixteen times its first digit and its second.
pub proof fn law_hex_digits(c: char, s: Seq<char>, i: int)
    requires
        all_hex(s),
        0 <= i < s.len() - 1,
    ensures
        '0' <= c <= '9' ==> hex_value(c) == Some(c as u32 - '0' as u32),
        'a' <= c <= 'f' ==> hex_value(c) == Some(c as u32 - 'a' as u32 + 10),
        'A' <= c <= 'F' ==> hex_value(c) == Some(c as u32 - 'A' as u32 + 10),
        hex_value(c) is Some ==> '0' <= c <= '9' || 'a' <= c <= 'f' || 'A' <= c <= 'F',
        hex_byte(s, i) == 16 * hex_value(s[i])->0 + hex_value(s[i + 1])->0,
{
    assert(hex_value(s[i]) is Some);
    assert(hex_value(s[i + 1]) is Some);
}

/// A text that is neither a name nor six or eight hexadecimal digits is no colour.
pub proof fn law_no_other_colours(lower: Seq<char>, i: int)
    requires
        color_named(lower) is None,
    ensures
        hex_part(lower).len() != 6 && hex_part(lower).len() != 8 ==> color_in(lower) is None,
        0 <= i < hex_part(lower).len() && hex_value(hex_part(lower)[i]) is None ==> color_in(lower)
            is None,
        lower.len() > 0 && lower[0] != '#' ==> hex_part(lower) == lower,
{
}

/// The sizes that the marks may have: 6 to 40 pixels for the highlight and 12 to 120
/// for a ripple.
pub proof fn law_mark_sizes(r: F32)
    ensures
        hl_radius_ok(r) <==> 0x40c0_0000 <= r.bits <= 0x4220_0000,
        ripple_radius_ok(r) <==> 0x4140_0000 <= r.bits <= 0x42f0_0000,
{
}

/// Flags are refused just where a colour is no colour or a number is out of its range.
pub proof fn law_style_flags_refused(a: StyleArgs)
    ensures
        a.fault() is None <==> {
            &&& a.cursor_color matches Some(s) ==> color_in(text::lowercase(text::trimmed(s@)))
                is Some
            &&& a.ripple_color matches Some(s) ==> color_in(text::lowercase(text::trimmed(s@)))
                is Some
            &&& a.cursor_size matches Some(r) ==> 0x40c0_0000 <= r.bits <= 0x4220_0000
            &&& a.ripple_size matches Some(r) ==> 0x4140_0000 <= r.bits <= 0x42f0_0000
            &&& a.ripple_ms matches Some(ms) ==> 100 <= ms <= 3000
        },
{
}

/// Each flag sets its own part of the style, and a part without a flag is as usual.
pub proof fn law_style_flags_taken(a: StyleArgs, style: CursorStyle)
    requires
        a.fault() is None,
        a.gives(style),
    ensures
        a.cursor_color matches Some(s) ==> color_in(text::lowercase(text::trimmed(s@))) == Some(
            style.hl_rgba@,
        ),
        a.ripple_color matches Some(s) ==> color_in(text::lowercase(text::trimmed(s@))) == Some(
            style.ripple_rgba@,
        ),
        a.cursor_size matches Some(r) ==> style.hl_radius == r,
        a.ripple_size matches Some(r) ==> style.ripple_radius == r,
        a.ripple_ms matches Some(ms) ==> style.ripple_ms == ms,
        style.additive == a.cursor_additive,
        a.cursor_color is None ==> style.hl_rgba@ == seq![255u8, 210u8, 0u8, 255u8],
        a.ripple_color is None ==> style.ripple_rgba@ == seq![255u8, 255u8, 255u8, 255u8],
        a.cursor_size is None ==> style.hl_radius.bits == 0x4160_0000,
        a.ripple_size is None ==> style.ripple_radius.bits == 0x4228_0000,
        a.ripple_ms is None ==> style.ripple_ms == 600,
{
}

/// What is said of a flag that is refused names the flag and its range, or the colour
/// as it was typed.
pub proof fn law_style_refusals(a: StyleArgs)
    ensures
        ({
            let hl = flag_color(a.cursor_color) != Some(None::<Seq<u8>>);
            let hl_size = a.cursor_size is None || hl_radius_ok(a.cursor_size->0);
            let ring = flag_color(a.ripple_color) != Some(None::<Seq<u8>>);
            let ring_size = a.ripple_size is None || ripple_radius_ok(a.ripple_size->0);
            &&& !hl ==> a.fault() == Some(bad_color(a.cursor_color->0@))
            &&& hl && !hl_size ==> a.fault() == Some("--cursor-size must be 6..40 feed pixels"@)
            &&& hl && hl_size && !ring ==> a.fault() == Some(bad_color(a.ripple_color->0@))
            &&& hl && hl_size && ring && !ring_size ==> a.fault() == Some(
                "--ripple-size must be 12..120 feed pixels"@,
            )
            &&& hl && hl_size && ring && ring_size && a.fault() is Some ==> a.fault() == Some(
                "--ripple-ms must be 100..3000"@,
            )
        }),
{
}

/// A text that is no colour is shown between quotes, with what is wanted.
pub proof fn law_bad_colour_text(typed: Seq<char>)
    ensures
        bad_color(typed) == "bad color '"@ + typed
            + "' (want a name, 6-digit hex like ff0000, or 8-digit hex like ff000080)"@,
{
}

} // verus!
