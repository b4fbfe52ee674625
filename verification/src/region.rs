//! Regions as text: `x,y,w,h` in physical pixels, relative to the monitor.

use crate::text;
use crate::text::{
    decimal_int_text, decimal_text, join3, parse_i32, parse_u32, split, to_chars, trim,
};
use crate::types::{CoreError, Rect};
use vstd::prelude::*;

verus! {

/// How many digits the text starts with.
pub open spec fn digit_run(s: Seq<char>) -> nat
    decreases s.len(),
{
    if s.len() == 0 || !text::is_digit(s[0]) {
        0
    } else {
        1 + digit_run(s.skip(1))
    }
}

/// Why the text is no number from `lo` to `hi`; `None` where it is one. A minus
/// sign counts as a sign only where negative numbers are wanted. A number that
/// leaves the range before an odd character comes is out of range.
pub open spec fn number_fault(s: Seq<char>, signed: bool, lo: int, hi: int) -> Option<Seq<char>> {
    if s.len() == 0 {
        Some("cannot parse integer from empty string"@)
    } else {
        let minus = signed && s[0] == '-';
        let body = if minus || s[0] == '+' {
            s.skip(1)
        } else {
            s
        };
        let head = text::digits_value(body.take(digit_run(body) as int));
        if minus && -head < lo {
            Some("number too small to fit in target type"@)
        } else if !minus && head > hi {
            Some("number too large to fit in target type"@)
        } else if body.len() == 0 || digit_run(body) < body.len() {
            Some("invalid digit found in string"@)
        } else {
            None
        }
    }
}

proof fn lemma_digit_run(s: Seq<char>)
    ensures
        digit_run(s) <= s.len(),
        forall|i: int| 0 <= i < digit_run(s) ==> text::is_digit(#[trigger] s[i]),
        digit_run(s) < s.len() ==> !text::is_digit(s[digit_run(s) as int]),
    decreases s.len(),
{
    if s.len() > 0 && text::is_digit(s[0]) {
        lemma_digit_run(s.skip(1));
        assert forall|i: int| 0 <= i < digit_run(s) implies text::is_digit(#[trigger] s[i]) by {
            if i > 0 {
                assert(s.skip(1)[i - 1] == s[i]);
            }
        }
        if digit_run(s) < s.len() {
            assert(s.skip(1)[digit_run(s.skip(1)) as int] == s[digit_run(s) as int]);
        }
    }
}

proof fn lemma_run_of(s: Seq<char>, n: int)
    requires
        0 <= n <= s.len(),
        forall|i: int| 0 <= i < n ==> text::is_digit(#[trigger] s[i]),
        n < s.len() ==> !text::is_digit(s[n]),
    ensures
        digit_run(s) == n,
{
    lemma_digit_run(s);
}

/// Reads the digits of `v` from `from` on, up to the first other character: their
/// value, where it fits.
fn read_run(v: &[char], from: usize) -> (r: Option<u64>)
    requires
        from <= v@.len(),
    ensures
        ({
            let value = text::digits_value(
                v@.skip(from as int).take(digit_run(v@.skip(from as int)) as int),
            );
            r == (if value <= u64::MAX {
                Some(value as u64)
            } else {
                None
            })
        }),
{
    let ghost s = v@.skip(from as int);
    let mut value: u64 = 0;
    let mut fits = true;
    let mut i: usize = from;
    while i < v.len() && 48 <= v[i] as u32 && v[i] as u32 <= 57
        invariant
            from <= i <= v@.len(),
            s == v@.skip(from as int),
            forall|k: int| 0 <= k < i - from ==> text::is_digit(#[trigger] s[k]),
            fits ==> value == text::digits_value(s.take(i - from)),
            !fits ==> text::digits_value(s.take(i - from)) > u64::MAX,
        decreases v@.len() - i,
    {
        let c = v[i];
        assert(s[i - from] == c);
        assert(s.take(i - from + 1).drop_last() == s.take(i - from));
        assert(s.take(i - from + 1).last() == c);
        assert(text::digits_value(s.take(i - from + 1)) == text::digits_value(s.take(i - from)) * 10
            + text::digit_value(c));
        let d: u64 = (c as u32 - 48) as u64;
        if fits {
            match value.checked_mul(10) {
                Some(tens) => {
                    match tens.checked_add(d) {
                        Some(next) => {
                            value = next;
                        },
                        None => {
                            fits = false;
                        },
                    }
                },
                None => {
                    fits = false;
                },
            }
        }
        i += 1;
    }
    proof {
        if i < v@.len() {
            assert(s[i - from] == v@[i as int]);
        }
        lemma_run_of(s, i - from);
    }
    if fits {
        Some(value)
    } else {
        None
    }
}

/// Says why the text is no number from `-below` to `hi`.
fn fault_of(v: &[char], signed: bool, below: u64, hi: u64) -> (r: &'static str)
    requires
        number_fault(v@, signed, -(below as int), hi as int) is Some,
    ensures
        number_fault(v@, signed, -(below as int), hi as int) == Some(r@),
{
    if v.len() == 0 {
        return "cannot parse integer from empty string";
    }
    let minus = signed && v[0] == '-';
    let from: usize = if minus || v[0] == '+' {
        1
    } else {
        0
    };
    assert(from == 0 ==> v@.skip(0) == v@);
    let value = read_run(v, from);
    let limit: u64 = if minus {
        below
    } else {
        hi
    };
    let too_far = match value {
        Some(n) => n > limit,
        None => true,
    };
    if too_far {
        if minus {
            "number too small to fit in target type"
        } else {
            "number too large to fit in target type"
        }
    } else {
        "invalid digit found in string"
    }
}

/// A text has no fault as an `i32` just where it is one.
proof fn lemma_i32_fault(s: Seq<char>)
    ensures
        number_fault(s, true, i32::MIN as int, i32::MAX as int) is None <==> text::i32_in(
            s,
        ) is Some,
{
    if s.len() > 0 {
        let body = if s[0] == '-' || s[0] == '+' {
            s.skip(1)
        } else {
            s
        };
        lemma_digit_run(body);
        if digit_run(body) == body.len() {
            assert(body.take(body.len() as int) == body);
        }
        if body.len() > 0 && digit_run(body) < body.len() {
            assert(!text::is_digit(body[digit_run(body) as int]));
        }
    }
}

/// A text has no fault as a `u32` just where it is one.
proof fn lemma_u32_fault(s: Seq<char>)
    ensures
        number_fault(s, false, 0, u32::MAX as int) is None <==> text::u32_in(s) is Some,
{
    if s.len() > 0 {
        let body = text::unsigned_part(s);
        lemma_digit_run(body);
        if digit_run(body) == body.len() {
            assert(body.take(body.len() as int) == body);
        }
        if body.len() > 0 && digit_run(body) < body.len() {
            assert(!text::is_digit(body[digit_run(body) as int]));
        }
    }
}

/// The `i32` in a piece of text with blanks around it, or why there is none.
pub open spec fn i32_part(s: Seq<char>) -> Result<i32, Seq<char>> {
    match text::i32_in(text::trimmed(s)) {
        Some(n) => Ok(n),
        None => Err(
            number_fault(text::trimmed(s), true, i32::MIN as int, i32::MAX as int)->0,
        ),
    }
}

/// The `u32` in a piece of text with blanks around it, or why there is none.
pub open spec fn u32_part(s: Seq<char>) -> Result<u32, Seq<char>> {
    match text::u32_in(text::trimmed(s)) {
        Some(n) => Ok(n),
        None => Err(number_fault(text::trimmed(s), false, 0, u32::MAX as int)->0),
    }
}

fn read_i32(v: &[char]) -> (r: Result<i32, String>)
    ensures
        text::said(r) == i32_part(v@),
{
    let t = trim(v);
    match parse_i32(t.as_slice()) {
        Some(n) => Ok(n),
        None => {
            proof {
                lemma_i32_fault(t@);
            }
            Err(fault_of(t.as_slice(), true, 2147483648, 2147483647).to_owned())
        },
    }
}

fn read_u32(v: &[char]) -> (r: Result<u32, String>)
    ensures
        text::said(r) == u32_part(v@),
{
    let t = trim(v);
    match parse_u32(t.as_slice()) {
        Some(n) => Ok(n),
        None => {
            proof {
                lemma_u32_fault(t@);
            }
            Err(fault_of(t.as_slice(), false, 0, 4294967295).to_owned())
        },
    }
}

/// The region written in `s` as `x,y,w,h`, or what is wrong with the text: the
/// number of parts first, then the parts from left to right, then the size.
pub open spec fn region_in(s: Seq<char>) -> Result<Rect, Seq<char>> {
    let p = text::split_all(s, ',');
    if p.len() != 4 {
        Err("bad --region '"@ + s + "' (want x,y,w,h in physical pixels)"@)
    } else {
        match (i32_part(p[0]), i32_part(p[1]), u32_part(p[2]), u32_part(p[3])) {
            (Err(m), _, _, _) => Err(m),
            (_, Err(m), _, _) => Err(m),
            (_, _, Err(m), _) => Err(m),
            (_, _, _, Err(m)) => Err(m),
            (Ok(x), Ok(y), Ok(w), Ok(h)) => {
                let r = Rect { x, y, w, h };
                if r.empty() {
                    Err(CoreError::InvalidRect(r).text())
                } else {
                    Ok(r)
                }
            },
        }
    }
}

/// Reads a region written as `x,y,w,h`; blanks around the numbers do not matter.
pub fn parse_region(s: &str) -> (r: Result<Rect, String>)
    ensures
        text::said(r) == region_in(s@),
{
    let parts = split(to_chars(s).as_slice(), ',');
    proof {
        assert(text::char_rows(parts@).len() == parts@.len());
        assert forall|i: int| 0 <= i < parts@.len() implies text::char_rows(parts@)[i]
            == #[trigger] parts@[i]@ by {}
    }
    if parts.len() != 4 {
        return Err(join3("bad --region '", s, "' (want x,y,w,h in physical pixels)"));
    }
    let x: i32 = match read_i32(parts[0].as_slice()) {
        Ok(n) => n,
        Err(m) => {
            return Err(m);
        },
    };
    let y: i32 = match read_i32(parts[1].as_slice()) {
        Ok(n) => n,
        Err(m) => {
            return Err(m);
        },
    };
    let w: u32 = match read_u32(parts[2].as_slice()) {
        Ok(n) => n,
        Err(m) => {
            return Err(m);
        },
    };
    let h: u32 = match read_u32(parts[3].as_slice()) {
        Ok(n) => n,
        Err(m) => {
            return Err(m);
        },
    };
    let rect = Rect { x, y, w, h };
    if rect.is_empty() {
        return Err(CoreError::InvalidRect(rect).message());
    }
    Ok(rect)
}

/// Reads a region that a person typed: the region, or nothing where the text is
/// none.
pub fn parse_region_str(s: &str) -> (r: Option<Rect>)
    ensures
        r == (match region_in(s@) {
            Ok(rect) => Some(rect),
            Err(_) => None,
        }),
{
    match parse_region(s) {
        Ok(rect) => Some(rect),
        Err(_) => None,
    }
}

/// A region written as `x,y,w,h`.
pub open spec fn region_of(r: Rect) -> Seq<char> {
    text::decimal_int(r.x as int) + seq![','] + (text::decimal_int(r.y as int) + seq![','] + (
    text::decimal(r.w as nat) + seq![','] + text::decimal(r.h as nat)))
}

/// Writes a region as `x,y,w,h`.
pub fn region_text(r: Rect) -> (s: String)
    ensures
        s@ == region_of(r),
{
    proof {
        reveal_strlit(",");
    }
    let size = join3(decimal_text(r.w as u64).as_str(), ",", decimal_text(r.h as u64).as_str());
    let below = join3(decimal_int_text(r.y).as_str(), ",", size.as_str());
    let s = join3(decimal_int_text(r.x).as_str(), ",", below.as_str());
    assert(","@ =~= seq![',']);
    s
}

proof fn lemma_number_text(i: int)
    ensures
        ({
            let s = text::decimal_int(i);
            &&& text::first_index(s, ',') == s.len()
            &&& text::trimmed(s) == s
            &&& text::int_in(s) == Some(i)
        }),
{
    let s = text::decimal_int(i);
    let n = if i < 0 {
        (-i) as nat
    } else {
        i as nat
    };
    text::lemma_decimal_digits(n);
    text::law_decimal_int_reads_back(i);
    let d = text::decimal(n);
    assert(text::is_digit(d[0]));
    assert(text::is_digit(d.last()));
    assert(s.last() == d.last());
    assert forall|k: int| 0 <= k < s.len() implies s[k] != ',' by {
        if i < 0 {
            if k > 0 {
                assert(s[k] == d[k - 1]);
                assert(text::is_digit(d[k - 1]));
            }
        } else {
            assert(text::is_digit(d[k]));
        }
    }
    text::lemma_absent(s, ',');
    assert(text::white_head(s) == 0);
    assert(s.skip(0) == s);
}

proof fn lemma_split_behind(a: Seq<char>, b: Seq<char>)
    requires
        text::first_index(a, ',') == a.len(),
    ensures
        text::split_all(a + seq![','] + b, ',') == seq![a] + text::split_all(b, ','),
{
    let whole = a + seq![','] + b;
    text::lemma_first_behind(a, b, ',');
    assert(whole.take(a.len() as int) == a);
    assert(whole.skip(a.len() as int + 1) == b);
}

/// A region that was written out is read back as it was, unless it is empty, which
/// is refused as such.
pub proof fn law_region_reads_back(r: Rect)
    ensures
        region_in(region_of(r)) == (if r.empty() {
            Err::<Rect, Seq<char>>(CoreError::InvalidRect(r).text())
        } else {
            Ok(r)
        }),
{
    let x = text::decimal_int(r.x as int);
    let y = text::decimal_int(r.y as int);
    let w = text::decimal(r.w as nat);
    let h = text::decimal(r.h as nat);
    lemma_number_text(r.x as int);
    lemma_number_text(r.y as int);
    lemma_number_text(r.w as int);
    lemma_number_text(r.h as int);
    text::law_decimal_reads_back(r.w as nat);
    text::law_decimal_reads_back(r.h as nat);
    lemma_split_behind(w, h);
    lemma_split_behind(y, w + seq![','] + h);
    lemma_split_behind(x, y + seq![','] + (w + seq![','] + h));
    assert(text::split_all(h, ',') == seq![h]);
    let p = text::split_all(region_of(r), ',');
    assert(p == seq![x] + (seq![y] + (seq![w] + seq![h])));
    assert(p.len() == 4);
    assert(p[0] == x && p[1] == y && p[2] == w && p[3] == h);
}

// ---------------------------------------------------------------------------
// What holds on every input
// ---------------------------------------------------------------------------

/// A region is written as its left edge, its top edge, its width and its height.
pub proof fn law_region_is_x_y_w_h(r: Rect)
    ensures
        ({
            let p = text::split_all(region_of(r), ',');
            &&& p.len() == 4
            &&& text::int_in(p[0]) == Some(r.x as int)
            &&& text::int_in(p[1]) == Some(r.y as int)
            &&& text::nat_in(p[2]) == Some(r.w as nat)
            &&& text::nat_in(p[3]) == Some(r.h as nat)
        }),
{
    let x = text::decimal_int(r.x as int);
    let y = text::decimal_int(r.y as int);
    let w = text::decimal(r.w as nat);
    let h = text::decimal(r.h as nat);
    lemma_number_text(r.x as int);
    lemma_number_text(r.y as int);
    lemma_number_text(r.w as int);
    lemma_number_text(r.h as int);
    text::law_decimal_int_reads_back(r.x as int);
    text::law_decimal_int_reads_back(r.y as int);
    text::law_decimal_reads_back(r.w as nat);
    text::law_decimal_reads_back(r.h as nat);
    lemma_split_behind(w, h);
    lemma_split_behind(y, w + seq![','] + h);
    lemma_split_behind(x, y + seq![','] + (w + seq![','] + h));
    assert(text::split_all(h, ',') == seq![h]);
    assert(text::split_all(region_of(r), ',') == seq![x] + (seq![y] + (seq![w] + seq![h])));
}

/// A region that is read has four parts around three commas, white space around each
/// aside: two integers and two natural numbers above zero, in that order.
pub proof fn law_region_that_is_read(s: Seq<char>)
    ensures
        region_in(s) matches Ok(r) ==> {
            let p = text::split_all(s, ',');
            &&& p.len() == 4
            &&& text::int_in(text::trimmed(p[0])) == Some(r.x as int)
            &&& text::int_in(text::trimmed(p[1])) == Some(r.y as int)
            &&& text::nat_in(text::trimmed(p[2])) == Some(r.w as nat)
            &&& text::nat_in(text::trimmed(p[3])) == Some(r.h as nat)
            &&& r.w > 0 && r.h > 0
        },
        text::split_all(s, ',').len() != 4 ==> region_in(s) is Err,
{
}

/// What is said of a number that cannot be read: it is missing, it is too large or too
/// small, or it is none.
pub proof fn law_numbers_that_are_refused(s: Seq<char>, signed: bool, lo: int, hi: int)
    requires
        text::all_digits(s),
    ensures
        number_fault(Seq::empty(), signed, lo, hi) == Some(
            "cannot parse integer from empty string"@,
        ),
        text::digits_value(s) > hi ==> number_fault(s, signed, lo, hi) == Some(
            "number too large to fit in target type"@,
        ),
        text::digits_value(s) <= hi ==> number_fault(s, signed, lo, hi) is None,
        signed && -text::digits_value(s) < lo ==> number_fault(seq!['-'] + s, signed, lo, hi)
            == Some("number too small to fit in target type"@),
        signed && -text::digits_value(s) >= lo ==> number_fault(seq!['-'] + s, signed, lo, hi)
            is None,
        !signed && hi >= 0 ==> number_fault(seq!['-'] + s, signed, lo, hi) == Some(
            "invalid digit found in string"@,
        ),
{
    lemma_run_of_digits(s);
    assert(text::is_digit(s[0]));
    assert(s.take(s.len() as int) =~= s);
    assert((seq!['-'] + s).skip(1) =~= s);
    assert((seq!['-'] + s)[0] == '-');
    assert((seq!['-'] + s).take(0) =~= Seq::<char>::empty());
    assert(text::digits_value(Seq::<char>::empty()) == 0);
}

proof fn lemma_run_of_digits(s: Seq<char>)
    requires
        forall|i: int| 0 <= i < s.len() ==> text::is_digit(#[trigger] s[i]),
    ensures
        digit_run(s) == s.len(),
    decreases s.len(),
{
    if s.len() > 0 {
        let t = s.skip(1);
        assert forall|i: int| 0 <= i < t.len() implies text::is_digit(#[trigger] t[i]) by {
            assert(t[i] == s[i + 1]);
        }
        lemma_run_of_digits(t);
    }
}

/// A text of more or fewer than four parts is shown with what is wanted.
pub proof fn law_region_refusal(s: Seq<char>)
    requires
        text::split_all(s, ',').len() != 4,
    ensures
        region_in(s) == Err::<Rect, Seq<char>>(
            "bad --region '"@ + s + "' (want x,y,w,h in physical pixels)"@,
        ),
{
}

} // verus!
