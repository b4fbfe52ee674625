//! Character-level text helpers: decimal numbers, trimming, splitting, search.
//!
//! Every contract is stated over the character sequence of the text.

use vstd::prelude::*;

verus! {

/// The text as a vector of characters.
pub fn to_chars(s: &str) -> (v: Vec<char>)
    ensures
        v@ == s@,
{
    let mut v: Vec<char> = Vec::new();
    for c in it: s.chars()
        invariant
            v@ == it.seq().take(it.index() as int),
    {
        v.push(c);
    }
    v
}

/// `String::push` appends one character to the end of the string.
pub assume_specification[ String::push ](s: &mut String, ch: char)
    ensures
        final(s)@ == old(s)@.push(ch),
;

/// The string made of the given characters.
pub fn from_chars(v: &[char]) -> (s: String)
    ensures
        s@ == v@,
{
    let mut s = String::new();
    let mut i: usize = 0;
    while i < v.len()
        invariant
            i <= v@.len(),
            s@ == v@.take(i as int),
        decreases v@.len() - i,
    {
        s.push(v[i]);
        i += 1;
        assert(v@.take(i as int) == v@.take(i - 1).push(v@[i - 1]));
    }
    assert(v@.take(v@.len() as int) == v@);
    s
}

/// Are the two texts the same?
pub fn same(a: &str, b: &str) -> (r: bool)
    ensures
        r == (a@ == b@),
{
    a.to_owned() == b.to_owned()
}

/// The two texts one after the other.
pub fn join2(a: &str, b: &str) -> (r: String)
    ensures
        r@ == a@ + b@,
{
    let mut r = a.to_owned();
    r.append(b);
    r
}

/// The three texts one after the other.
pub fn join3(a: &str, b: &str, c: &str) -> (r: String)
    ensures
        r@ == a@ + b@ + c@,
{
    let mut r = a.to_owned();
    r.append(b);
    r.append(c);
    r
}

/// A result by the contents of its error text.
pub open spec fn said<T>(r: Result<T, String>) -> Result<T, Seq<char>> {
    match r {
        Ok(v) => Ok(v),
        Err(m) => Err(m@),
    }
}

/// The contents of a list of strings.
pub open spec fn texts(v: Seq<String>) -> Seq<Seq<char>> {
    v.map_values(|s: String| s@)
}

/// Appends a text to a list of strings.
pub fn push_text(out: &mut Vec<String>, s: &str)
    ensures
        texts(final(out)@) == texts(old(out)@).push(s@),
{
    out.push(s.to_owned());
    assert(texts(out@) =~= texts(old(out)@).push(s@));
}

/// Appends all of `more` to a list of strings.
pub fn push_texts(out: &mut Vec<String>, more: Vec<String>)
    ensures
        texts(final(out)@) == texts(old(out)@) + texts(more@),
{
    let mut rest = more;
    out.append(&mut rest);
    assert(texts(out@) =~= texts(old(out)@) + texts(more@));
}

// ---------------------------------------------------------------------------
// Decimal numbers
// ---------------------------------------------------------------------------

/// Is this one of the ten ASCII digits?
pub open spec fn is_digit(c: char) -> bool {
    48 <= c as u32 <= 57
}

/// The value of a digit.
pub open spec fn digit_value(c: char) -> nat {
    (c as u32 - 48) as nat
}

/// The digit of a value below ten.
pub open spec fn digit_char(d: nat) -> char {
    (48 + d) as char
}

/// A natural number in decimal, without leading zeros.
pub open spec fn decimal(n: nat) -> Seq<char>
    decreases n,
{
    if n < 10 {
        seq![digit_char(n)]
    } else {
        decimal(n / 10).push(digit_char(n % 10))
    }
}

/// An integer in decimal, with a minus sign where it is negative.
pub open spec fn decimal_int(i: int) -> Seq<char> {
    if i < 0 {
        seq!['-'] + decimal((-i) as nat)
    } else {
        decimal(i as nat)
    }
}

/// The number that a sequence of digits denotes.
pub open spec fn digits_value(s: Seq<char>) -> nat
    decreases s.len(),
{
    if s.len() == 0 {
        0
    } else {
        digits_value(s.drop_last()) * 10 + digit_value(s.last())
    }
}

/// Digits, and at least one.
pub open spec fn all_digits(s: Seq<char>) -> bool {
    &&& s.len() > 0
    &&& forall|i: int| 0 <= i < s.len() ==> is_digit(#[trigger] s[i])
}

/// The digits behind an optional plus sign.
pub open spec fn unsigned_part(s: Seq<char>) -> Seq<char> {
    if s.len() > 0 && s[0] == '+' {
        s.skip(1)
    } else {
        s
    }
}

/// The natural number written in `s`: digits, with an optional plus sign.
pub open spec fn nat_in(s: Seq<char>) -> Option<nat> {
    let body = unsigned_part(s);
    if all_digits(body) {
        Some(digits_value(body))
    } else {
        None
    }
}

/// The integer written in `s`: digits, with an optional sign.
pub open spec fn int_in(s: Seq<char>) -> Option<int> {
    if s.len() > 0 && s[0] == '-' {
        if all_digits(s.skip(1)) {
            Some(-(digits_value(s.skip(1)) as int))
        } else {
            None
        }
    } else {
        match nat_in(s) {
            Some(n) => Some(n as int),
            None => None,
        }
    }
}

/// The `u64` written in `s`, where it fits.
pub open spec fn u64_in(s: Seq<char>) -> Option<u64> {
    match nat_in(s) {
        Some(n) if n <= u64::MAX => Some(n as u64),
        _ => None,
    }
}

/// The `u32` written in `s`, where it fits.
pub open spec fn u32_in(s: Seq<char>) -> Option<u32> {
    match nat_in(s) {
        Some(n) if n <= u32::MAX => Some(n as u32),
        _ => None,
    }
}

/// The `i32` written in `s`, where it fits.
pub open spec fn i32_in(s: Seq<char>) -> Option<i32> {
    match int_in(s) {
        Some(n) if i32::MIN <= n <= i32::MAX => Some(n as i32),
        _ => None,
    }
}

/// The digit `d` as a text of one character.
fn digit_text(d: u64) -> (s: &'static str)
    requires
        d < 10,
    ensures
        s@ == seq![digit_char(d as nat)],
{
    proof {
        reveal_strlit("0");
        reveal_strlit("1");
        reveal_strlit("2");
        reveal_strlit("3");
        reveal_strlit("4");
        reveal_strlit("5");
        reveal_strlit("6");
        reveal_strlit("7");
        reveal_strlit("8");
        reveal_strlit("9");
    }
    if d == 0 {
        "0"
    } else if d == 1 {
        "1"
    } else if d == 2 {
        "2"
    } else if d == 3 {
        "3"
    } else if d == 4 {
        "4"
    } else if d == 5 {
        "5"
    } else if d == 6 {
        "6"
    } else if d == 7 {
        "7"
    } else if d == 8 {
        "8"
    } else {
        "9"
    }
}

/// `n` in decimal.
pub fn decimal_text(n: u64) -> (s: String)
    ensures
        s@ == decimal(n as nat),
    decreases n,
{
    if n < 10 {
        digit_text(n).to_owned()
    } else {
        let mut s = decimal_text(n / 10);
        s.append(digit_text(n % 10));
        s
    }
}

/// `i` in decimal, with its sign.
pub fn decimal_long_text(i: i64) -> (s: String)
    ensures
        s@ == decimal_int(i as int),
{
    if i < 0 {
        proof {
            reveal_strlit("-");
        }
        join2("-", decimal_text((-(i as i128)) as u64).as_str())
    } else {
        decimal_text(i as u64)
    }
}

/// `i` in decimal, with its sign.
pub fn decimal_int_text(i: i32) -> (s: String)
    ensures
        s@ == decimal_int(i as int),
{
    if i < 0 {
        proof {
            reveal_strlit("-");
        }
        join2("-", decimal_text((-(i as i64)) as u64).as_str())
    } else {
        decimal_text(i as u64)
    }
}

/// The number written in the digits of `v` from `from` on, where it fits.
fn parse_digits(v: &[char], from: usize) -> (r: Option<u64>)
    requires
        from <= v@.len(),
    ensures
        r == (if all_digits(v@.skip(from as int)) && digits_value(v@.skip(from as int)) <= u64::MAX {
            Some(digits_value(v@.skip(from as int)) as u64)
        } else {
            None
        }),
{
    let ghost s = v@.skip(from as int);
    if from == v.len() {
        return None;
    }
    let mut value: u64 = 0;
    let mut fits = true;
    let mut i: usize = from;
    while i < v.len()
        invariant
            from <= i <= v@.len(),
            s == v@.skip(from as int),
            forall|k: int| 0 <= k < i - from ==> is_digit(#[trigger] s[k]),
            fits ==> value == digits_value(s.take(i - from)),
            !fits ==> digits_value(s.take(i - from)) > u64::MAX,
        decreases v@.len() - i,
    {
        let c = v[i];
        assert(s[i - from] == c);
        let code: u32 = c as u32;
        if code < 48 || code > 57 {
            return None;
        }
        assert(s.take(i - from + 1).drop_last() == s.take(i - from));
        assert(s.take(i - from + 1).last() == c);
        assert(digits_value(s.take(i - from + 1)) == digits_value(s.take(i - from)) * 10
            + digit_value(c));
        let d: u64 = (code - 48) as u64;
        if fits {
            match value.checked_mul(10) {
                Some(tens) => {
                    match tens.checked_add(d) {
                        Some(next) => {
                            value = next;
                        },
                        None => {
                            fits = false;
                        },
                    }
                },
                None => {
                    fits = false;
                },
            }
        }
        i += 1;
    }
    assert(s.take(s.len() as int) == s);
    if fits {
        Some(value)
    } else {
        None
    }
}

/// Reads an unsigned number: digits, with an optional plus sign.
pub fn parse_u64(v: &[char]) -> (r: Option<u64>)
    ensures
        r == u64_in(v@),
{
    if v.len() > 0 && v[0] == '+' {
        parse_digits(v, 1)
    } else {
        assert(v@.skip(0) == v@);
        parse_digits(v, 0)
    }
}

/// Reads a `u32`: digits, with an optional plus sign.
pub fn parse_u32(v: &[char]) -> (r: Option<u32>)
    ensures
        r == u32_in(v@),
{
    match parse_u64(v) {
        Some(n) => {
            if n <= u32::MAX as u64 {
                Some(n as u32)
            } else {
                None
            }
        },
        None => None,
    }
}

/// Reads an `i32`: digits, with an optional sign.
pub fn parse_i32(v: &[char]) -> (r: Option<i32>)
    ensures
        r == i32_in(v@),
{
    if v.len() > 0 && v[0] == '-' {
        match parse_digits(v, 1) {
            Some(n) => {
                if n <= 2147483648 {
                    Some((-(n as i64)) as i32)
                } else {
                    None
                }
            },
            None => None,
        }
    } else {
        match parse_u64(v) {
            Some(n) => {
                if n <= 2147483647 {
                    Some(n as i32)
                } else {
                    None
                }
            },
            None => None,
        }
    }
}

/// A number in decimal is made of digits that denote it.
pub proof fn lemma_decimal_digits(n: nat)
    ensures
        all_digits(decimal(n)),
        digits_value(decimal(n)) == n,
        decimal(n)[0] != '+',
        decimal(n)[0] != '-',
    decreases n,
{
    if n < 10 {
        assert(decimal(n).drop_last() == Seq::<char>::empty());
        assert(digits_value(decimal(n).drop_last()) == 0);
    } else {
        lemma_decimal_digits(n / 10);
        assert(decimal(n).drop_last() == decimal(n / 10));
        assert(decimal(n).last() == digit_char(n % 10));
        assert(decimal(n)[0] == decimal(n / 10)[0]);
    }
}

/// Reading back a natural number that was written in decimal gives the number.
pub proof fn law_decimal_reads_back(n: nat)
    ensures
        nat_in(decimal(n)) == Some(n),
        int_in(decimal(n)) == Some(n as int),
{
    lemma_decimal_digits(n);
}

/// Reading back an integer that was written in decimal gives the integer.
pub proof fn law_decimal_int_reads_back(i: int)
    ensures
        int_in(decimal_int(i)) == Some(i),
{
    if i < 0 {
        lemma_decimal_digits((-i) as nat);
        assert(decimal_int(i).skip(1) == decimal((-i) as nat));
    } else {
        lemma_decimal_digits(i as nat);
    }
}

// ---------------------------------------------------------------------------
// White space
// ---------------------------------------------------------------------------

/// The characters with the Unicode property White_Space.
pub open spec fn is_white(c: char) -> bool {
    let u = c as u32;
    ||| 0x9 <= u <= 0xd
    ||| u == 0x20
    ||| u == 0x85
    ||| u == 0xa0
    ||| u == 0x1680
    ||| 0x2000 <= u <= 0x200a
    ||| u == 0x2028
    ||| u == 0x2029
    ||| u == 0x202f
    ||| u == 0x205f
    ||| u == 0x3000
}

/// Is the character white space?
pub fn white(c: char) -> (r: bool)
    ensures
        r == is_white(c),
{
    let u: u32 = c as u32;
    (0x9 <= u && u <= 0xd) || u == 0x20 || u == 0x85 || u == 0xa0 || u == 0x1680 || (0x2000 <= u
        && u <= 0x200a) || u == 0x2028 || u == 0x2029 || u == 0x202f || u == 0x205f || u == 0x3000
}

/// How many characters at the start are white space.
pub open spec fn white_head(s: Seq<char>) -> nat
    decreases s.len(),
{
    if s.len() > 0 && is_white(s[0]) {
        1 + white_head(s.skip(1))
    } else {
        0
    }
}

/// The text without white space at its end.
pub open spec fn trimmed_end(s: Seq<char>) -> Seq<char>
    decreases s.len(),
{
    if s.len() > 0 && is_white(s.last()) {
        trimmed_end(s.drop_last())
    } else {
        s
    }
}

/// The text without white space at either end.
pub open spec fn trimmed(s: Seq<char>) -> Seq<char> {
    trimmed_end(s.skip(white_head(s) as int))
}

proof fn lemma_white_head_bound(s: Seq<char>)
    ensures
        white_head(s) <= s.len(),
    decreases s.len(),
{
    if s.len() > 0 && is_white(s[0]) {
        lemma_white_head_bound(s.skip(1));
    }
}

/// The text without white space at either end.
pub fn trim(v: &[char]) -> (r: Vec<char>)
    ensures
        r@ == trimmed(v@),
{
    let mut a: usize = 0;
    assert(v@.skip(0) == v@);
    while a < v.len() && white(v[a])
        invariant
            a <= v@.len(),
            white_head(v@) == a + white_head(v@.skip(a as int)),
        decreases v@.len() - a,
    {
        assert(v@.skip(a as int)[0] == v@[a as int]);
        assert(v@.skip(a as int).skip(1) == v@.skip(a + 1));
        a += 1;
    }
    proof {
        if a < v@.len() {
            assert(v@.skip(a as int)[0] == v@[a as int]);
        }
    }
    assert(white_head(v@) == a);
    let mut b: usize = v.len();
    assert(v@.subrange(a as int, b as int) == v@.skip(a as int));
    while b > a && white(v[b - 1])
        invariant
            a <= b <= v@.len(),
            trimmed_end(v@.skip(a as int)) == trimmed_end(v@.subrange(a as int, b as int)),
        decreases b,
    {
        assert(v@.subrange(a as int, b as int).last() == v@[b - 1]);
        assert(v@.subrange(a as int, b as int).drop_last() == v@.subrange(a as int, b - 1));
        b -= 1;
    }
    proof {
        if b > a {
            assert(v@.subrange(a as int, b as int).last() == v@[b - 1]);
        }
    }
    piece(v, a, b)
}

/// The characters of `v` from `a` up to `b`.
pub fn piece(v: &[char], a: usize, b: usize) -> (r: Vec<char>)
    requires
        a <= b <= v@.len(),
    ensures
        r@ == v@.subrange(a as int, b as int),
{
    let mut r: Vec<char> = Vec::new();
    let mut i: usize = a;
    while i < b
        invariant
            a <= i <= b <= v@.len(),
            r@ == v@.subrange(a as int, i as int),
        decreases b - i,
    {
        r.push(v[i]);
        i += 1;
        assert(v@.subrange(a as int, i as int) == v@.subrange(a as int, i - 1).push(v@[i - 1]));
    }
    r
}

/// Trimming a trimmed text changes nothing.
pub proof fn law_trim_idempotent(s: Seq<char>)
    ensures
        trimmed(trimmed(s)) == trimmed(s),
{
    lemma_white_head_bound(s);
    let t = s.skip(white_head(s) as int);
    lemma_skipped_head(s);
    lemma_trimmed_end(t);
    let r = trimmed(s);
    if r.len() > 0 {
        assert(r[0] == t[0]);
        assert(white_head(r) == 0);
    }
    assert(white_head(r) == 0);
    assert(r.skip(0) == r);
}

/// A trimmed text holds no character that the text does not hold.
pub proof fn lemma_trimmed_part(s: Seq<char>)
    ensures
        ascii_only(s) ==> ascii_only(trimmed(s)),
{
    lemma_white_head_bound(s);
    let tail = s.skip(white_head(s) as int);
    lemma_trimmed_end_prefix(tail);
    assert forall|i: int| ascii_only(s) && 0 <= i < trimmed(s).len() implies (#[trigger] trimmed(
        s,
    )[i]) as u32 <= 127 by {
        assert(trimmed(s)[i] == s[i + white_head(s)]);
    }
}

proof fn lemma_trimmed_end_prefix(s: Seq<char>)
    ensures
        trimmed_end(s).len() <= s.len(),
        trimmed_end(s) == s.take(trimmed_end(s).len() as int),
    decreases s.len(),
{
    if s.len() > 0 && is_white(s.last()) {
        lemma_trimmed_end_prefix(s.drop_last());
    }
}

proof fn lemma_skipped_head(s: Seq<char>)
    ensures
        white_head(s) < s.len() ==> !is_white(s[white_head(s) as int]),
        white_head(s) <= s.len(),
    decreases s.len(),
{
    if s.len() > 0 && is_white(s[0]) {
        lemma_skipped_head(s.skip(1));
    }
}

proof fn lemma_trimmed_end(s: Seq<char>)
    ensures
        trimmed_end(s).is_prefix_of(s),
        trimmed_end(trimmed_end(s)) == trimmed_end(s),
        trimmed_end(s).len() > 0 ==> !is_white(trimmed_end(s).last()),
    decreases s.len(),
{
    if s.len() > 0 && is_white(s.last()) {
        lemma_trimmed_end(s.drop_last());
    }
}

// ---------------------------------------------------------------------------
// Search and splitting
// ---------------------------------------------------------------------------

/// The index of the first `c`, or the length where there is none.
pub open spec fn first_index(s: Seq<char>, c: char) -> nat
    decreases s.len(),
{
    if s.len() == 0 || s[0] == c {
        0
    } else {
        1 + first_index(s.skip(1), c)
    }
}

/// Where no character is `c`, the first index is the length.
pub proof fn lemma_absent(s: Seq<char>, c: char)
    requires
        forall|i: int| 0 <= i < s.len() ==> s[i] != c,
    ensures
        first_index(s, c) == s.len(),
    decreases s.len(),
{
    if s.len() > 0 {
        assert forall|i: int| 0 <= i < s.skip(1).len() implies s.skip(1)[i] != c by {
            assert(s.skip(1)[i] == s[i + 1]);
        }
        lemma_absent(s.skip(1), c);
    }
}

/// Behind a text without `c`, the next `c` is the first.
pub proof fn lemma_first_behind(a: Seq<char>, b: Seq<char>, c: char)
    requires
        first_index(a, c) == a.len(),
    ensures
        first_index(a + seq![c] + b, c) == a.len(),
    decreases a.len(),
{
    let whole = a + seq![c] + b;
    if a.len() > 0 {
        assert(a[0] != c);
        lemma_first_behind(a.skip(1), b, c);
        assert(whole[0] == a[0]);
        assert(whole.skip(1) == a.skip(1) + seq![c] + b);
    } else {
        assert(whole[0] == c);
    }
}

/// The text before the first `c` and the text behind it.
pub open spec fn split_at_first(s: Seq<char>, c: char) -> Option<(Seq<char>, Seq<char>)> {
    let i = first_index(s, c) as int;
    if i < s.len() {
        Some((s.take(i), s.skip(i + 1)))
    } else {
        None
    }
}

/// The index of the first `c`, or the length where there is none.
pub fn find_char(v: &[char], c: char) -> (i: usize)
    ensures
        i == first_index(v@, c),
        i <= v@.len(),
{
    let mut i: usize = 0;
    assert(v@.skip(0) == v@);
    while i < v.len() && v[i] != c
        invariant
            i <= v@.len(),
            first_index(v@, c) == i + first_index(v@.skip(i as int), c),
        decreases v@.len() - i,
    {
        assert(v@.skip(i as int)[0] == v@[i as int]);
        assert(v@.skip(i as int).skip(1) == v@.skip(i + 1));
        i += 1;
    }
    proof {
        if i < v@.len() {
            assert(v@.skip(i as int)[0] == v@[i as int]);
        }
    }
    i
}

/// Splits at the first `c`.
pub fn split_once(v: &[char], c: char) -> (r: Option<(Vec<char>, Vec<char>)>)
    ensures
        match r {
            Some((a, b)) => split_at_first(v@, c) == Some((a@, b@)),
            None => split_at_first(v@, c) is None,
        },
{
    let i = find_char(v, c);
    if i < v.len() {
        let a = piece(v, 0, i);
        let b = piece(v, i + 1, v.len());
        assert(a@ == v@.take(i as int));
        assert(b@ == v@.skip(i + 1));
        Some((a, b))
    } else {
        None
    }
}

/// The pieces between the occurrences of `c`; never empty.
pub open spec fn split_all(s: Seq<char>, c: char) -> Seq<Seq<char>>
    decreases s.len(),
{
    match split_at_first(s, c) {
        Some((head, tail)) => {
            if tail.len() < s.len() {
                seq![head] + split_all(tail, c)
            } else {
                seq![s]
            }
        },
        None => seq![s],
    }
}

/// The views of a list of character vectors.
pub open spec fn char_rows(v: Seq<Vec<char>>) -> Seq<Seq<char>> {
    v.map_values(|x: Vec<char>| x@)
}

/// The pieces between the occurrences of `c`.
pub fn split(v: &[char], c: char) -> (r: Vec<Vec<char>>)
    ensures
        char_rows(r@) == split_all(v@, c),
{
    let mut out: Vec<Vec<char>> = Vec::new();
    let mut rest: Vec<char> = piece(v, 0, v.len());
    assert(rest@ == v@);
    assert(char_rows(out@) + split_all(rest@, c) == split_all(v@, c));
    loop
        invariant
            char_rows(out@) + split_all(rest@, c) == split_all(v@, c),
        decreases rest@.len(),
    {
        match split_once(rest.as_slice(), c) {
            Some((head, tail)) => {
                let ghost before = char_rows(out@);
                assert(split_all(rest@, c) == seq![head@] + split_all(tail@, c));
                out.push(head);
                assert(char_rows(out@) == before.push(head@));
                assert(before + (seq![head@] + split_all(tail@, c)) == before.push(head@)
                    + split_all(tail@, c));
                rest = tail;
            },
            None => {
                let ghost before = char_rows(out@);
                let ghost last = rest@;
                out.push(rest);
                assert(char_rows(out@) == before.push(last));
                assert(before + seq![last] == before.push(last));
                return out;
            },
        }
    }
}

/// Does `p` occur in `s` at index `i`?
pub open spec fn occurs_at(s: Seq<char>, p: Seq<char>, i: int) -> bool {
    &&& 0 <= i
    &&& i + p.len() <= s.len()
    &&& s.subrange(i, i + p.len()) == p
}

/// Does `p` occur in `s`?
pub open spec fn has_part(s: Seq<char>, p: Seq<char>) -> bool {
    exists|i: int| occurs_at(s, p, i)
}

/// Does `p` occur in `v` at index `i`?
pub fn matches_at(v: &[char], p: &[char], i: usize) -> (r: bool)
    requires
        i + p@.len() <= v@.len(),
    ensures
        r == occurs_at(v@, p@, i as int),
{
    let n: usize = v.len();
    let mut k: usize = 0;
    while k < p.len()
        invariant
            n == v@.len(),
            k <= p@.len(),
            i + p@.len() <= v@.len(),
            forall|j: int| 0 <= j < k ==> v@[i + j] == #[trigger] p@[j],
        decreases p@.len() - k,
    {
        if v[i + k] != p[k] {
            assert(v@.subrange(i as int, i + p@.len())[k as int] != p@[k as int]);
            return false;
        }
        k += 1;
    }
    assert(v@.subrange(i as int, i + p@.len()) == p@);
    true
}

/// The index of the first occurrence of `p`, or the length where there is none.
pub open spec fn first_part(s: Seq<char>, p: Seq<char>) -> nat
    decreases s.len(),
{
    if s.len() == 0 || occurs_at(s, p, 0) {
        0
    } else {
        1 + first_part(s.skip(1), p)
    }
}

/// The first occurrence is where `p` occurs and does not occur before.
pub proof fn lemma_first_part(s: Seq<char>, p: Seq<char>, n: int)
    requires
        0 <= n < s.len(),
        occurs_at(s, p, n),
        forall|i: int| 0 <= i < n ==> !occurs_at(s, p, i),
    ensures
        first_part(s, p) == n,
    decreases n,
{
    if n > 0 {
        let t = s.skip(1);
        assert(t.subrange(n - 1, n - 1 + p.len()) == s.subrange(n, n + p.len()));
        assert forall|i: int| 0 <= i < n - 1 implies !occurs_at(t, p, i) by {
            assert(!occurs_at(s, p, i + 1));
            if i + p.len() <= t.len() {
                assert(t.subrange(i, i + p.len()) == s.subrange(i + 1, i + 1 + p.len()));
            }
        }
        lemma_first_part(t, p, n - 1);
    }
}

/// The index of the first occurrence of `p`, or the length where there is none.
pub fn find_part(v: &[char], p: &[char]) -> (r: usize)
    ensures
        r == first_part(v@, p@),
        r <= v@.len(),
{
    let mut i: usize = 0;
    assert(v@.skip(0) == v@);
    while i < v.len()
        invariant
            i <= v@.len(),
            first_part(v@, p@) == i + first_part(v@.skip(i as int), p@),
        decreases v@.len() - i,
    {
        let ghost t = v@.skip(i as int);
        proof {
            if i + p@.len() <= v@.len() {
                assert(t.subrange(0, p@.len() as int) == v@.subrange(i as int, i + p@.len()));
            }
        }
        if p.len() <= v.len() - i && matches_at(v, p, i) {
            return i;
        }
        assert(t.skip(1) == v@.skip(i + 1));
        i += 1;
    }
    i
}

/// Does `p` occur in `v`?
pub fn contains(v: &[char], p: &[char]) -> (r: bool)
    ensures
        r == has_part(v@, p@),
{
    if p.len() > v.len() {
        return false;
    }
    let last: usize = v.len() - p.len();
    let mut i: usize = 0;
    while i <= last
        invariant
            last == v@.len() - p@.len(),
            i <= last + 1,
            forall|j: int| 0 <= j < i ==> !occurs_at(v@, p@, j),
        decreases last + 1 - i,
    {
        if matches_at(v, p, i) {
            return true;
        }
        if i == last {
            return false;
        }
        i += 1;
    }
    false
}

/// Does the text `s` contain the text `p`?
pub fn text_contains(s: &str, p: &str) -> (r: bool)
    ensures
        r == has_part(s@, p@),
{
    contains(to_chars(s).as_slice(), to_chars(p).as_slice())
}

/// Does `s` end with `p`?
pub open spec fn has_end(s: Seq<char>, p: Seq<char>) -> bool {
    occurs_at(s, p, s.len() - p.len())
}

/// Does `v` end with `p`?
pub fn ends_with(v: &[char], p: &[char]) -> (r: bool)
    ensures
        r == has_end(v@, p@),
{
    if p.len() > v.len() {
        false
    } else {
        matches_at(v, p, v.len() - p.len())
    }
}

// ---------------------------------------------------------------------------
// Lines
// ---------------------------------------------------------------------------

/// A line without the carriage return before its line feed.
pub open spec fn without_return(s: Seq<char>) -> Seq<char> {
    if s.len() > 0 && s.last() == '\r' {
        s.drop_last()
    } else {
        s
    }
}

/// The lines of a text, without their line endings. The last line needs none.
pub open spec fn lines_of(s: Seq<char>) -> Seq<Seq<char>>
    decreases s.len(),
{
    if s.len() == 0 {
        Seq::empty()
    } else {
        match split_at_first(s, '\n') {
            Some((head, tail)) => {
                if tail.len() < s.len() {
                    seq![without_return(head)] + lines_of(tail)
                } else {
                    seq![s]
                }
            },
            None => seq![s],
        }
    }
}

/// The lines of a text, without their line endings.
pub fn lines(v: &[char]) -> (r: Vec<Vec<char>>)
    ensures
        char_rows(r@) == lines_of(v@),
{
    let mut out: Vec<Vec<char>> = Vec::new();
    let mut rest: Vec<char> = piece(v, 0, v.len());
    assert(rest@ == v@);
    assert(char_rows(out@) + lines_of(rest@) == lines_of(v@));
    while rest.len() > 0
        invariant
            char_rows(out@) + lines_of(rest@) == lines_of(v@),
        decreases rest@.len(),
    {
        let ghost before = char_rows(out@);
        match split_once(rest.as_slice(), '\n') {
            Some((head, tail)) => {
                let ghost whole = head@;
                assert(lines_of(rest@) == seq![without_return(whole)] + lines_of(tail@));
                let mut line = head;
                if line.len() > 0 && line[line.len() - 1] == '\r' {
                    line.pop();
                }
                assert(line@ == without_return(whole));
                out.push(line);
                assert(char_rows(out@) == before.push(without_return(whole)));
                assert(before + (seq![without_return(whole)] + lines_of(tail@)) == before.push(
                    without_return(whole),
                ) + lines_of(tail@));
                rest = tail;
            },
            None => {
                let ghost last = rest@;
                assert(lines_of(last) == seq![last]);
                out.push(rest);
                assert(char_rows(out@) == before.push(last));
                assert(before + seq![last] == before.push(last));
                return out;
            },
        }
    }
    assert(char_rows(out@) + Seq::<Seq<char>>::empty() == char_rows(out@));
    out
}

/// The texts of `parts`, with `sep` between each two.
pub open spec fn joined(parts: Seq<Seq<char>>, sep: Seq<char>) -> Seq<char>
    decreases parts.len(),
{
    if parts.len() == 0 {
        Seq::empty()
    } else if parts.len() == 1 {
        parts[0]
    } else {
        joined(parts.drop_last(), sep) + sep + parts.last()
    }
}

/// The last `n` of `rows`, joined with line feeds.
pub fn join_tail(rows: &Vec<Vec<char>>, n: usize) -> (r: String)
    ensures
        r@ == joined(last_rows(char_rows(rows@), n as nat), seq!['\n']),
{
    let start: usize = if rows.len() > n {
        rows.len() - n
    } else {
        0
    };
    let ghost all = last_rows(char_rows(rows@), n as nat);
    let mut out = String::new();
    let mut i: usize = start;
    while i < rows.len()
        invariant
            start <= i <= rows@.len(),
            all == char_rows(rows@).skip(start as int),
            out@ == joined(all.take(i - start), seq!['\n']),
        decreases rows@.len() - i,
    {
        assert(all.take(i - start + 1).drop_last() == all.take(i - start));
        assert(all.take(i - start + 1).last() == rows@[i as int]@);
        if i > start {
            out.push('\n');
            assert(joined(all.take(i - start), seq!['\n']).push('\n') == joined(
                all.take(i - start),
                seq!['\n'],
            ) + seq!['\n']);
        }
        out.append(from_chars(rows[i].as_slice()).as_str());
        i += 1;
    }
    assert(all.take(all.len() as int) == all);
    out
}

/// The last `n` entries, or all where there are fewer.
pub open spec fn last_rows(rows: Seq<Seq<char>>, n: nat) -> Seq<Seq<char>> {
    if rows.len() > n {
        rows.skip(rows.len() - n)
    } else {
        rows.skip(0)
    }
}

// ---------------------------------------------------------------------------
// Letter case
// ---------------------------------------------------------------------------

/// The text in lower case, as Unicode maps it.
pub uninterp spec fn lowercase(s: Seq<char>) -> Seq<char>;

/// An ASCII character in lower case.
pub open spec fn ascii_lower(c: char) -> char {
    if 65 <= c as u32 <= 90 {
        (c as u32 + 32) as char
    } else {
        c
    }
}

/// ASCII characters only.
pub open spec fn ascii_only(s: Seq<char>) -> bool {
    forall|i: int| 0 <= i < s.len() ==> (#[trigger] s[i]) as u32 <= 127
}

/// `str::to_lowercase`: the lower case of the text, a function of the text alone.
/// Within ASCII it maps the letters A to Z to a to z and keeps everything else.
/// What it does to other letters is Unicode's table and is not spelled out.
#[verifier::external_body]
pub(crate) fn to_lower(s: &str) -> (r: String)
    ensures
        r@ == lowercase(s@),
        ascii_only(s@) ==> r@ == s@.map_values(|c: char| ascii_lower(c)),
{
    s.to_lowercase()
}

// ---------------------------------------------------------------------------
// What holds on every input
// ---------------------------------------------------------------------------

/// Decimal writing, digit by digit: a number below ten is its digit, and ten times a
/// number plus a digit is that number with the digit behind it.
pub proof fn law_decimal_digits(n: nat, d: nat)
    requires
        d < 10,
    ensures
        decimal(d).len() == 1,
        decimal(d)[0] as u32 == 48 + d,
        n > 0 ==> decimal(n * 10 + d).len() == decimal(n).len() + 1,
        n > 0 ==> decimal(n * 10 + d) == decimal(n) + decimal(d),
{
    if n > 0 {
        assert((n * 10 + d) / 10 == n);
        assert((n * 10 + d) % 10 == d);
        assert(decimal(n).push(digit_char(d)) =~= decimal(n) + decimal(d));
    }
}

/// A negative number is a minus sign and the number without it.
pub proof fn law_decimal_sign(n: nat)
    ensures
        decimal_int(n as int) == decimal(n),
        n > 0 ==> decimal_int(-n) == seq!['-'] + decimal(n),
{
}

/// Different numbers are written differently.
pub proof fn law_decimal_tells_apart(a: int, b: int)
    requires
        a != b,
    ensures
        decimal_int(a) != decimal_int(b),
{
    law_decimal_int_reads_back(a);
    law_decimal_int_reads_back(b);
}

/// Reading goes by tens: a digit behind digits is worth ten times what was there and
/// itself. A leading plus sign changes nothing, and a minus sign negates.
pub proof fn law_reading_digits(s: Seq<char>, c: char)
    requires
        all_digits(s),
        48 <= c as u32 <= 57,
    ensures
        nat_in(s) is Some,
        nat_in(s.push(c)) == Some((nat_in(s)->0 * 10 + (c as u32 - 48)) as nat),
        nat_in(seq![c]) == Some((c as u32 - 48) as nat),
        nat_in(seq!['+'] + s) == nat_in(s),
        int_in(seq!['-'] + s) == Some(-(nat_in(s)->0 as int)),
        int_in(s) == Some(nat_in(s)->0 as int),
{
    assert(s.push(c).drop_last() =~= s);
    assert(is_digit(s[0]));
    assert(all_digits(s.push(c))) by {
        assert forall|i: int| 0 <= i < s.push(c).len() implies is_digit(#[trigger] s.push(c)[i]) by {
            if i < s.len() {
                assert(s.push(c)[i] == s[i]);
            }
        }
    }
    assert(s.push(c)[0] == s[0]);
    assert(seq![c].drop_last() =~= Seq::<char>::empty());
    assert(digits_value(Seq::<char>::empty()) == 0);
    assert((seq!['+'] + s).skip(1) =~= s);
    assert((seq!['-'] + s).skip(1) =~= s);
}

/// A text is read as a number only where it is digits behind a sign at most.
pub proof fn law_reading_refuses(s: Seq<char>, i: int)
    requires
        0 <= i < s.len(),
        !(48 <= s[i] as u32 <= 57),
        i > 0 || (s[0] != '+' && s[0] != '-') || s.len() == 1,
    ensures
        int_in(s) is None,
        nat_in(s) is None,
        nat_in(Seq::empty()) is None,
        int_in(Seq::empty()) is None,
{
    if i > 0 {
        assert(s.skip(1)[i - 1] == s[i]);
    }
    assert(!is_digit(s[i]));
}

/// A number that fits is read as itself, and one that does not is refused.
pub proof fn law_reading_fits(s: Seq<char>, n: nat, i: int)
    ensures
        nat_in(s) == Some(n) ==> (u32_in(s) is Some <==> n <= 0xffff_ffff) && (u64_in(s) is Some
            <==> n <= 0xffff_ffff_ffff_ffff),
        nat_in(s) is None ==> u32_in(s) is None && u64_in(s) is None,
        u32_in(s) matches Some(v) ==> nat_in(s) == Some(v as nat),
        u64_in(s) matches Some(v) ==> nat_in(s) == Some(v as nat),
        int_in(s) == Some(i) ==> (i32_in(s) is Some <==> -0x8000_0000 <= i <= 0x7fff_ffff),
        int_in(s) is None ==> i32_in(s) is None,
        i32_in(s) matches Some(v) ==> int_in(s) == Some(v as int),
{
}

/// Within ASCII, white space is the blank and the control characters from the tab to
/// the carriage return.
pub proof fn law_ascii_white(c: char)
    requires
        c as u32 <= 127,
    ensures
        is_white(c) <==> c == ' ' || (9 <= c as u32 && c as u32 <= 13),
        !is_white('0') && !is_white('a') && !is_white('Z') && !is_white('-'),
{
}

proof fn lemma_white_before(s: Seq<char>, i: int)
    requires
        0 <= i < white_head(s),
    ensures
        i < s.len(),
        is_white(s[i]),
    decreases s.len(),
{
    if i > 0 {
        lemma_white_before(s.skip(1), i - 1);
    }
}

proof fn lemma_white_behind(s: Seq<char>, i: int)
    requires
        trimmed_end(s).len() <= i < s.len(),
    ensures
        is_white(s[i]),
    decreases s.len(),
{
    if s.len() > 0 && is_white(s.last()) && i < s.len() - 1 {
        lemma_white_behind(s.drop_last(), i);
    }
}

/// Trimming takes white space away at both ends and nothing else: what is left is a
/// part of the text that begins and ends otherwise, and around it all is white.
pub proof fn law_trimmed_part_of_the_text(s: Seq<char>) -> (at: int)
    ensures
        0 <= at,
        at + trimmed(s).len() <= s.len(),
        trimmed(s) == s.subrange(at, at + trimmed(s).len()),
        forall|i: int| 0 <= i < at ==> is_white(#[trigger] s[i]),
        forall|i: int| at + trimmed(s).len() <= i < s.len() ==> is_white(#[trigger] s[i]),
        trimmed(s).len() > 0 ==> !is_white(trimmed(s)[0]) && !is_white(trimmed(s).last()),
{
    lemma_white_head_bound(s);
    lemma_skipped_head(s);
    let at = white_head(s) as int;
    let tail = s.skip(at);
    lemma_trimmed_end_prefix(tail);
    lemma_trimmed_end(tail);
    let r = trimmed(s);
    assert(r =~= s.subrange(at, at + r.len()));
    assert forall|i: int| 0 <= i < at implies is_white(#[trigger] s[i]) by {
        lemma_white_before(s, i);
    }
    assert forall|i: int| at + r.len() <= i < s.len() implies is_white(#[trigger] s[i]) by {
        lemma_white_behind(tail, i - at);
        assert(tail[i - at] == s[i]);
    }
    if r.len() > 0 {
        assert(r[0] == s[at]);
    }
    at
}

/// The first `c` is where the text has it and has had none before.
pub proof fn law_first_index(s: Seq<char>, c: char, i: int)
    ensures
        first_index(s, c) <= s.len(),
        first_index(s, c) < s.len() ==> s[first_index(s, c) as int] == c,
        0 <= i < first_index(s, c) ==> s[i] != c,
    decreases s.len(),
{
    if s.len() > 0 && s[0] != c {
        law_first_index(s.skip(1), c, i - 1);
        if i > 0 && i < first_index(s, c) {
            assert(s.skip(1)[i - 1] == s[i]);
        }
    }
}

/// Splitting at the first `c` takes that one character away: what is before it has no
/// `c`, and the two parts around a `c` are the text.
pub proof fn law_split_at_first(s: Seq<char>, c: char, i: int)
    ensures
        split_at_first(s, c) matches Some((a, b)) ==> a + seq![c] + b == s && (0 <= i < a.len()
            ==> a[i] != c),
        split_at_first(s, c) is None ==> (0 <= i < s.len() ==> s[i] != c),
{
    law_first_index(s, c, i);
    if split_at_first(s, c) is Some {
        let (a, b) = split_at_first(s, c)->0;
        assert(a + seq![c] + b =~= s);
    }
}

proof fn lemma_joined_front(a: Seq<char>, rest: Seq<Seq<char>>, sep: Seq<char>)
    requires
        rest.len() > 0,
    ensures
        joined(seq![a] + rest, sep) == a + sep + joined(rest, sep),
    decreases rest.len(),
{
    let all = seq![a] + rest;
    if rest.len() == 1 {
        assert(all.drop_last() =~= seq![a]);
        assert(joined(seq![a], sep) == a);
    } else {
        lemma_joined_front(a, rest.drop_last(), sep);
        assert(all.drop_last() =~= seq![a] + rest.drop_last());
        assert(joined(all, sep) =~= a + sep + joined(rest, sep));
    }
}

/// The pieces of a text, put together with the separator between them, are the text;
/// there is one more piece than separators, and none of them holds one.
pub proof fn law_split_and_join(s: Seq<char>, c: char)
    ensures
        split_all(s, c).len() > 0,
        joined(split_all(s, c), seq![c]) == s,
        forall|k: int, i: int|
            0 <= k < split_all(s, c).len() && 0 <= i < split_all(s, c)[k].len() ==> #[trigger] split_all(
                s,
                c,
            )[k][i] != c,
    decreases s.len(),
{
    let all = split_all(s, c);
    match split_at_first(s, c) {
        Some((a, b)) => {
            law_split_at_first(s, c, 0);
            law_split_and_join(b, c);
            assert(a + seq![c] + b == s);
            lemma_joined_front(a, split_all(b, c), seq![c]);
            assert forall|k: int, i: int|
                0 <= k < all.len() && 0 <= i < all[k].len() implies #[trigger] all[k][i] != c by {
                if k == 0 {
                    law_split_at_first(s, c, i);
                } else {
                    assert(all[k] == split_all(b, c)[k - 1]);
                }
            }
        },
        None => {
            assert forall|k: int, i: int|
                0 <= k < all.len() && 0 <= i < all[k].len() implies #[trigger] all[k][i] != c by {
                law_split_at_first(s, c, i);
            }
        },
    }
}

/// A text holds another where it is that text with something around it.
pub proof fn law_part_of_a_text(a: Seq<char>, p: Seq<char>, b: Seq<char>)
    ensures
        has_part(a + p + b, p),
        has_end(a + p, p),
        occurs_at(p + b, p, 0),
        occurs_at(a + p + b, p, a.len() as int),
{
    let s = a + p + b;
    assert(s.subrange(a.len() as int, a.len() as int + p.len()) =~= p);
    assert(occurs_at(s, p, a.len() as int));
    assert((a + p).subrange(a.len() as int, (a + p).len() as int) =~= p);
    assert((p + b).subrange(0, p.len() as int) =~= p);
}

/// Where a text holds another, it is that text with something around it.
pub proof fn law_text_around_a_part(s: Seq<char>, p: Seq<char>) -> (around: (Seq<char>, Seq<char>))
    requires
        has_part(s, p),
    ensures
        s == around.0 + p + around.1,
        has_end(s, p) ==> s == s.take(s.len() - p.len()) + p,
{
    let i = choose|i: int| occurs_at(s, p, i);
    let (a, b) = (s.take(i), s.skip(i + p.len()));
    assert(s =~= a + p + b) by {
        assert(s.subrange(i, i + p.len()) == p);
        assert(s =~= s.take(i) + s.subrange(i, i + p.len()) + s.skip(i + p.len()));
    }
    if has_end(s, p) {
        assert(s =~= s.take(s.len() - p.len()) + s.subrange(s.len() - p.len(), s.len() as int));
    }
    (a, b)
}

/// The first occurrence is one, and none comes before it; without one it is the end.
pub proof fn law_first_part(s: Seq<char>, p: Seq<char>, i: int)
    requires
        p.len() > 0,
    ensures
        first_part(s, p) <= s.len(),
        first_part(s, p) < s.len() ==> occurs_at(s, p, first_part(s, p) as int),
        0 <= i < first_part(s, p) ==> !occurs_at(s, p, i),
    decreases s.len(),
{
    if s.len() > 0 && !occurs_at(s, p, 0) {
        let t = s.skip(1);
        law_first_part(t, p, i - 1);
        let n = first_part(t, p) as int;
        if n < t.len() {
            assert(t.subrange(n, n + p.len()) =~= s.subrange(n + 1, n + 1 + p.len()));
        }
        if 0 < i < first_part(s, p) && occurs_at(s, p, i) {
            assert(t.subrange(i - 1, i - 1 + p.len()) =~= s.subrange(i, i + p.len()));
        }
    }
}

/// The lines of a text: a line feed ends one, a carriage return before it goes with
/// it, and a last line needs no end.
pub proof fn law_lines(line: Seq<char>, rest: Seq<char>)
    requires
        forall|i: int| 0 <= i < line.len() ==> line[i] != '\n',
    ensures
        lines_of(Seq::empty()).len() == 0,
        line.len() > 0 ==> lines_of(line) == seq![line],
        (line.len() == 0 || line.last() != '\r') ==> lines_of(line + seq!['\n'] + rest) == seq![
            line,
        ] + lines_of(rest),
        lines_of(line + seq!['\r'] + seq!['\n'] + rest) == seq![line] + lines_of(rest),
{
    lemma_absent(line, '\n');
    lemma_first_behind(line, rest, '\n');
    let whole = line + seq!['\n'] + rest;
    assert(whole.take(line.len() as int) =~= line);
    assert(whole.skip(line.len() as int + 1) =~= rest);
    let ended = line + seq!['\r'];
    assert forall|i: int| 0 <= i < ended.len() implies ended[i] != '\n' by {
        if i < line.len() {
            assert(ended[i] == line[i]);
        }
    }
    lemma_absent(ended, '\n');
    lemma_first_behind(ended, rest, '\n');
    let full = ended + seq!['\n'] + rest;
    assert(full.take(ended.len() as int) =~= ended);
    assert(full.skip(ended.len() as int + 1) =~= rest);
    assert(ended.drop_last() =~= line);
}

/// Joining puts the separator between each two and nowhere else.
pub proof fn law_joined(parts: Seq<Seq<char>>, more: Seq<char>, sep: Seq<char>)
    ensures
        joined(Seq::empty(), sep).len() == 0,
        joined(seq![more], sep) == more,
        parts.len() > 0 ==> joined(parts.push(more), sep) == joined(parts, sep) + sep + more,
{
    assert(parts.push(more).drop_last() =~= parts);
}

/// The last rows are the end of the list: `n` of them, or all where there are fewer.
pub proof fn law_last_rows(rows: Seq<Seq<char>>, n: nat, i: int)
    ensures
        last_rows(rows, n).len() == (if rows.len() < n {
            rows.len()
        } else {
            n
        }),
        1 <= i <= last_rows(rows, n).len() ==> last_rows(rows, n)[last_rows(rows, n).len() - i]
            == rows[rows.len() - i],
{
}

/// Capital letters become small ones, and everything else stays.
pub proof fn law_ascii_lower(c: char)
    ensures
        'A' <= c <= 'Z' ==> 'a' <= ascii_lower(c) <= 'z' && ascii_lower(c) as u32 - 'a' as u32 == c
            as u32 - 'A' as u32,
        !('A' <= c <= 'Z') ==> ascii_lower(c) == c,
        ascii_lower(ascii_lower(c)) == ascii_lower(c),
{
}

/// A number that stands before another character ends there: what is before the
/// first such character is the number, and reads as it.
pub proof fn law_number_before(n: int, c: char, rest: Seq<char>)
    requires
        !is_digit(c),
        c != '-',
    ensures
        split_at_first(decimal_int(n) + seq![c] + rest, c) == Some((decimal_int(n), rest)),
        int_in(decimal_int(n)) == Some(n),
{
    let d = decimal_int(n);
    law_decimal_int_reads_back(n);
    let m: nat = if n < 0 {
        (-n) as nat
    } else {
        n as nat
    };
    lemma_decimal_digits(m);
    assert forall|i: int| 0 <= i < d.len() implies d[i] != c by {
        if n < 0 {
            if i > 0 {
                assert(d[i] == decimal(m)[i - 1]);
                assert(is_digit(decimal(m)[i - 1]));
            }
        } else {
            assert(is_digit(decimal(m)[i]));
        }
    }
    lemma_absent(d, c);
    lemma_first_behind(d, rest, c);
    let whole = d + seq![c] + rest;
    assert(whole.take(d.len() as int) =~= d);
    assert(whole.skip(d.len() as int + 1) =~= rest);
}

} // verus!
