//! Which log files of the widget are kept: the newest ten. Their names hold the
//! time of the launch, so that the newest is the last in alphabetical order.

use crate::text;
use crate::text::{ends_with, matches_at, to_chars};
use vstd::prelude::*;
use vstd::relations;
use vstd::set_lib;

verus! {

/// How many logs are kept.
pub const KEPT_LOGS: usize = 10;

/// Does `a` come before `b` in alphabetical order?
pub open spec fn before(a: Seq<char>, b: Seq<char>) -> bool
    decreases a.len(),
{
    if b.len() == 0 {
        false
    } else if a.len() == 0 {
        true
    } else if a[0] != b[0] {
        a[0] < b[0]
    } else {
        before(a.skip(1), b.skip(1))
    }
}

/// Is this the name of a log?
pub open spec fn is_log(name: Seq<char>) -> bool {
    text::occurs_at(name, "qcapture-widget-"@, 0) && text::has_end(name, ".log"@)
}

/// Is the file at `j` newer than that at `i`? Of equal names the later is.
pub open spec fn newer(names: Seq<Seq<char>>, i: int, j: int) -> bool {
    before(names[i], names[j]) || (names[i] == names[j] && i < j)
}

/// The logs among the first `n` files that are newer than the file at `i`.
pub open spec fn newer_logs(names: Seq<Seq<char>>, i: int, n: int) -> Set<int> {
    set_lib::set_int_range(0, n).filter(|j: int| is_log(names[j]) && newer(names, i, j))
}

/// The age of a file: how many logs are newer.
pub open spec fn rank(names: Seq<Seq<char>>, i: int) -> nat {
    newer_logs(names, i, names.len() as int).len()
}

/// Is the file at `i` a log that goes?
pub open spec fn stale(names: Seq<Seq<char>>, i: int) -> bool {
    is_log(names[i]) && rank(names, i) >= KEPT_LOGS
}

fn comes_before(a: &[char], b: &[char]) -> (r: bool)
    ensures
        r == before(a@, b@),
{
    let mut i: usize = 0;
    assert(a@.skip(0) == a@ && b@.skip(0) == b@);
    while i < a.len() && i < b.len() && a[i] == b[i]
        invariant
            i <= a@.len(),
            i <= b@.len(),
            before(a@, b@) == before(a@.skip(i as int), b@.skip(i as int)),
        decreases a@.len() - i,
    {
        assert(a@.skip(i as int).skip(1) == a@.skip(i + 1));
        assert(b@.skip(i as int).skip(1) == b@.skip(i + 1));
        assert(a@.skip(i as int)[0] == a@[i as int]);
        assert(b@.skip(i as int)[0] == b@[i as int]);
        i += 1;
    }
    proof {
        if i < a@.len() && i < b@.len() {
            assert(a@.skip(i as int)[0] == a@[i as int]);
            assert(b@.skip(i as int)[0] == b@[i as int]);
        }
    }
    if i == b.len() {
        false
    } else if i == a.len() {
        true
    } else {
        a[i] < b[i]
    }
}

fn equal(a: &[char], b: &[char]) -> (r: bool)
    ensures
        r == (a@ == b@),
{
    if a.len() != b.len() {
        return false;
    }
    let same = matches_at(a, b, 0);
    assert(a@.subrange(0, b@.len() as int) == a@);
    same
}

fn log_name(name: &[char]) -> (r: bool)
    ensures
        r == is_log(name@),
{
    let head = to_chars("qcapture-widget-");
    let tail = to_chars(".log");
    name.len() >= head.len() && matches_at(name, head.as_slice(), 0) && ends_with(name, tail.as_slice())
}

fn rank_of(names: &Vec<Vec<char>>, i: usize) -> (r: usize)
    requires
        i < names@.len(),
    ensures
        r == rank(text::char_rows(names@), i as int),
{
    let ghost rows = text::char_rows(names@);
    let mut n: usize = 0;
    let mut j: usize = 0;
    assert(newer_logs(rows, i as int, 0) =~= Set::empty());
    while j < names.len()
        invariant
            i < names@.len(),
            j <= names@.len(),
            n <= j,
            rows == text::char_rows(names@),
            newer_logs(rows, i as int, j as int).finite(),
            n == newer_logs(rows, i as int, j as int).len(),
        decreases names@.len() - j,
    {
        let a = names[i].as_slice();
        let b = names[j].as_slice();
        let ghost had = newer_logs(rows, i as int, j as int);
        if log_name(b) && (comes_before(a, b) || (equal(a, b) && i < j)) {
            assert(newer_logs(rows, i as int, j + 1) =~= had.insert(j as int));
            assert(!had.contains(j as int));
            n += 1;
        } else {
            assert(newer_logs(rows, i as int, j + 1) =~= had);
        }
        j += 1;
    }
    n
}

/// The files that go, by their places in the list of names, in order.
pub fn stale_logs(names: &Vec<String>) -> (r: Vec<usize>)
    ensures
        forall|k: int, l: int| 0 <= k < l < r@.len() ==> r@[k] < r@[l],
        forall|k: int|
            0 <= k < r@.len() ==> #[trigger] r@[k] < names@.len() && stale(
                text::texts(names@),
                r@[k] as int,
            ),
        forall|i: usize|
            i < names@.len() && stale(text::texts(names@), i as int) ==> #[trigger] r@.contains(i),
{
    let mut rows: Vec<Vec<char>> = Vec::new();
    let mut i: usize = 0;
    while i < names.len()
        invariant
            i <= names@.len(),
            rows@.len() == i,
            forall|k: int| 0 <= k < i ==> (#[trigger] rows@[k])@ == names@[k]@,
        decreases names@.len() - i,
    {
        rows.push(to_chars(names[i].as_str()));
        i += 1;
    }
    let ghost all = text::texts(names@);
    assert(text::char_rows(rows@) =~= all);
    let mut out: Vec<usize> = Vec::new();
    let mut i: usize = 0;
    while i < rows.len()
        invariant
            i <= rows@.len(),
            rows@.len() == names@.len(),
            all == text::texts(names@),
            text::char_rows(rows@) == all,
            forall|k: int, l: int| 0 <= k < l < out@.len() ==> out@[k] < out@[l],
            forall|k: int| 0 <= k < out@.len() ==> #[trigger] out@[k] < i && stale(all, out@[k] as int),
            forall|k: usize| k < i && stale(all, k as int) ==> #[trigger] out@.contains(k),
        decreases rows@.len() - i,
    {
        let ghost had = out@;
        assert(all[i as int] == rows@[i as int]@);
        if log_name(rows[i].as_slice()) && rank_of(&rows, i) >= KEPT_LOGS {
            out.push(i);
            assert forall|k: usize| k < i + 1 && stale(all, k as int) implies #[trigger] out@.contains(
                k,
            ) by {
                if k < i {
                    assert(had.contains(k));
                    let p = choose|p: int| 0 <= p < had.len() && had[p] == k;
                    assert(out@[p] == k);
                } else {
                    assert(out@[had.len() as int] == k);
                }
            }
        }
        i += 1;
    }
    out
}

proof fn lemma_order(a: Seq<char>, b: Seq<char>, c: Seq<char>)
    ensures
        !before(a, a),
        before(a, b) && before(b, c) ==> before(a, c),
        before(a, b) ==> a != b,
        before(a, b) || before(b, a) || a == b,
    decreases a.len(),
{
    if a.len() > 0 {
        if b.len() > 0 && a[0] == b[0] {
            if c.len() > 0 {
                lemma_order(a.skip(1), b.skip(1), c.skip(1));
            } else {
                lemma_order(a.skip(1), b.skip(1), b.skip(1));
            }
            if a.skip(1) == b.skip(1) {
                assert(a =~= seq![a[0]] + a.skip(1));
                assert(b =~= seq![b[0]] + b.skip(1));
            }
        } else {
            lemma_order(a.skip(1), a.skip(1), a.skip(1));
        }
    } else if b.len() == 0 {
        assert(a =~= b);
    }
}

/// All logs among the files.
pub open spec fn logs(names: Seq<Seq<char>>) -> Set<int> {
    set_lib::set_int_range(0, names.len() as int).filter(|i: int| is_log(names[i]))
}

/// The logs that stay.
pub open spec fn kept(names: Seq<Seq<char>>) -> Set<int> {
    logs(names).filter(|i: int| !stale(names, i))
}

proof fn lemma_sets(names: Seq<Seq<char>>, i: int)
    requires
        logs(names).contains(i),
    ensures
        logs(names).finite(),
        newer_logs(names, i, names.len() as int).finite(),
        newer_logs(names, i, names.len() as int).subset_of(logs(names)),
        rank(names, i) < logs(names).len(),
{
    set_lib::lemma_int_range(0, names.len() as int);
    lemma_order(names[i], names[i], names[i]);
    newer_logs(names, i, names.len() as int).lemma_subset_not_in_lt(logs(names), i);
}

/// Of two logs the newer has the lower rank.
proof fn lemma_ranks(names: Seq<Seq<char>>, i: int, j: int)
    requires
        logs(names).contains(i),
        logs(names).contains(j),
        newer(names, i, j),
    ensures
        rank(names, j) < rank(names, i),
{
    lemma_sets(names, i);
    lemma_sets(names, j);
    let n = names.len() as int;
    assert forall|k: int| newer_logs(names, j, n).contains(k) implies newer_logs(
        names,
        i,
        n,
    ).contains(k) by {
        lemma_order(names[i], names[j], names[k]);
    }
    lemma_order(names[j], names[j], names[j]);
    newer_logs(names, j, n).lemma_subset_not_in_lt(newer_logs(names, i, n), j);
}

/// The newest ten logs are kept, or all where there are not more, and whatever
/// goes is older than whatever stays.
pub proof fn law_newest_logs_stay(names: Seq<Seq<char>>)
    ensures
        kept(names).len() == (if logs(names).len() < KEPT_LOGS {
            logs(names).len()
        } else {
            KEPT_LOGS as nat
        }),
        forall|i: int, j: int|
            logs(names).contains(i) && stale(names, i) && #[trigger] kept(names).contains(j)
                ==> #[trigger] newer(names, i, j),
{
    let all = logs(names);
    let f = |i: int| rank(names, i) as int;
    set_lib::lemma_int_range(0, names.len() as int);
    assert(all.finite());
    assert forall|i: int, j: int|
        all.contains(i) && all.contains(j) && #[trigger] f(i) == #[trigger] f(j) implies i == j by {
        if i != j {
            lemma_order(names[i], names[j], names[i]);
            if newer(names, i, j) {
                lemma_ranks(names, i, j);
            } else {
                assert(newer(names, j, i));
                lemma_ranks(names, j, i);
            }
        }
    }
    let span = set_lib::set_int_range(0, all.len() as int);
    set_lib::lemma_int_range(0, all.len() as int);
    let image = all.map(f);
    set_lib::lemma_map_size(all, image, f);
    assert forall|v: int| image.contains(v) implies span.contains(v) by {
        let i = choose|i: int| all.contains(i) && f(i) == v;
        lemma_sets(names, i);
    }
    set_lib::lemma_subset_equality(image, span);
    let stay = kept(names);
    let top = if all.len() < KEPT_LOGS {
        all.len() as int
    } else {
        KEPT_LOGS as int
    };
    let stay_image = stay.map(f);
    assert(relations::injective_on(f, stay));
    set_lib::lemma_map_size(stay, stay_image, f);
    set_lib::lemma_int_range(0, top);
    assert(stay_image =~= set_lib::set_int_range(0, top)) by {
        assert forall|v: int| 0 <= v < top implies stay_image.contains(v) by {
            assert(span.contains(v));
            assert(image.contains(v));
            let i = choose|i: int| all.contains(i) && f(i) == v;
            assert(stay.contains(i));
        }
        assert forall|v: int| stay_image.contains(v) implies 0 <= v < top by {
            let i = choose|i: int| stay.contains(i) && f(i) == v;
            lemma_sets(names, i);
        }
    }
    assert forall|i: int, j: int|
        logs(names).contains(i) && stale(names, i) && #[trigger] kept(names).contains(
            j,
        ) implies #[trigger] newer(names, i, j) by {
        lemma_order(names[i], names[j], names[i]);
        if !newer(names, i, j) {
            if i != j {
                assert(newer(names, j, i));
                lemma_ranks(names, j, i);
            }
        }
    }
}

// ---------------------------------------------------------------------------
// What holds on every input
// ---------------------------------------------------------------------------

/// Names are ordered as in a dictionary: by the first character that differs, and a
/// beginning comes before what goes on.
pub proof fn law_order_of_names(p: Seq<char>, a: Seq<char>, b: Seq<char>, c: char, d: char)
    ensures
        c < d ==> before(p + seq![c] + a, p + seq![d] + b),
        c < d ==> !before(p + seq![d] + b, p + seq![c] + a),
        before(p, p + seq![c] + a),
        !before(p, p),
        !before(p + seq![c] + a, p),
    decreases p.len(),
{
    if p.len() > 0 {
        let q = p.skip(1);
        law_order_of_names(q, a, b, c, d);
        assert((p + seq![c] + a).skip(1) =~= q + seq![c] + a);
        assert((p + seq![d] + b).skip(1) =~= q + seq![d] + b);
        assert((p + seq![c] + a)[0] == p[0]);
        assert((p + seq![d] + b)[0] == p[0]);
    } else {
        assert((p + seq![c] + a)[0] == c);
        assert((p + seq![d] + b)[0] == d);
    }
}

/// A log of the widget is named so, with anything between.
pub proof fn law_log_names(middle: Seq<char>)
    ensures
        is_log("qcapture-widget-"@ + middle + ".log"@),
{
    let name = "qcapture-widget-"@ + middle + ".log"@;
    assert(name.subrange(0, "qcapture-widget-"@.len() as int) =~= "qcapture-widget-"@);
    assert(name.subrange(name.len() - ".log"@.len(), name.len() as int) =~= ".log"@);
}

/// No other file is a log.
pub proof fn law_other_files(name: Seq<char>)
    ensures
        is_log(name) ==> name.len() >= 16 && name.take(16) == "qcapture-widget-"@ && name.skip(
            name.len() - 4,
        ) == ".log"@,
{
    reveal_strlit("qcapture-widget-");
    reveal_strlit(".log");
    if is_log(name) {
        assert(name.take(16) =~= name.subrange(0, 16));
        assert(name.skip(name.len() - 4) =~= name.subrange(name.len() - 4, name.len() as int));
    }
}

/// The newer of two logs has the later name, and of equal names the later entry.
pub proof fn law_newer_log(names: Seq<Seq<char>>, i: int, j: int)
    ensures
        before(names[i], names[j]) ==> newer(names, i, j),
        names[i] == names[j] && i < j ==> newer(names, i, j),
        newer(names, i, j) ==> before(names[i], names[j]) || (names[i] == names[j] && i < j),
{
}

/// A log is stale where ten newer ones are there, and a file that is no log never is.
pub proof fn law_stale_logs(names: Seq<Seq<char>>, i: int)
    requires
        0 <= i < names.len(),
    ensures
        !is_log(names[i]) ==> !stale(names, i),
        is_log(names[i]) ==> (stale(names, i) <==> newer_logs(names, i, names.len() as int).len()
            >= 10),
        forall|j: int| #[trigger]
            newer_logs(names, i, names.len() as int).contains(j) <==> 0 <= j < names.len() && is_log(
                names[j],
            ) && newer(names, i, j),
{
    let n = names.len() as int;
    set_lib::lemma_int_range(0, n);
    assert forall|j: int| #[trigger] newer_logs(names, i, n).contains(j) <==> 0 <= j < n && is_log(
        names[j],
    ) && newer(names, i, j) by {}
}

} // verus!
