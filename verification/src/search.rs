//! Fuzzy search in the catalog.
//!
//! A name is as close to a search term as few single characters have to be
//! inserted, deleted or replaced to turn one into the other. The score of a
//! name is the share of the longer of the two texts that needs no such edit:
//! a fraction between 0 and 1, kept as two whole numbers. A search keeps the
//! names whose score reaches a threshold, given in percent, and lists them
//! from the lowest score to the highest.

use vstd::prelude::*;

verus! {

/// The smaller of two numbers.
pub open spec fn least(x: nat, y: nat) -> nat {
    if x <= y {
        x
    } else {
        y
    }
}

/// The number of single characters that have to be inserted, deleted or
/// replaced to turn `a` into `b`.
pub open spec fn distance(a: Seq<char>, b: Seq<char>) -> nat
    decreases a.len() + b.len(),
{
    if a.len() == 0 {
        b.len()
    } else if b.len() == 0 {
        a.len()
    } else {
        let replaced = distance(a.drop_last(), b.drop_last()) + if a.last() == b.last() {
            0nat
        } else {
            1nat
        };
        least(
            least(distance(a.drop_last(), b) + 1, distance(a, b.drop_last()) + 1),
            replaced,
        )
    }
}

/// The length of the longer of two texts.
pub open spec fn longer(a: Seq<char>, b: Seq<char>) -> nat {
    if a.len() >= b.len() {
        a.len()
    } else {
        b.len()
    }
}

/// Two texts are never further apart than the longer of them is long.
pub proof fn lemma_distance_bound(a: Seq<char>, b: Seq<char>)
    ensures
        distance(a, b) <= longer(a, b),
    decreases a.len() + b.len(),
{
    if a.len() > 0 && b.len() > 0 {
        lemma_distance_bound(a.drop_last(), b.drop_last());
    }
}

/// The distance between the first `i` characters of `a` and the first `j`
/// characters of `b`.
pub open spec fn cell(a: Seq<char>, b: Seq<char>, i: int, j: int) -> nat {
    distance(a.take(i), b.take(j))
}

/// How a cell follows from its three neighbours.
proof fn lemma_cell(a: Seq<char>, b: Seq<char>, i: int, j: int)
    requires
        0 <= i < a.len(),
        0 <= j < b.len(),
    ensures
        cell(a, b, i + 1, j + 1) == least(
            least(cell(a, b, i, j + 1) + 1, cell(a, b, i + 1, j) + 1),
            cell(a, b, i, j) + if a[i] == b[j] {
                0nat
            } else {
                1nat
            },
        ),
        cell(a, b, i + 1, 0) == i + 1,
        cell(a, b, 0, j + 1) == j + 1,
        cell(a, b, 0, 0) == 0,
        cell(a, b, i, j) <= longer(a, b),
        cell(a, b, i + 1, j) <= longer(a, b),
        cell(a, b, i, j + 1) <= longer(a, b),
{
    assert(a.take(i + 1).drop_last() =~= a.take(i));
    assert(b.take(j + 1).drop_last() =~= b.take(j));
    lemma_distance_bound(a.take(i), b.take(j));
}

/// Computes the distance between two texts.
pub fn edit_distance(a: &Vec<char>, b: &Vec<char>) -> (d: usize)
    ensures
        d == distance(a@, b@),
{
    let n = a.len();
    let m = b.len();
    if m == 0 {
        return n;
    }
    // row[j] is the cell (i, j + 1); the cells (i, 0) are i itself.
    let mut row: Vec<u128> = Vec::new();
    let mut j: usize = 0;
    while j < m
        invariant
            j <= m,
            m == b.len(),
            row.len() == j,
            forall|k: int| 0 <= k < j ==> row[k] == cell(a@, b@, 0, k + 1),
        decreases m - j,
    {
        row.push(j as u128 + 1);
        j += 1;
    }
    let mut i: usize = 0;
    while i < n
        invariant
            i <= n,
            n == a.len(),
            m == b.len(),
            m > 0,
            row.len() == m,
            forall|k: int| 0 <= k < m ==> row[k] == cell(a@, b@, i as int, k + 1),
        decreases n - i,
    {
        let mut corner: u128 = i as u128;
        let mut left: u128 = i as u128 + 1;
        let mut j: usize = 0;
        while j < m
            invariant
                j <= m,
                i < n,
                n == a.len(),
                m == b.len(),
                row.len() == m,
                corner == cell(a@, b@, i as int, j as int),
                left == cell(a@, b@, i + 1, j as int),
                forall|k: int| 0 <= k < j ==> row[k] == cell(a@, b@, i + 1, k + 1),
                forall|k: int| j <= k < m ==> row[k] == cell(a@, b@, i as int, k + 1),
            decreases m - j,
        {
            proof {
                lemma_cell(a@, b@, i as int, j as int);
            }
            let above = row[j];
            let cost: u128 = if a[i] == b[j] {
                0
            } else {
                1
            };
            let mut best = above + 1;
            if left + 1 < best {
                best = left + 1;
            }
            if corner + cost < best {
                best = corner + cost;
            }
            row.set(j, best);
            corner = above;
            left = best;
            j += 1;
        }
        i += 1;
    }
    proof {
        assert(a@.take(n as int) =~= a@);
        assert(b@.take(m as int) =~= b@);
        lemma_distance_bound(a@, b@);
    }
    row[m - 1] as usize
}

/// The characters of a text.
pub fn chars_of(text: &String) -> (chars: Vec<char>)
    ensures
        chars@ == text@,
{
    let mut chars: Vec<char> = Vec::new();
    for c in it: text.as_str().chars()
        invariant
            it.seq() == text@,
            chars@ == it.seq().take(it.index() as int),
    {
        chars.push(c);
    }
    chars
}

/// The threshold that a search uses where none is given: one half.
pub const DEFAULT_THRESHOLD: u32 = 50;

/// How close a name is to a term: `same` of `of` characters need no edit.
#[derive(Clone, Copy, Debug)]
pub struct Score {
    pub same: u64,
    pub of: u64,
}

/// The score of `name` for `term`, as a fraction: its numerator and its
/// denominator. Two empty texts score one.
pub open spec fn score(term: Seq<char>, name: Seq<char>) -> (nat, nat) {
    let of = longer(term, name);
    if of == 0 {
        (1, 1)
    } else {
        ((of - distance(term, name)) as nat, of)
    }
}

/// Whether the score of `name` is at least `percent` hundredths.
pub open spec fn reaches(term: Seq<char>, name: Seq<char>, percent: nat) -> bool {
    score(term, name).0 * 100 >= percent * score(term, name).1
}

/// Whether the score of `x` is at most that of `y`.
pub open spec fn no_better(term: Seq<char>, x: Seq<char>, y: Seq<char>) -> bool {
    score(term, x).0 * score(term, y).1 <= score(term, y).0 * score(term, x).1
}

/// Whether a list goes from the lowest score to the highest.
pub open spec fn ascending(term: Seq<char>, list: Seq<Seq<char>>) -> bool {
    forall|i: int, j: int| 0 <= i < j < list.len() ==> no_better(term, list[i], list[j])
}

/// `list`, which goes from the lowest score to the highest, with `name` put
/// where it belongs: behind every entry that is no better.
pub open spec fn placed(term: Seq<char>, list: Seq<Seq<char>>, name: Seq<char>) -> Seq<Seq<char>>
    decreases list.len(),
{
    if list.len() == 0 {
        seq![name]
    } else if no_better(term, list.last(), name) {
        list.push(name)
    } else {
        placed(term, list.drop_last(), name).push(list.last())
    }
}

/// The names whose score for `term` reaches `percent` hundredths, from the
/// lowest score to the highest; names of equal score stay in their order.
pub open spec fn ranked(term: Seq<char>, names: Seq<Seq<char>>, percent: nat) -> Seq<Seq<char>>
    decreases names.len(),
{
    if names.len() == 0 {
        Seq::empty()
    } else {
        let rest = ranked(term, names.drop_last(), percent);
        if reaches(term, names.last(), percent) {
            placed(term, rest, names.last())
        } else {
            rest
        }
    }
}

/// A score is a fraction between 0 and 1.
pub proof fn law_score(term: Seq<char>, name: Seq<char>)
    ensures
        0 < score(term, name).1,
        score(term, name).0 <= score(term, name).1,
{
    lemma_distance_bound(term, name);
}

/// Of two names one is no better than the other, and what is no better
/// than a name that is no better than a third is no better than the third.
pub proof fn lemma_order(term: Seq<char>, x: Seq<char>, y: Seq<char>, z: Seq<char>)
    ensures
        no_better(term, x, y) || no_better(term, y, x),
        no_better(term, x, y) && no_better(term, y, z) ==> no_better(term, x, z),
{
    let (a1, d1) = score(term, x);
    let (a2, d2) = score(term, y);
    let (a3, d3) = score(term, z);
    if no_better(term, x, y) && no_better(term, y, z) {
        assert(a1 * d3 <= a3 * d1) by (nonlinear_arith)
            requires
                a1 * d2 <= a2 * d1,
                a2 * d3 <= a3 * d2,
                0 < d1,
                0 < d2,
                0 < d3,
        ;
    }
}

/// Where a name is placed: behind the last entry that is no better.
proof fn lemma_placed_at(term: Seq<char>, list: Seq<Seq<char>>, name: Seq<char>, at: int)
    requires
        0 <= at <= list.len(),
        forall|k: int| at <= k < list.len() ==> !no_better(term, #[trigger] list[k], name),
        at > 0 ==> no_better(term, list[at - 1], name),
    ensures
        placed(term, list, name) == list.insert(at, name),
    decreases list.len(),
{
    if at < list.len() {
        lemma_placed_at(term, list.drop_last(), name, at);
    }
}

/// A placed name is in the list, beside what was there.
pub proof fn lemma_placed_contains(
    term: Seq<char>,
    list: Seq<Seq<char>>,
    name: Seq<char>,
    other: Seq<char>,
)
    ensures
        placed(term, list, name).contains(other) <==> (list.contains(other) || other == name),
        placed(term, list, name).len() == list.len() + 1,
    decreases list.len(),
{
    if list.len() == 0 {
        assert(seq![name][0] == name);
    } else {
        let front = list.drop_last();
        assert(list =~= front.push(list.last()));
        if no_better(term, list.last(), name) {
            crate::skills::lemma_push_contains(list, name, other);
        } else {
            lemma_placed_contains(term, front, name, other);
            crate::skills::lemma_push_contains(placed(term, front, name), list.last(), other);
        }
    }
}

/// Placing a name keeps a list in order.
pub proof fn lemma_placed_ascending(term: Seq<char>, list: Seq<Seq<char>>, name: Seq<char>)
    requires
        ascending(term, list),
    ensures
        ascending(term, placed(term, list, name)),
    decreases list.len(),
{
    let after = placed(term, list, name);
    if list.len() == 0 {
        // one name is in order
    } else if no_better(term, list.last(), name) {
        assert forall|i: int, j: int| 0 <= i < j < after.len() implies no_better(
            term,
            after[i],
            after[j],
        ) by {
            if j == list.len() {
                lemma_order(term, list[i], list.last(), name);
            }
        }
    } else {
        let front = list.drop_last();
        let inner = placed(term, front, name);
        lemma_placed_ascending(term, front, name);
        assert forall|i: int, j: int| 0 <= i < j < after.len() implies no_better(
            term,
            after[i],
            after[j],
        ) by {
            if j == inner.len() {
                let x = inner[i];
                lemma_placed_contains(term, front, name, x);
            }
        }
    }
}

/// Placing a name that a list does not hold keeps the list free of
/// duplicates.
pub proof fn lemma_placed_no_duplicates(term: Seq<char>, list: Seq<Seq<char>>, name: Seq<char>)
    requires
        list.no_duplicates(),
        !list.contains(name),
    ensures
        placed(term, list, name).no_duplicates(),
    decreases list.len(),
{
    if list.len() > 0 {
        let front = list.drop_last();
        let last = list.last();
        assert(list =~= front.push(last));
        assert(list[list.len() - 1] == last);
        assert forall|i: int| 0 <= i < front.len() implies front[i] != last && front[i] != name by {
            assert(list[i] == front[i]);
        }
        if !no_better(term, last, name) {
            lemma_placed_no_duplicates(term, front, name);
            lemma_placed_contains(term, front, name, last);
            let inner = placed(term, front, name);
            assert forall|i: int, j: int|
                0 <= i < inner.len() + 1 && 0 <= j < inner.len() + 1 && i != j implies inner.push(
                last,
            )[i] != inner.push(last)[j] by {
                if i < inner.len() && j < inner.len() {
                    assert(inner[i] != inner[j]);
                } else if i < inner.len() {
                    assert(inner.contains(inner[i]));
                } else {
                    assert(inner.contains(inner[j]));
                }
            }
        } else {
            assert forall|i: int, j: int|
                0 <= i < list.len() + 1 && 0 <= j < list.len() + 1 && i != j implies list.push(
                name,
            )[i] != list.push(name)[j] by {
                if i < list.len() && j < list.len() {
                    assert(list[i] != list[j]);
                } else if i < list.len() {
                    assert(list.contains(list[i]));
                } else {
                    assert(list.contains(list[j]));
                }
            }
        }
    }
}

/// A search lists the names that reach the threshold and no others, from
/// the lowest score to the highest, no more names than it was given, and,
/// where it was given no name twice, no name twice.
pub proof fn law_ranked(term: Seq<char>, names: Seq<Seq<char>>, percent: nat, name: Seq<char>)
    ensures
        ranked(term, names, percent).contains(name) <==> (names.contains(name) && reaches(
            term,
            name,
            percent,
        )),
        ascending(term, ranked(term, names, percent)),
        ranked(term, names, percent).len() <= names.len(),
        names.no_duplicates() ==> ranked(term, names, percent).no_duplicates(),
    decreases names.len(),
{
    if names.len() > 0 {
        let front = names.drop_last();
        let last = names.last();
        let rest = ranked(term, front, percent);
        assert(names =~= front.push(last));
        law_ranked(term, front, percent, name);
        law_ranked(term, front, percent, last);
        if reaches(term, last, percent) {
            lemma_placed_contains(term, rest, last, name);
            lemma_placed_ascending(term, rest, last);
        }
        if names.no_duplicates() {
            assert(names[names.len() - 1] == last);
            assert forall|i: int, j: int|
                0 <= i < front.len() && 0 <= j < front.len() && i != j implies front[i]
                != front[j] by {
                assert(names[i] == front[i] && names[j] == front[j]);
            }
            if front.contains(last) {
                let i = choose|i: int| 0 <= i < front.len() && front[i] == last;
                assert(names[i] == last);
            }
            if reaches(term, last, percent) {
                lemma_placed_no_duplicates(term, rest, last);
            }
        }
    }
}

/// Scores a name for a term.
pub fn score_of(term: &Vec<char>, name: &Vec<char>) -> (found: Score)
    ensures
        (found.same as nat, found.of as nat) == score(term@, name@),
        0 < found.of,
        found.same <= found.of,
{
    proof {
        lemma_distance_bound(term@, name@);
    }
    let of = if term.len() >= name.len() {
        term.len()
    } else {
        name.len()
    };
    if of == 0 {
        Score { same: 1, of: 1 }
    } else {
        let apart = edit_distance(term, name);
        Score { same: (of - apart) as u64, of: of as u64 }
    }
}

/// Whether the first score is at most the second.
pub fn at_most(x: Score, y: Score) -> (holds: bool)
    ensures
        holds == (x.same * y.of <= y.same * x.of),
{
    assert(x.same * y.of <= u64::MAX * u64::MAX) by (nonlinear_arith)
        requires
            x.same <= u64::MAX,
            y.of <= u64::MAX,
    ;
    assert(y.same * x.of <= u64::MAX * u64::MAX) by (nonlinear_arith)
        requires
            y.same <= u64::MAX,
            x.of <= u64::MAX,
    ;
    x.same as u128 * y.of as u128 <= y.same as u128 * x.of as u128
}

/// Whether a score is at least `percent` hundredths.
pub fn at_least(found: Score, percent: u32) -> (holds: bool)
    ensures
        holds == (found.same * 100 >= percent * found.of),
{
    assert(percent * found.of <= u32::MAX * u64::MAX) by (nonlinear_arith)
        requires
            percent <= u32::MAX,
            found.of <= u64::MAX,
    ;
    found.same as u128 * 100 >= percent as u128 * found.of as u128
}

/// Searches `names` for `term`: lists the names whose score reaches
/// `percent` hundredths, from the lowest score to the highest. Names of
/// equal score stay in the order in which they were given; where no name
/// reaches the threshold the list is empty.
pub fn rank(term: &String, names: &Vec<String>, percent: u32) -> (found: Vec<String>)
    ensures
        found.deep_view() == ranked(term@, names.deep_view(), percent as nat),
{
    let pattern = chars_of(term);
    let mut found: Vec<String> = Vec::new();
    let mut scores: Vec<Score> = Vec::new();
    let mut i: usize = 0;
    while i < names.len()
        invariant
            i <= names.len(),
            pattern@ == term@,
            scores.len() == found.len(),
            found.deep_view() == ranked(term@, names.deep_view().take(i as int), percent as nat),
            forall|k: int|
                0 <= k < scores.len() ==> (#[trigger] scores[k].same as nat, scores[k].of as nat)
                    == score(term@, found.deep_view()[k]),
        decreases names.len() - i,
    {
        let ghost seen = names.deep_view().take(i as int);
        let ghost name = names.deep_view()[i as int];
        let ghost before = found.deep_view();
        proof {
            assert(names.deep_view().take(i + 1).drop_last() =~= seen);
        }
        let chars = chars_of(&names[i]);
        let this = score_of(&pattern, &chars);
        if at_least(this, percent) {
            let mut at: usize = found.len();
            while at > 0 && !at_most(scores[at - 1], this)
                invariant
                    at <= found.len(),
                    scores.len() == found.len(),
                    before == found.deep_view(),
                    (this.same as nat, this.of as nat) == score(term@, name),
                    forall|k: int|
                        0 <= k < scores.len() ==> (
                        #[trigger] scores[k].same as nat, scores[k].of as nat) == score(
                            term@,
                            before[k],
                        ),
                    forall|k: int|
                        at <= k < before.len() ==> !no_better(term@, #[trigger] before[k], name),
                decreases at,
            {
                at -= 1;
            }
            proof {
                lemma_placed_at(term@, before, name, at as int);
            }
            found.insert(at, names[i].clone());
            scores.insert(at, this);
        }
        i += 1;
    }
    assert(names.deep_view().take(i as int) =~= names.deep_view());
    found
}

} // verus!
