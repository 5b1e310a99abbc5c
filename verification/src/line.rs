//! The mathematics of a single puzzle line.
//!
//! A line is a sequence of booleans (`true` for a filled cell). This module
//! says what the clue of a line is, when a line shows a given clue, and when
//! a partly marked line can still be completed to show one.

use crate::game::PuzzleCell;
use vstd::prelude::*;

verus! {

/// How many cells at the front of `line` equal `v`.
pub open spec fn lead(line: Seq<bool>, v: bool) -> nat
    decreases line.len(),
{
    if line.len() > 0 && line[0] == v {
        1 + lead(line.skip(1), v)
    } else {
        0
    }
}

/// `lead` stops at the first cell that differs from `v`, or at the end.
pub proof fn lemma_lead(line: Seq<bool>, v: bool)
    ensures
        lead(line, v) <= line.len(),
        forall|j: int| 0 <= j < lead(line, v) ==> line[j] == v,
        lead(line, v) < line.len() ==> line[lead(line, v) as int] != v,
    decreases line.len(),
{
    if line.len() > 0 && line[0] == v {
        let tail = line.skip(1);
        lemma_lead(tail, v);
        assert forall|j: int| 0 <= j < lead(line, v) implies line[j] == v by {
            if j > 0 {
                assert(line[j] == tail[j - 1]);
            }
        }
        if lead(line, v) < line.len() {
            assert(line[lead(line, v) as int] == tail[lead(tail, v) as int]);
        }
    }
}

/// A position with `v` everywhere before it and not at it is `lead`.
pub proof fn lemma_lead_is(line: Seq<bool>, v: bool, k: int)
    requires
        0 <= k <= line.len(),
        forall|j: int| 0 <= j < k ==> line[j] == v,
        k < line.len() ==> line[k] != v,
    ensures
        lead(line, v) == k,
    decreases line.len(),
{
    if k > 0 {
        let tail = line.skip(1);
        assert forall|j: int| 0 <= j < k - 1 implies tail[j] == v by {
            assert(tail[j] == line[j + 1]);
        }
        if k - 1 < tail.len() {
            assert(tail[k - 1] == line[k]);
        }
        lemma_lead_is(tail, v, k - 1);
    }
}

/// The clue of a line: the lengths of its maximal runs of filled cells, in
/// order.
pub open spec fn run_lengths(line: Seq<bool>) -> Seq<nat>
    decreases line.len(),
{
    if line.len() == 0 {
        Seq::empty()
    } else if !line[0] {
        run_lengths(line.skip(1))
    } else {
        proof {
            lemma_lead(line, true);
        }
        let c = lead(line, true);
        seq![c] + run_lengths(line.skip(c as int))
    }
}

/// A clue held in bytes, as a sequence of numbers.
pub open spec fn counts(runs: Seq<u8>) -> Seq<nat> {
    Seq::new(runs.len(), |k: int| runs[k] as nat)
}

/// Whether every entry of a clue is at least one.
pub open spec fn positive(runs: Seq<nat>) -> bool {
    forall|k: int| 0 <= k < runs.len() ==> runs[k] > 0
}

/// Whether no cell of `line` is filled.
pub open spec fn blank(line: Seq<bool>) -> bool {
    forall|j: int| 0 <= j < line.len() ==> !line[j]
}

/// Whether `line` reads as `runs` from left to right.
///
/// For each entry in turn: pass over unfilled cells, then find exactly that
/// many filled cells in a row, with no filled cell right behind them. Once
/// the entries are used up, no filled cell may remain.
pub open spec fn decodes(line: Seq<bool>, runs: Seq<nat>) -> bool
    decreases runs.len(),
{
    if runs.len() == 0 {
        blank(line)
    } else {
        let k = lead(line, false) as int;
        let c = runs[0] as int;
        &&& k + c <= line.len()
        &&& forall|j: int| k <= j < k + c ==> line[j]
        &&& k + c < line.len() ==> !line[k + c]
        &&& decodes(line.skip(k + c), runs.skip(1))
    }
}

/// An unfilled cell at the front of a line does not change what it reads as.
pub proof fn lemma_decodes_skip_blank(line: Seq<bool>, runs: Seq<nat>)
    requires
        line.len() > 0,
        !line[0],
    ensures
        decodes(line, runs) == decodes(line.skip(1), runs),
{
    let tail = line.skip(1);
    if runs.len() == 0 {
        if blank(line) {
            assert forall|j: int| 0 <= j < tail.len() implies !tail[j] by {
                assert(tail[j] == line[j + 1]);
            }
        }
        if blank(tail) {
            assert forall|j: int| 0 <= j < line.len() implies !line[j] by {
                if j > 0 {
                    assert(line[j] == tail[j - 1]);
                }
            }
        }
    } else {
        let k = lead(tail, false) as int;
        let c = runs[0] as int;
        lemma_lead(tail, false);
        assert(lead(line, false) == k + 1);
        if k + c <= tail.len() {
            assert(line.skip(k + 1 + c) =~= tail.skip(k + c));
            if forall|j: int| k + 1 <= j < k + 1 + c ==> line[j] {
                assert forall|j: int| k <= j < k + c implies tail[j] by {
                    assert(tail[j] == line[j + 1]);
                }
            }
            if forall|j: int| k <= j < k + c ==> tail[j] {
                assert forall|j: int| k + 1 <= j < k + 1 + c implies line[j] by {
                    assert(line[j] == tail[j - 1]);
                }
            }
            if k + c < tail.len() {
                assert(tail[k + c] == line[k + 1 + c]);
            }
        }
    }
}

/// The filled cells of a marked line.
pub open spec fn marks(cells: Seq<PuzzleCell>) -> Seq<bool> {
    Seq::new(cells.len(), |j: int| cells[j] is Full)
}

/// Whether `line` is a way to finish `cells`: it keeps every `Full` filled
/// and every `Cross` unfilled, and decides the `Empty` cells freely.
pub open spec fn admits(cells: Seq<PuzzleCell>, line: Seq<bool>) -> bool {
    &&& line.len() == cells.len()
    &&& forall|j: int|
        0 <= j < cells.len() ==> (cells[j] is Full ==> line[j]) && (cells[j] is Cross ==> !line[j])
}

/// Whether the marks in `cells` can still be finished to a line that reads
/// as `runs`.
pub open spec fn feasible(cells: Seq<PuzzleCell>, runs: Seq<nat>) -> bool {
    exists|line: Seq<bool>| admits(cells, line) && decodes(line, runs)
}

/// Whether the first run of `runs` can start at cell `t` of `cells`, with the
/// other runs placed behind it.
pub open spec fn placed(cells: Seq<PuzzleCell>, runs: Seq<nat>, t: int) -> bool
    recommends
        runs.len() > 0,
{
    let c = runs[0] as int;
    &&& 0 <= t
    &&& t + c <= cells.len()
    &&& forall|j: int| 0 <= j < t ==> !(cells[j] is Full)
    &&& forall|j: int| t <= j < t + c ==> !(cells[j] is Cross)
    &&& if t + c == cells.len() {
        runs.len() == 1
    } else {
        !(cells[t + c] is Full) && feasible(cells.skip(t + c + 1), runs.skip(1))
    }
}

/// With no run left, a line can be finished exactly when it has no `Full`
/// cell.
pub proof fn lemma_feasible_none(cells: Seq<PuzzleCell>)
    ensures
        feasible(cells, Seq::empty()) <==> forall|j: int|
            0 <= j < cells.len() ==> !(cells[j] is Full),
{
    if forall|j: int| 0 <= j < cells.len() ==> !(cells[j] is Full) {
        let line = Seq::new(cells.len(), |j: int| false);
        assert(admits(cells, line) && decodes(line, Seq::empty()));
    }
    if feasible(cells, Seq::empty()) {
        let line = choose|line: Seq<bool>| admits(cells, line) && decodes(line, Seq::empty());
        assert forall|j: int| 0 <= j < cells.len() implies !(cells[j] is Full) by {
            assert(!line[j]);
        }
    }
}

/// A place for the first run gives a way to finish the line.
pub proof fn lemma_placed_feasible(cells: Seq<PuzzleCell>, runs: Seq<nat>, t: int)
    requires
        runs.len() > 0,
        runs[0] > 0,
        placed(cells, runs, t),
    ensures
        feasible(cells, runs),
{
    let n = cells.len() as int;
    let c = runs[0] as int;
    let rest = runs.skip(1);
    if t + c == n {
        let line = Seq::new(cells.len(), |j: int| j >= t);
        lemma_lead_is(line, false, t);
        assert(rest.len() == 0);
        assert(decodes(line.skip(t + c), rest));
        assert(decodes(line, runs));
        assert(admits(cells, line));
    } else {
        let after = cells.skip(t + c + 1);
        let tail = choose|tail: Seq<bool>| admits(after, tail) && decodes(tail, rest);
        let line = Seq::new(
            cells.len(),
            |j: int|
                if j < t + c {
                    j >= t
                } else if j == t + c {
                    false
                } else {
                    tail[j - (t + c + 1)]
                },
        );
        lemma_lead_is(line, false, t);
        let back = line.skip(t + c);
        assert(back.skip(1) =~= tail);
        lemma_decodes_skip_blank(back, rest);
        assert(decodes(line, runs));
        assert forall|j: int| 0 <= j < cells.len() implies (cells[j] is Full ==> line[j]) && (
        cells[j] is Cross ==> !line[j]) by {
            if j > t + c {
                assert(cells[j] == after[j - (t + c + 1)]);
            }
        }
        assert(admits(cells, line));
    }
}

/// A line that can be finished has a place for its first run.
pub proof fn lemma_feasible_placed(cells: Seq<PuzzleCell>, runs: Seq<nat>) -> (t: int)
    requires
        runs.len() > 0,
        positive(runs),
        feasible(cells, runs),
    ensures
        placed(cells, runs, t),
{
    let line = choose|line: Seq<bool>| admits(cells, line) && decodes(line, runs);
    let n = cells.len() as int;
    let c = runs[0] as int;
    let rest = runs.skip(1);
    let t = lead(line, false) as int;
    lemma_lead(line, false);
    let back = line.skip(t + c);
    assert(t + c <= n);
    assert(decodes(back, rest));
    assert forall|j: int| 0 <= j < t implies !(cells[j] is Full) by {
        assert(!line[j]);
    }
    assert forall|j: int| t <= j < t + c implies !(cells[j] is Cross) by {
        assert(line[j]);
    }
    if t + c == n {
        if rest.len() > 0 {
            assert(rest[0] == runs[1]);
            assert(lead(back, false) == 0);
        }
    } else {
        lemma_decodes_skip_blank(back, rest);
        let tail = back.skip(1);
        let after = cells.skip(t + c + 1);
        assert(tail =~= line.skip(t + c + 1));
        assert(admits(after, tail));
        assert(feasible(after, rest));
    }
    t
}

/// A `Full` cell at the front of a line holds the first run in its place:
/// the line can be finished exactly when the run can start at that cell.
pub proof fn lemma_full_front_holds_run(cells: Seq<PuzzleCell>, runs: Seq<nat>)
    requires
        runs.len() > 0,
        positive(runs),
        cells.len() > 0,
        cells[0] is Full,
    ensures
        feasible(cells, runs) <==> placed(cells, runs, 0),
{
    if feasible(cells, runs) {
        let t = lemma_feasible_placed(cells, runs);
        if t > 0 {
            assert(!(cells[0] is Full));
        }
    }
    if placed(cells, runs, 0) {
        lemma_placed_feasible(cells, runs, 0);
    }
}

/// The filled cells of a line of the answer: a cell is filled where its byte
/// is 1.
pub open spec fn ink(answer: Seq<u8>) -> Seq<bool> {
    Seq::new(answer.len(), |j: int| answer[j] == 1)
}

/// Every run of a clue has at least one cell.
pub proof fn lemma_run_lengths_positive(line: Seq<bool>)
    ensures
        positive(run_lengths(line)),
    decreases line.len(),
{
    if line.len() == 0 {
    } else if !line[0] {
        lemma_run_lengths_positive(line.skip(1));
    } else {
        lemma_lead(line, true);
        let c = lead(line, true);
        let tail = run_lengths(line.skip(c as int));
        lemma_run_lengths_positive(line.skip(c as int));
        assert forall|k: int| 0 <= k < run_lengths(line).len() implies run_lengths(line)[k] > 0 by {
            if k > 0 {
                assert(run_lengths(line)[k] == tail[k - 1]);
            }
        }
    }
}

/// A line has no more runs than cells.
pub proof fn lemma_run_lengths_len(line: Seq<bool>)
    ensures
        run_lengths(line).len() <= line.len(),
    decreases line.len(),
{
    if line.len() == 0 {
    } else if !line[0] {
        lemma_run_lengths_len(line.skip(1));
    } else {
        lemma_lead(line, true);
        lemma_run_lengths_len(line.skip(lead(line, true) as int));
    }
}

/// Whether the cells from `a` up to `b` are a closed group: all `Full`, with
/// the edge of the line or a `Cross` on either side.
pub open spec fn closed_group(cells: Seq<PuzzleCell>, a: int, b: int) -> bool {
    &&& 0 <= a < b <= cells.len()
    &&& forall|j: int| a <= j < b ==> cells[j] is Full
    &&& a == 0 || cells[a - 1] is Cross
    &&& b == cells.len() || cells[b] is Cross
}

/// Whether the group from `a` up to `b` can be run `k` of `runs`: it has the
/// right length, the cells before it leave room for the runs before `k`, and
/// the cells behind it for the runs behind `k`.
pub open spec fn fits(cells: Seq<PuzzleCell>, runs: Seq<nat>, a: int, b: int, k: int) -> bool {
    &&& 0 <= k < runs.len()
    &&& runs[k] == b - a
    &&& feasible(cells.take(a), runs.take(k))
    &&& feasible(cells.skip(b), runs.skip(k + 1))
}

/// Whether a closed group starts at `a` that can be run `k`.
pub open spec fn fit_at(cells: Seq<PuzzleCell>, runs: Seq<nat>, a: int, k: int) -> bool {
    exists|b: int| closed_group(cells, a, b) && fits(cells, runs, a, b, k)
}

/// How many closed groups that start before cell `upto` can be run `k`.
pub open spec fn fit_count(cells: Seq<PuzzleCell>, runs: Seq<nat>, k: int, upto: int) -> nat
    decreases upto,
{
    if upto <= 0 {
        0
    } else {
        fit_count(cells, runs, k, upto - 1) + if fit_at(cells, runs, upto - 1, k) {
            1nat
        } else {
            0nat
        }
    }
}

/// Whether some closed group can be none of the runs: the marks contradict
/// the clue.
pub open spec fn stuck(cells: Seq<PuzzleCell>, runs: Seq<nat>) -> bool {
    exists|a: int, b: int|
        closed_group(cells, a, b) && forall|k: int| !fits(cells, runs, a, b, k)
}

/// Whether run `k` of the clue counts as found. On a line that already reads
/// as the clue every run does. Otherwise no closed group may contradict the
/// clue, and exactly one closed group of the line can be run `k`.
pub open spec fn certain(cells: Seq<PuzzleCell>, runs: Seq<nat>, k: int) -> bool {
    ||| decodes(marks(cells), runs)
    ||| !stuck(cells, runs) && fit_count(cells, runs, k, cells.len() as int) == 1
}

/// Whether `clues` is what a line shows beside it: each run of the answer,
/// in order, with whether it counts as found under the marks in `cells`.
pub open spec fn shows(clues: Seq<(u8, bool)>, cells: Seq<PuzzleCell>, answer: Seq<u8>) -> bool {
    let runs = run_lengths(ink(answer));
    &&& clues.len() == runs.len()
    &&& forall|k: int|
        #![trigger clues[k]]
        0 <= k < clues.len() ==> clues[k].0 == runs[k] && clues[k].1 == certain(cells, runs, k)
}

/// The clues that a line shows beside it, for an answer line short enough
/// for its runs to fit a byte each.
pub open spec fn clues_of(cells: Seq<PuzzleCell>, answer: Seq<u8>) -> Seq<(u8, bool)> {
    let runs = run_lengths(ink(answer));
    Seq::new(runs.len(), |k: int| (runs[k] as u8, certain(cells, runs, k)))
}

/// No run is longer than its line.
pub proof fn lemma_run_lengths_bound(line: Seq<bool>)
    ensures
        forall|k: int| 0 <= k < run_lengths(line).len() ==> run_lengths(line)[k] <= line.len(),
    decreases line.len(),
{
    if line.len() == 0 {
    } else if !line[0] {
        let tail = run_lengths(line.skip(1));
        lemma_run_lengths_bound(line.skip(1));
        assert forall|k: int| 0 <= k < run_lengths(line).len() implies run_lengths(line)[k]
            <= line.len() by {
            assert(run_lengths(line)[k] == tail[k]);
        }
    } else {
        lemma_lead(line, true);
        let c = lead(line, true);
        let tail = run_lengths(line.skip(c as int));
        lemma_run_lengths_bound(line.skip(c as int));
        assert forall|k: int| 0 <= k < run_lengths(line).len() implies run_lengths(line)[k]
            <= line.len() by {
            if k > 0 {
                assert(run_lengths(line)[k] == tail[k - 1]);
            }
        }
    }
}

/// No number that a line shows beside it is greater than the line's
/// length.
pub proof fn lemma_shows_bound(clues: Seq<(u8, bool)>, cells: Seq<PuzzleCell>, answer: Seq<u8>)
    requires
        shows(clues, cells, answer),
    ensures
        forall|k: int| 0 <= k < clues.len() ==> (#[trigger] clues[k]).0 <= answer.len(),
{
    lemma_run_lengths_bound(ink(answer));
}

/// What a line shows beside it is determined by its marks and its answer.
pub proof fn lemma_shows_clues_of(clues: Seq<(u8, bool)>, cells: Seq<PuzzleCell>, answer: Seq<u8>)
    requires
        answer.len() <= u8::MAX,
    ensures
        shows(clues, cells, answer) <==> clues == clues_of(cells, answer),
{
    let runs = run_lengths(ink(answer));
    lemma_run_lengths_bound(ink(answer));
    if shows(clues, cells, answer) {
        assert forall|k: int| 0 <= k < clues.len() implies clues[k] == clues_of(
            cells,
            answer,
        )[k] by {
            assert(clues[k].0 == runs[k]);
        }
        assert(clues =~= clues_of(cells, answer));
    }
    if clues == clues_of(cells, answer) {
        assert forall|k: int| 0 <= k < clues.len() implies clues[k].0 == runs[k] && clues[k].1
            == certain(cells, runs, k) by {
            assert(runs[k] <= answer.len());
        }
    }
}

/// No more groups fit than there are cells to start at.
pub proof fn lemma_fit_count_bound(cells: Seq<PuzzleCell>, runs: Seq<nat>, k: int, upto: int)
    requires
        0 <= upto,
    ensures
        fit_count(cells, runs, k, upto) <= upto,
    decreases upto,
{
    if upto > 0 {
        lemma_fit_count_bound(cells, runs, k, upto - 1);
    }
}

/// Cells at which no fitting group starts add nothing to the count.
pub proof fn lemma_fit_count_gap(
    cells: Seq<PuzzleCell>,
    runs: Seq<nat>,
    k: int,
    from: int,
    upto: int,
)
    requires
        0 <= from <= upto,
        forall|a: int| from <= a < upto ==> !fit_at(cells, runs, a, k),
    ensures
        fit_count(cells, runs, k, upto) == fit_count(cells, runs, k, from),
    decreases upto - from,
{
    if from < upto {
        lemma_fit_count_gap(cells, runs, k, from, upto - 1);
    }
}

/// A closed group that starts at `a` ends where the `Full` cells from `a` on
/// end.
pub proof fn lemma_group_end(cells: Seq<PuzzleCell>, a: int, e: int, b: int)
    requires
        0 <= a < e <= cells.len(),
        forall|j: int| a <= j < e ==> cells[j] is Full,
        e == cells.len() || !(cells[e] is Full),
        closed_group(cells, a, b),
    ensures
        b == e,
{
    if b < e {
        assert(cells[b] is Full);
    }
    if b > e {
        assert(cells[e] is Full);
    }
}

/// A line has no run exactly when it has no filled cell.
pub proof fn lemma_run_lengths_blank(line: Seq<bool>)
    ensures
        run_lengths(line).len() == 0 <==> blank(line),
    decreases line.len(),
{
    if line.len() == 0 {
    } else if !line[0] {
        let tail = line.skip(1);
        lemma_run_lengths_blank(tail);
        if blank(line) {
            assert forall|j: int| 0 <= j < tail.len() implies !tail[j] by {
                assert(tail[j] == line[j + 1]);
            }
        }
        if blank(tail) {
            assert forall|j: int| 0 <= j < line.len() implies !line[j] by {
                if j > 0 {
                    assert(line[j] == tail[j - 1]);
                }
            }
        }
    } else {
        assert(!blank(line));
    }
}

/// The unfilled cells at the front of a line do not change its clue.
pub proof fn lemma_run_lengths_skip_blanks(line: Seq<bool>)
    ensures
        run_lengths(line) == run_lengths(line.skip(lead(line, false) as int)),
    decreases line.len(),
{
    if line.len() > 0 && !line[0] {
        let tail = line.skip(1);
        lemma_run_lengths_skip_blanks(tail);
        lemma_lead(tail, false);
        assert(tail.skip(lead(tail, false) as int) =~= line.skip(lead(line, false) as int));
    } else {
        assert(line.skip(0) =~= line);
    }
}

/// Reading and encoding agree: a line reads as a clue of positive runs
/// exactly when that clue is the list of its run lengths.
pub proof fn lemma_decodes_run_lengths(line: Seq<bool>, runs: Seq<nat>)
    requires
        positive(runs),
    ensures
        decodes(line, runs) <==> run_lengths(line) == runs,
    decreases runs.len(),
{
    if runs.len() == 0 {
        lemma_run_lengths_blank(line);
        if run_lengths(line).len() == 0 {
            assert(run_lengths(line) =~= runs);
        }
    } else {
        let k = lead(line, false) as int;
        let c = runs[0] as int;
        let rest = runs.skip(1);
        let from = line.skip(k);
        lemma_lead(line, false);
        lemma_run_lengths_skip_blanks(line);
        assert forall|m: int| 0 <= m < rest.len() implies rest[m] > 0 by {
            assert(rest[m] == runs[m + 1]);
        }
        if k < line.len() {
            assert(from[0] == line[k]);
            lemma_lead(from, true);
            let m = lead(from, true) as int;
            let tail = run_lengths(from.skip(m));
            assert(run_lengths(from) == seq![m as nat] + tail);
            if decodes(line, runs) {
                assert forall|j: int| 0 <= j < c implies from[j] by {
                    assert(from[j] == line[k + j]);
                }
                if c < from.len() {
                    assert(from[c] == line[k + c]);
                }
                lemma_lead_is(from, true, c);
                assert(from.skip(c) =~= line.skip(k + c));
                lemma_decodes_run_lengths(line.skip(k + c), rest);
                assert(run_lengths(line) =~= runs);
            }
            if run_lengths(line) == runs {
                assert((seq![m as nat] + tail)[0] == m);
                assert(m == c);
                assert(tail =~= rest) by {
                    assert forall|j: int| 0 <= j < rest.len() implies tail[j] == rest[j] by {
                        assert((seq![m as nat] + tail)[j + 1] == tail[j]);
                    }
                }
                assert(from.skip(c) =~= line.skip(k + c));
                lemma_decodes_run_lengths(line.skip(k + c), rest);
                assert forall|j: int| k <= j < k + c implies line[j] by {
                    assert(line[j] == from[j - k]);
                }
                if k + c < line.len() {
                    assert(line[k + c] == from[c]);
                }
            }
        } else {
            assert(from.len() == 0);
            assert(run_lengths(from).len() == 0);
        }
    }
}

/// The clue of a line is a clue that the line reads as.
pub proof fn lemma_run_lengths_decode(line: Seq<bool>)
    ensures
        decodes(line, run_lengths(line)),
{
    lemma_run_lengths_positive(line);
    lemma_decodes_run_lengths(line, run_lengths(line));
}

/// A line of the answer without a 1 has the empty clue.
pub proof fn lemma_run_lengths_unset(answer: Seq<u8>)
    requires
        forall|j: int| 0 <= j < answer.len() ==> answer[j] != 1,
    ensures
        run_lengths(ink(answer)) == Seq::<nat>::empty(),
{
    lemma_run_lengths_blank(ink(answer));
    assert(run_lengths(ink(answer)) =~= Seq::<nat>::empty());
}

/// How many cells of `line` are filled.
pub open spec fn filled(line: Seq<bool>) -> nat
    decreases line.len(),
{
    if line.len() == 0 {
        0
    } else {
        filled(line.skip(1)) + if line[0] {
            1nat
        } else {
            0nat
        }
    }
}

/// The sum of the runs of a clue.
pub open spec fn total(runs: Seq<nat>) -> nat
    decreases runs.len(),
{
    if runs.len() == 0 {
        0
    } else {
        runs[0] + total(runs.skip(1))
    }
}

/// The sum of a clue with one more run in front.
pub proof fn lemma_total_cons(first: nat, rest: Seq<nat>)
    ensures
        total(seq![first] + rest) == first + total(rest),
{
    assert((seq![first] + rest).skip(1) =~= rest);
}

/// The runs of a line fit into it with a gap between each two: the sum of
/// the clue and the gaps is no more than the line's length.
pub proof fn lemma_run_lengths_fit(line: Seq<bool>)
    ensures
        total(run_lengths(line)) + run_lengths(line).len() <= line.len() + 1,
    decreases line.len(),
{
    if line.len() == 0 {
    } else if !line[0] {
        lemma_run_lengths_fit(line.skip(1));
    } else {
        lemma_lead(line, true);
        let c = lead(line, true);
        let rest = line.skip(c as int);
        lemma_total_cons(c, run_lengths(rest));
        if rest.len() > 0 {
            assert(rest[0] == line[c as int]);
            lemma_run_lengths_fit(rest.skip(1));
        }
    }
}

/// The filled cells of a line are those before a cut and those behind it.
pub proof fn lemma_filled_split(line: Seq<bool>, m: int)
    requires
        0 <= m <= line.len(),
    ensures
        filled(line) == filled(line.take(m)) + filled(line.skip(m)),
    decreases m,
{
    if m == 0 {
        assert(line.skip(0) =~= line);
    } else {
        let tail = line.skip(1);
        lemma_filled_split(tail, m - 1);
        assert(tail.take(m - 1) =~= line.take(m).skip(1));
        assert(tail.skip(m - 1) =~= line.skip(m));
        assert(line.take(m)[0] == line[0]);
    }
}

/// A stretch of `k` unfilled cells and then `c` filled ones has `c` filled
/// cells.
pub proof fn lemma_filled_block(line: Seq<bool>, k: int, c: int)
    requires
        0 <= k,
        0 <= c,
        line.len() == k + c,
        forall|j: int| 0 <= j < k ==> !line[j],
        forall|j: int| k <= j < k + c ==> line[j],
    ensures
        filled(line) == c,
    decreases line.len(),
{
    if line.len() > 0 {
        let tail = line.skip(1);
        assert forall|j: int| 0 <= j < tail.len() implies tail[j] == line[j + 1] by {}
        if k > 0 {
            lemma_filled_block(tail, k - 1, c);
        } else {
            lemma_filled_block(tail, 0, c - 1);
        }
    }
}

/// A line that reads as a clue has as many filled cells as the clue counts.
pub proof fn lemma_decodes_filled(line: Seq<bool>, runs: Seq<nat>)
    requires
        decodes(line, runs),
    ensures
        filled(line) == total(runs),
    decreases runs.len(),
{
    if runs.len() == 0 {
        lemma_filled_block(line, line.len() as int, 0);
    } else {
        let k = lead(line, false) as int;
        let c = runs[0] as int;
        lemma_lead(line, false);
        lemma_filled_split(line, k + c);
        lemma_filled_block(line.take(k + c), k, c);
        lemma_decodes_filled(line.skip(k + c), runs.skip(1));
    }
}

/// Clearing a filled cell leaves one filled cell fewer.
pub proof fn lemma_filled_clear(line: Seq<bool>, i: int)
    requires
        0 <= i < line.len(),
        line[i],
    ensures
        filled(line) == filled(line.update(i, false)) + 1,
{
    let cleared = line.update(i, false);
    lemma_filled_split(line, i);
    lemma_filled_split(cleared, i);
    assert(cleared.take(i) =~= line.take(i));
    assert(cleared.skip(i).skip(1) =~= line.skip(i).skip(1));
}

/// An exact match does not survive the loss of a mark: when a line reads as
/// a clue and one of its `Full` cells is changed to `Cross` or `Empty`, it
/// reads as that clue no longer.
pub proof fn lemma_exact_match_needs_every_mark(
    cells: Seq<PuzzleCell>,
    runs: Seq<nat>,
    i: int,
    other: PuzzleCell,
)
    requires
        decodes(marks(cells), runs),
        0 <= i < cells.len(),
        cells[i] is Full,
        !(other is Full),
    ensures
        !decodes(marks(cells.update(i, other)), runs),
{
    let line = marks(cells);
    let changed = marks(cells.update(i, other));
    assert(changed =~= line.update(i, false));
    lemma_filled_clear(line, i);
    lemma_decodes_filled(line, runs);
    if decodes(changed, runs) {
        lemma_decodes_filled(changed, runs);
    }
}

/// A line that reads as a clue can be finished to one that does: itself.
pub proof fn lemma_exact_match_feasible(cells: Seq<PuzzleCell>, runs: Seq<nat>)
    requires
        decodes(marks(cells), runs),
    ensures
        feasible(cells, runs),
{
    assert(admits(cells, marks(cells)));
}

} // verus!
