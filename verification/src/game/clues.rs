//! The clues of a line: reading them off the answer, testing the marks
//! against them, and deciding which of them count as found.

use crate::bounded::{
    byte_items, bytes_as_slice, bytes_new, bytes_push, bytes_set, clue_items, clues_new, clues_push,
    MAX_PUZZLE_SIZE,
};
use crate::game::{Game, PuzzleCell};
use crate::line::{
    blank, closed_group, counts, decodes, feasible, fit_at, fit_count, fits, ink, lead,
    lemma_feasible_none, lemma_feasible_placed, lemma_fit_count_bound, lemma_fit_count_gap,
    lemma_group_end, lemma_lead_is, lemma_placed_feasible, lemma_run_lengths_len,
    lemma_run_lengths_positive, marks, placed, positive, run_lengths, shows, stuck,
};
use arrayvec::ArrayVec;
use vstd::prelude::*;

verus! {

/// Whether no cell of `cells` is `Full`.
fn unmarked(cells: &[PuzzleCell]) -> (clear: bool)
    ensures
        clear == forall|j: int| 0 <= j < cells@.len() ==> !(cells@[j] is Full),
{
    let mut i: usize = 0;
    while i < cells.len()
        invariant
            i <= cells@.len(),
            forall|j: int| 0 <= j < i ==> !(cells@[j] is Full),
        decreases cells@.len() - i,
    {
        if let PuzzleCell::Full = cells[i] {
            return false;
        }
        i += 1;
    }
    true
}

/// Walks over the `count` cells from `start` on and stops at the first
/// `Cross`, if there is one. Returns where it stopped and whether it passed
/// a `Full` cell.
fn window(cells: &[PuzzleCell], start: usize, count: usize) -> (scan: (usize, bool))
    requires
        start + count <= cells@.len(),
    ensures
        start <= scan.0 <= start + count,
        forall|j: int| start <= j < scan.0 ==> !(cells@[j] is Cross),
        scan.0 < start + count ==> cells@[scan.0 as int] is Cross,
        scan.1 <==> exists|j: int| start <= j < scan.0 && cells@[j] is Full,
{
    let mut stop: usize = start;
    let mut full_seen = false;
    while stop - start < count
        invariant
            start <= stop <= start + count <= cells@.len(),
            forall|j: int| start <= j < stop ==> !(cells@[j] is Cross),
            full_seen <==> exists|j: int| start <= j < stop && cells@[j] is Full,
        decreases start + count - stop,
    {
        match cells[stop] {
            PuzzleCell::Empty => {},
            PuzzleCell::Full => {
                full_seen = true;
            },
            PuzzleCell::Cross => {
                return (stop, full_seen);
            },
        }
        stop += 1;
    }
    (stop, full_seen)
}

/// Decides whether the marks in `cells` leave room for the runs in
/// `solution`, in their order: whether the `Empty` cells can be decided so
/// that the line reads as `solution`.
///
/// The search places the first run as far left as the marks allow, asks the
/// same question for the cells and runs behind it, and moves the run to the
/// right while that fails. A `Full` cell at the front of the run cannot be
/// left behind, so the search stops there.
pub fn is_valid(cells: &[PuzzleCell], solution: &[u8]) -> (valid: bool)
    requires
        positive(counts(solution@)),
    ensures
        valid == feasible(cells@, counts(solution@)),
    decreases solution@.len(),
{
    let ghost runs = counts(solution@);
    if solution.len() == 0 {
        proof {
            assert(runs =~= Seq::empty());
            lemma_feasible_none(cells@);
        }
        return unmarked(cells);
    }
    let n = cells.len();
    let count = solution[0] as usize;
    let rest = &solution[1..solution.len()];
    proof {
        assert(counts(rest@) =~= runs.skip(1));
        assert(runs[0] > 0);
    }
    let mut start: usize = 0;
    loop
        invariant
            n == cells@.len(),
            runs == counts(solution@),
            runs.len() > 0,
            positive(runs),
            count == runs[0],
            count > 0,
            counts(rest@) == runs.skip(1),
            rest@.len() < solution@.len(),
            start <= n,
            forall|j: int| 0 <= j < start ==> !(cells@[j] is Full),
            forall|t: int| 0 <= t < start ==> !placed(cells@, runs, t),
        decreases n - start,
    {
        let ghost first = start;
        while start < n && matches!(cells[start], PuzzleCell::Cross)
            invariant
                n == cells@.len(),
                first <= start,
                runs.len() > 0,
                runs[0] > 0,
                start <= n,
                forall|j: int| 0 <= j < start ==> !(cells@[j] is Full),
                forall|t: int| 0 <= t < start ==> !placed(cells@, runs, t),
            decreases n - start,
        {
            start += 1;
        }
        if n - start < count {
            proof {
                if feasible(cells@, runs) {
                    let t = lemma_feasible_placed(cells@, runs);
                }
            }
            return false;
        }
        let (stop, full_seen) = window(cells, start, count);
        let end = start + count;
        if stop < end {
            if full_seen {
                proof {
                    let p = choose|j: int| start <= j < stop && cells@[j] is Full;
                    if feasible(cells@, runs) {
                        let t = lemma_feasible_placed(cells@, runs);
                        if t <= p {
                            assert(cells@[stop as int] is Cross);
                        } else {
                            assert(cells@[p] is Full);
                        }
                    }
                }
                return false;
            }
            proof {
                assert forall|t: int| 0 <= t < stop + 1 implies !placed(cells@, runs, t) by {
                    if t >= start {
                        assert(cells@[stop as int] is Cross);
                    }
                }
            }
            start = stop + 1;
            continue;
        }
        if end == n {
            proof {
                if rest@.len() == 0 {
                    assert(counts(rest@).len() == 0);
                    assert(runs.len() == 1);
                    assert(placed(cells@, runs, start as int));
                    lemma_placed_feasible(cells@, runs, start as int);
                } else if feasible(cells@, runs) {
                    let t = lemma_feasible_placed(cells@, runs);
                }
            }
            return rest.len() == 0;
        }
        let fits = match cells[end] {
            PuzzleCell::Full => false,
            _ => is_valid(&cells[end + 1..n], rest),
        };
        proof {
            assert(cells@.subrange(end + 1, n as int) =~= cells@.skip(end + 1));
        }
        if fits {
            proof {
                assert(placed(cells@, runs, start as int));
                lemma_placed_feasible(cells@, runs, start as int);
            }
            return true;
        }
        assert(!placed(cells@, runs, start as int));
        if let PuzzleCell::Full = cells[start] {
            proof {
                if feasible(cells@, runs) {
                    let t = lemma_feasible_placed(cells@, runs);
                    assert(cells@[start as int] is Full);
                }
            }
            return false;
        }
        start += 1;
    }
}

/// Reads the clue off a line of the answer: the lengths of its runs of
/// cells that hold 1, from first to last.
pub fn encode_runs(answer: &[u8]) -> (solution: ArrayVec<u8, MAX_PUZZLE_SIZE>)
    requires
        answer@.len() <= MAX_PUZZLE_SIZE,
    ensures
        counts(byte_items(solution)) == run_lengths(ink(answer@)),
{
    let ghost line = ink(answer@);
    let n = answer.len();
    let mut solution = bytes_new();
    let mut consecutive: u8 = 0;
    let mut i: usize = 0;
    proof {
        assert(line.skip(0) =~= line);
        assert(counts(byte_items(solution)) + run_lengths(line) =~= run_lengths(line));
    }
    while i < n
        invariant
            n == answer@.len(),
            n <= MAX_PUZZLE_SIZE,
            line == ink(answer@),
            consecutive <= i <= n,
            byte_items(solution).len() + consecutive <= i,
            forall|j: int| i - consecutive <= j < i ==> line[j],
            run_lengths(line) == counts(byte_items(solution)) + run_lengths(
                line.skip(i - consecutive),
            ),
        decreases n - i,
    {
        let ghost before = line.skip(i - consecutive);
        if answer[i] == 1 {
            consecutive += 1;
        } else {
            proof {
                let here = line.skip(i as int);
                assert(here.skip(1) =~= line.skip(i + 1));
                assert(!here[0]);
                if consecutive > 0 {
                    assert forall|j: int| 0 <= j < consecutive implies before[j] by {
                        assert(before[j] == line[i - consecutive + j]);
                    }
                    assert(before[consecutive as int] == line[i as int]);
                    lemma_lead_is(before, true, consecutive as int);
                    assert(before.skip(consecutive as int) =~= here);
                    assert(run_lengths(before) == seq![consecutive as nat] + run_lengths(here));
                    assert(counts(byte_items(solution).push(consecutive)) =~= counts(
                        byte_items(solution),
                    ) + seq![consecutive as nat]);
                }
            }
            if consecutive > 0 {
                bytes_push(&mut solution, consecutive);
            }
            consecutive = 0;
        }
        i += 1;
    }
    proof {
        let before = line.skip(n - consecutive);
        if consecutive > 0 {
            assert forall|j: int| 0 <= j < consecutive implies before[j] by {
                assert(before[j] == line[n - consecutive + j]);
            }
            lemma_lead_is(before, true, consecutive as int);
            assert(before[0]);
            assert(before.skip(consecutive as int).len() == 0);
            assert(run_lengths(before.skip(consecutive as int)) =~= Seq::empty());
            assert(run_lengths(before) =~= seq![consecutive as nat]);
            assert(counts(byte_items(solution).push(consecutive)) =~= counts(byte_items(solution))
                + seq![consecutive as nat]);
        } else {
            assert(before.len() == 0);
            assert(counts(byte_items(solution)) + run_lengths(before) =~= counts(
                byte_items(solution),
            ));
        }
    }
    if consecutive > 0 {
        bytes_push(&mut solution, consecutive);
    }
    solution
}

/// Pairs every run of `solution` with the same flag.
fn uniform(solution: &[u8], flag: bool) -> (clues: ArrayVec<(u8, bool), MAX_PUZZLE_SIZE>)
    requires
        solution@.len() <= MAX_PUZZLE_SIZE,
    ensures
        clue_items(clues).len() == solution@.len(),
        forall|k: int| 0 <= k < solution@.len() ==> clue_items(clues)[k] == (solution@[k], flag),
{
    let mut clues = clues_new();
    let mut k: usize = 0;
    while k < solution.len()
        invariant
            k <= solution@.len() <= MAX_PUZZLE_SIZE,
            clue_items(clues).len() == k,
            forall|m: int| 0 <= m < k ==> clue_items(clues)[m] == (solution@[m], flag),
        decreases solution@.len() - k,
    {
        clues_push(&mut clues, (solution[k], flag));
        k += 1;
    }
    clues
}

/// Pairs every run of `solution` with whether its tally is exactly one.
fn by_tally(solution: &[u8], tally: &[u8]) -> (clues: ArrayVec<(u8, bool), MAX_PUZZLE_SIZE>)
    requires
        solution@.len() <= MAX_PUZZLE_SIZE,
        tally@.len() == solution@.len(),
    ensures
        clue_items(clues).len() == solution@.len(),
        forall|k: int|
            0 <= k < solution@.len() ==> clue_items(clues)[k] == (solution@[k], tally@[k] == 1),
{
    let mut clues = clues_new();
    let mut k: usize = 0;
    while k < solution.len()
        invariant
            k <= solution@.len() <= MAX_PUZZLE_SIZE,
            tally@.len() == solution@.len(),
            clue_items(clues).len() == k,
            forall|m: int| 0 <= m < k ==> clue_items(clues)[m] == (solution@[m], tally@[m] == 1),
        decreases solution@.len() - k,
    {
        clues_push(&mut clues, (solution[k], tally[k] == 1));
        k += 1;
    }
    clues
}

/// A tally of zero for every run of `solution`.
fn no_fits(solution: &[u8]) -> (tally: ArrayVec<u8, MAX_PUZZLE_SIZE>)
    requires
        solution@.len() <= MAX_PUZZLE_SIZE,
    ensures
        byte_items(tally).len() == solution@.len(),
        forall|k: int| 0 <= k < solution@.len() ==> byte_items(tally)[k] == 0,
{
    let mut tally = bytes_new();
    let mut k: usize = 0;
    while k < solution.len()
        invariant
            k <= solution@.len() <= MAX_PUZZLE_SIZE,
            byte_items(tally).len() == k,
            forall|m: int| 0 <= m < k ==> byte_items(tally)[m] == 0,
        decreases solution@.len() - k,
    {
        bytes_push(&mut tally, 0);
        k += 1;
    }
    tally
}

/// Tests the closed group from `start` up to `end` against every run of
/// `solution` and adds one to the tally of each run that it fits. Returns
/// whether it fits any.
fn tally_group(
    cells: &[PuzzleCell],
    solution: &[u8],
    start: usize,
    end: usize,
    possibilities: &mut ArrayVec<u8, MAX_PUZZLE_SIZE>,
) -> (something_is_valid: bool)
    requires
        start < end <= cells@.len() <= MAX_PUZZLE_SIZE,
        positive(counts(solution@)),
        byte_items(*old(possibilities)).len() == solution@.len(),
        forall|k: int| 0 <= k < solution@.len() ==> byte_items(*old(possibilities))[k] < 255,
    ensures
        byte_items(*final(possibilities)).len() == solution@.len(),
        forall|k: int|
            0 <= k < solution@.len() ==> byte_items(*final(possibilities))[k] == byte_items(
                *old(possibilities),
            )[k] + if fits(cells@, counts(solution@), start as int, end as int, k) {
                1int
            } else {
                0int
            },
        something_is_valid <==> exists|k: int|
            fits(cells@, counts(solution@), start as int, end as int, k),
{
    let ghost runs = counts(solution@);
    let n = cells.len();
    let len = solution.len();
    let size = (end - start) as u8;
    let mut something_is_valid = false;
    let mut k: usize = 0;
    while k < len
        invariant
            start < end <= n,
            n == cells@.len(),
            n <= MAX_PUZZLE_SIZE,
            len == solution@.len(),
            size == end - start,
            runs == counts(solution@),
            positive(runs),
            k <= len,
            byte_items(*possibilities).len() == len,
            forall|m: int|
                0 <= m < k ==> byte_items(*possibilities)[m] == byte_items(*old(possibilities))[m]
                    + if fits(cells@, runs, start as int, end as int, m) {
                    1int
                } else {
                    0int
                },
            forall|m: int|
                k <= m < len ==> byte_items(*possibilities)[m] == byte_items(
                    *old(possibilities),
                )[m],
            forall|m: int| 0 <= m < len ==> byte_items(*old(possibilities))[m] < 255,
            something_is_valid <==> exists|m: int|
                0 <= m < k && fits(cells@, runs, start as int, end as int, m),
        decreases len - k,
    {
        let mut fit = false;
        if solution[k] == size {
            let cells_before = &cells[0..start];
            let solution_before = &solution[0..k];
            let cells_after = &cells[end..n];
            let solution_after = &solution[k + 1..len];
            proof {
                assert(cells_before@ =~= cells@.take(start as int));
                assert(cells_after@ =~= cells@.skip(end as int));
                assert(counts(solution_before@) =~= runs.take(k as int));
                assert(counts(solution_after@) =~= runs.skip(k + 1));
            }
            fit = is_valid(cells_before, solution_before) && is_valid(
                cells_after,
                solution_after,
            );
        }
        assert(fit == fits(cells@, runs, start as int, end as int, k as int));
        if fit {
            something_is_valid = true;
            let seen = bytes_as_slice(possibilities)[k];
            bytes_set(possibilities, k, seen + 1);
        }
        k += 1;
    }
    something_is_valid
}

impl Game {
    /// Decides whether the marked line `cells` reads as `solution`, as it
    /// stands: for each run in turn there are, behind any cells that are not
    /// `Full`, exactly that many `Full` cells in a row, and once the runs are
    /// used up no `Full` cell is left.
    pub fn is_solved(&self, cells: &[PuzzleCell], solution: &[u8]) -> (solved: bool)
        ensures
            solved == decodes(marks(cells@), counts(solution@)),
    {
        let ghost line = marks(cells@);
        let ghost runs = counts(solution@);
        let n = cells.len();
        let mut pos: usize = 0;
        let mut k: usize = 0;
        proof {
            assert(line.skip(0) =~= line);
            assert(runs.skip(0) =~= runs);
        }
        while k < solution.len()
            invariant
                n == cells@.len(),
                line == marks(cells@),
                runs == counts(solution@),
                pos <= n,
                k <= solution@.len(),
                decodes(line, runs) == decodes(line.skip(pos as int), runs.skip(k as int)),
            decreases solution@.len() - k,
        {
            let ghost here = line.skip(pos as int);
            let ghost first = pos;
            let count = solution[k] as usize;
            while pos < n && !matches!(cells[pos], PuzzleCell::Full)
                invariant
                    n == cells@.len(),
                    line == marks(cells@),
                    first <= pos <= n,
                    forall|j: int| first <= j < pos ==> !line[j],
                decreases n - pos,
            {
                pos += 1;
            }
            proof {
                assert forall|j: int| 0 <= j < pos - first implies here[j] == false by {
                    assert(here[j] == line[first + j]);
                }
                if pos < n {
                    assert(here[pos - first] == line[pos as int]);
                }
                lemma_lead_is(here, false, pos - first);
                assert(runs.skip(k as int)[0] == count);
                assert(runs.skip(k as int).skip(1) =~= runs.skip(k + 1));
            }
            if n - pos < count {
                return false;
            }
            let end = pos + count;
            proof {
                assert(here.skip(pos - first + count) =~= line.skip(end as int));
            }
            while pos < end
                invariant
                    n == cells@.len(),
                    line == marks(cells@),
                    runs == counts(solution@),
                    here == line.skip(first as int),
                    first <= end - count <= pos <= end <= n,
                    forall|j: int| end - count <= j < pos ==> line[j],
                    !decodes(here, runs.skip(k as int)) ==> !decodes(line, runs),
                    lead(here, false) == end - count - first,
                    runs.skip(k as int).len() > 0,
                    runs.skip(k as int)[0] == count,
                decreases end - pos,
            {
                if !matches!(cells[pos], PuzzleCell::Full) {
                    proof {
                        assert(here[pos - first] == line[pos as int]);

                    }
                    return false;
                }
                pos += 1;
            }
            proof {
                assert forall|j: int| end - count - first <= j < end - first implies here[j] by {
                    assert(here[j] == line[first + j]);
                }
                if end < n {
                    assert(here[end - first] == line[end as int]);
                }
            }
            if pos < n && matches!(cells[pos], PuzzleCell::Full) {
                return false;
            }
            k += 1;
        }
        let rest = &cells[pos..n];
        proof {
            assert(runs.skip(k as int).len() == 0);
            let tail = line.skip(pos as int);
            assert(tail.len() == rest@.len());
            assert forall|j: int| 0 <= j < rest@.len() implies (rest@[j] is Full) == tail[j] by {
                assert(rest@[j] == cells@[pos + j]);
                assert(tail[j] == line[pos + j]);
            }
            assert(decodes(tail, runs.skip(k as int)) == blank(tail));
            if blank(tail) {
                assert forall|j: int| 0 <= j < rest@.len() implies !(rest@[j] is Full) by {
                    assert(!tail[j]);
                }
            }
        }
        unmarked(rest)
    }

    /// Works out the clue of a line and which of its runs count as found.
    ///
    /// `answer` is the line of the picture and `cells` the marks placed on it
    /// so far. The result pairs each run of the answer with a flag. Every
    /// flag is set once the marks read as the clue. Before that, each closed
    /// group of `Full` cells is tried as each run of its length; a group
    /// that can be no run at all clears every flag, and otherwise a run is
    /// flagged when exactly one group can be it.
    pub fn line_count(&self, cells: &[PuzzleCell], answer: &[u8]) -> (clues: ArrayVec<
        (u8, bool),
        MAX_PUZZLE_SIZE,
    >)
        requires
            cells@.len() <= MAX_PUZZLE_SIZE,
            answer@.len() <= MAX_PUZZLE_SIZE,
        ensures
            shows(clue_items(clues), cells@, answer@),
    {
        let runs = encode_runs(answer);
        let solution = bytes_as_slice(&runs);
        let ghost target = run_lengths(ink(answer@));
        proof {
            lemma_run_lengths_positive(ink(answer@));
            lemma_run_lengths_len(ink(answer@));
            assert(solution@.len() == counts(solution@).len());
        }
        if self.is_solved(cells, solution) {
            return uniform(solution, true);
        }
        let mut possibilities = no_fits(solution);
        let n = cells.len();
        let mut i: usize = 0;
        while i < n
            invariant
                n == cells@.len(),
                n <= MAX_PUZZLE_SIZE,
                i <= n,
                target == run_lengths(ink(answer@)),
                target == counts(solution@),
                positive(target),
                !decodes(marks(cells@), target),
                solution@.len() <= MAX_PUZZLE_SIZE,
                byte_items(possibilities).len() == solution@.len(),
                forall|k: int|
                    0 <= k < solution@.len() ==> byte_items(possibilities)[k] == fit_count(
                        cells@,
                        target,
                        k,
                        i as int,
                    ),
                forall|a: int, b: int|
                    0 <= a < i && closed_group(cells@, a, b) ==> exists|k: int|
                        fits(cells@, target, a, b, k),
            decreases n - i,
        {
            let is_start_of_group = matches!(cells[i], PuzzleCell::Full) && (i == 0 || matches!(
                cells[i - 1],
                PuzzleCell::Cross
            ));
            if is_start_of_group {
                let start = i;
                i += 1;
                while i < n && matches!(cells[i], PuzzleCell::Full)
                    invariant
                        n == cells@.len(),
                        start < i <= n,
                        forall|j: int| start <= j < i ==> cells@[j] is Full,
                    decreases n - i,
                {
                    i += 1;
                }
                proof {
                    assert forall|a: int, b: int| start < a < i implies !closed_group(
                        cells@,
                        a,
                        b,
                    ) by {
                        assert(cells@[a - 1] is Full);
                    }
                    assert forall|b: int| closed_group(cells@, start as int, b) implies b == i by {
                        lemma_group_end(cells@, start as int, i as int, b);
                    }
                    assert forall|k: int| 0 <= k < solution@.len() implies fit_count(
                        cells@,
                        target,
                        k,
                        i as int,
                    ) == fit_count(cells@, target, k, start + 1) by {
                        lemma_fit_count_gap(cells@, target, k, start + 1, i as int);
                    }
                    assert forall|k: int| 0 <= k < solution@.len() implies fit_count(
                        cells@,
                        target,
                        k,
                        start as int,
                    ) < 255 by {
                        lemma_fit_count_bound(cells@, target, k, start as int);
                    }
                }
                if i < n && matches!(cells[i], PuzzleCell::Empty) {
                    assert(forall|b: int| !closed_group(cells@, start as int, b));
                    continue;
                }
                assert(closed_group(cells@, start as int, i as int));
                let something_is_valid = tally_group(cells, solution, start, i, &mut possibilities);
                if !something_is_valid {
                    assert(stuck(cells@, target));
                    return uniform(solution, false);
                }
                proof {
                    assert forall|k: int| 0 <= k < solution@.len() implies fit_at(
                        cells@,
                        target,
                        start as int,
                        k,
                    ) == fits(cells@, target, start as int, i as int, k) by {}
                }
            } else {
                assert(forall|b: int| !closed_group(cells@, i as int, b));
                i += 1;
            }
        }
        proof {
            if stuck(cells@, target) {
                let (a, b) = choose|a: int, b: int|
                    closed_group(cells@, a, b) && forall|k: int| !fits(cells@, target, a, b, k);
                assert(exists|k: int| fits(cells@, target, a, b, k));
            }
        }
        by_tally(solution, bytes_as_slice(&possibilities))
    }
}

} // verus!
