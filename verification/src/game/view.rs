//! What a game is, as plain values, and how a frame changes it.

use crate::bounded::MAX_PUZZLE_SIZE;
use crate::game::{Frame, Input, MAX_CELLS, PuzzleCell, PuzzleState, TEXT_TOP, Zoom};
use crate::line::{clues_of, marks, shows};
use crate::puzzle::{col_of, Puzzle, row_of};
use crate::state::Buttons;
use vstd::arithmetic::div_mod::{lemma_mod_add_multiples_vanish, lemma_mod_self_0, lemma_small_mod};
use vstd::prelude::*;

verus! {

/// The length of every list of a table of clues.
pub open spec fn lengths(table: Seq<Seq<(u8, bool)>>) -> Seq<nat> {
    Seq::new(table.len(), |i: int| table[i].len())
}

/// How large a puzzle is drawn that takes `size` cells with its clues: at
/// twice the size where it is under 24 cells wide and under 14 cells high.
pub open spec fn zoom_for(size: (int, int)) -> Zoom {
    if size.0 >= 24 || size.1 >= 14 {
        Zoom::One
    } else {
        Zoom::Two
    }
}

/// Where the top left corner of the grid lies on the screen, for a puzzle
/// that takes `size` cells with its clues: the whole is centred, with the
/// clues to the left of the grid and above it.
pub open spec fn place(size: (int, int), width: int, height: int) -> (int, int) {
    let cell_pixels = zoom_for(size).spec_cell_pixels() as int;
    let x_offset = (384 - size.0 * cell_pixels) / 2;
    let y_offset = (224 - size.1 * cell_pixels) / 2;
    (
        384 - cell_pixels - x_offset - width * cell_pixels,
        224 - cell_pixels - y_offset - height * cell_pixels,
    )
}

/// Whether a puzzle fits the screen: with its clues it is no higher than
/// the screen's 224 lines, the clues have two cells of room to the left of
/// the grid and above it, and alone the grid fits above the text that is
/// shown under the finished picture.
pub open spec fn fits_screen(puzzle: Puzzle) -> bool {
    let size = puzzle.size_cells();
    let cell_pixels = zoom_for(size).spec_cell_pixels();
    let corner = place(size, puzzle.width as int, puzzle.height as int);
    &&& size.1 * cell_pixels <= 224
    &&& corner.0 >= 2 * cell_pixels
    &&& corner.1 >= 2 * cell_pixels
    &&& puzzle.height * cell_pixels <= TEXT_TOP
}

/// The grid with its first `count` cells empty.
pub open spec fn cleared(cells: Seq<PuzzleCell>, count: int) -> Seq<PuzzleCell> {
    Seq::new(
        cells.len(),
        |i: int|
            if i < count {
                PuzzleCell::Empty
            } else {
                cells[i]
            },
    )
}

/// Whether the marks are the picture: wherever both have a cell, the
/// answer holds 1 under a `Full` mark and 0 under any other.
pub open spec fn completed(cells: Seq<PuzzleCell>, answer: Seq<u8>) -> bool {
    forall|i: int|
        0 <= i < answer.len() && i < cells.len() ==> answer[i] == if cells[i] is Full {
            1u8
        } else {
            0u8
        }
}

/// Whether the picture is complete does not depend on which of the cells
/// outside it are marked `Cross` and which are left `Empty`.
pub proof fn lemma_completed_by_marks(
    cells: Seq<PuzzleCell>,
    other: Seq<PuzzleCell>,
    answer: Seq<u8>,
)
    requires
        marks(cells) == marks(other),
    ensures
        completed(cells, answer) == completed(other, answer),
{
    assert(cells.len() == marks(cells).len());
    assert(other.len() == marks(other).len());
    assert forall|i: int| 0 <= i < cells.len() implies (cells[i] is Full) == (other[i] is Full) by {
        assert(marks(cells)[i] == (cells[i] is Full));
        assert(marks(other)[i] == (other[i] is Full));
    }
}

/// A cell of a grid lies inside the grid.
pub proof fn lemma_cell_index(width: int, height: int, row: int, col: int)
    requires
        0 <= row < height,
        0 <= col < width,
    ensures
        0 <= row * width + col < width * height,
        row * width + width <= width * height,
{
    assert(row * width + width <= width * height) by (nonlinear_arith)
        requires
            0 <= row < height,
            0 < width,
    ;
    assert(0 <= row * width) by (nonlinear_arith)
        requires
            0 <= row,
            0 < width,
    ;
}

/// A grid of at most the largest size has at most `MAX_CELLS` cells.
pub proof fn lemma_cell_count(width: int, height: int)
    requires
        0 <= width <= MAX_PUZZLE_SIZE,
        0 <= height <= MAX_PUZZLE_SIZE,
    ensures
        0 <= width * height <= MAX_CELLS,
{
    assert(0 <= width * height <= 400) by (nonlinear_arith)
        requires
            0 <= width <= 20,
            0 <= height <= 20,
    ;
}

/// The hours, minutes and seconds of a time in frames, at 50 frames to the
/// second.
pub open spec fn clock_of(timer: u32) -> (u32, u32, u32) {
    let seconds = timer / 50;
    ((seconds / 60 / 60) as u32, ((seconds / 60) % 60) as u32, (seconds % 60) as u32)
}

/// The position `delta` beside `position` on a line of `size` cells whose
/// ends are joined.
pub open spec fn wrap(position: int, delta: int, size: int) -> int {
    (position + delta) % size
}

/// A step along a line whose ends are joined leads to the cell beside, and
/// from either end to the other.
pub proof fn lemma_wrap(position: int, delta: int, size: int)
    requires
        0 <= position < size,
        -1 <= delta <= 1,
    ensures
        0 <= wrap(position, delta, size) < size,
        delta == 0 ==> wrap(position, delta, size) == position,
        delta == 1 ==> wrap(position, delta, size) == if position == size - 1 {
            0
        } else {
            position + 1
        },
        delta == -1 ==> wrap(position, delta, size) == if position == 0 {
            size - 1
        } else {
            position - 1
        },
{
    lemma_small_mod(position as nat, size as nat);
    if delta == 1 {
        if position == size - 1 {
            lemma_mod_self_0(size);
        } else {
            lemma_small_mod((position + 1) as nat, size as nat);
        }
    }
    if delta == -1 {
        if position == 0 {
            lemma_mod_add_multiples_vanish(-1, size);
            lemma_small_mod((size - 1) as nat, size as nat);
        } else {
            lemma_small_mod((position - 1) as nat, size as nat);
        }
    }
}

/// A cell is the only one of its row and column.
pub proof fn lemma_cell_unique(width: int, row: int, col: int, other_row: int, other_col: int)
    requires
        0 <= col < width,
        0 <= other_col < width,
        row * width + col == other_row * width + other_col,
    ensures
        row == other_row,
        col == other_col,
{
    if row < other_row {
        assert(row * width + width <= other_row * width) by (nonlinear_arith)
            requires
                row < other_row,
                0 < width,
        ;
    }
    if other_row < row {
        assert(other_row * width + width <= row * width) by (nonlinear_arith)
            requires
                other_row < row,
                0 < width,
        ;
    }
}

/// A mark on a cell leaves every other row as it was.
pub proof fn lemma_other_row(
    cells: Seq<PuzzleCell>,
    width: int,
    row: int,
    col: int,
    other: int,
    mark: PuzzleCell,
)
    requires
        0 <= col < width,
        0 <= row,
        0 <= other,
        other != row,
        row * width + col < cells.len(),
        other * width + width <= cells.len(),
    ensures
        row_of(cells.update(row * width + col, mark), width, other) == row_of(cells, width, other),
{
    let marked = cells.update(row * width + col, mark);
    assert forall|c: int| 0 <= c < width implies #[trigger] row_of(marked, width, other)[c]
        == row_of(cells, width, other)[c] by {
        assert(0 <= other * width) by (nonlinear_arith)
            requires
                0 <= other,
                0 <= width,
        ;
        if other * width + c == row * width + col {
            lemma_cell_unique(width, other, c, row, col);
        }
    }
    assert(row_of(marked, width, other) =~= row_of(cells, width, other));
}

/// A mark on a cell leaves every other column as it was.
pub proof fn lemma_other_col(
    cells: Seq<PuzzleCell>,
    width: int,
    height: int,
    row: int,
    col: int,
    other: int,
    mark: PuzzleCell,
)
    requires
        0 <= col < width,
        0 <= other < width,
        0 <= row,
        0 <= height,
        other != col,
        row * width + col < cells.len(),
        width * height <= cells.len(),
    ensures
        col_of(cells.update(row * width + col, mark), width, height, other) == col_of(
            cells,
            width,
            height,
            other,
        ),
{
    let marked = cells.update(row * width + col, mark);
    assert forall|r: int| 0 <= r < height implies #[trigger] col_of(
        marked,
        width,
        height,
        other,
    )[r] == col_of(cells, width, height, other)[r] by {
        lemma_cell_index(width, height, r, other);
        if r * width + other == row * width + col {
            lemma_cell_unique(width, r, other, row, col);
        }
    }
    assert(col_of(marked, width, height, other) =~= col_of(cells, width, height, other));
}

/// A frame changes no mark but the one under the cursor, and leaves the
/// puzzle as it is.
pub proof fn lemma_frame_marks_one_cell(game: GameView, input: Input)
    requires
        game.in_play(),
    ensures
        game.stepped(input).puzzle == game.puzzle,
        game.stepped(input).cells.len() == game.cells.len(),
        forall|i: int|
            0 <= i < game.cells.len() && i != game.stepped(input).cursor.1 * game.puzzle.width
                + game.stepped(input).cursor.0 ==> game.stepped(input).cells[i] == game.cells[i],
{
    if game.state == PuzzleState::Playing {
        let aimed = (GameView { timer: (game.timer + 1) as u32, ..game }).aimed(input);
        let width = game.puzzle.width as int;
        let height = game.puzzle.height as int;
        lemma_wrap(game.cursor.0 as int, -1, width);
        lemma_wrap(game.cursor.0 as int, 1, width);
        lemma_wrap(wrap(game.cursor.0 as int, -1, width), 1, width);
        lemma_wrap(game.cursor.1 as int, -1, height);
        lemma_wrap(game.cursor.1 as int, 1, height);
        lemma_wrap(wrap(game.cursor.1 as int, -1, height), 1, height);
        lemma_cell_index(width, height, aimed.cursor.1 as int, aimed.cursor.0 as int);
        lemma_cell_count(width, height);
    }
}

/// A game stays well formed while its puzzle, its marks, its clues, its
/// zoom and its cursor stay as they are and the grid stays on the screen.
pub proof fn lemma_same_grid(game: GameView, other: GameView)
    requires
        game.in_play(),
        other.puzzle == game.puzzle,
        other.cells == game.cells,
        other.row_numbers == game.row_numbers,
        other.col_numbers == game.col_numbers,
        other.zoom == game.zoom,
        other.cursor == game.cursor,
        other.puzzle_pos.0 <= 384,
        other.puzzle_pos.1 <= 224,
        other.state == PuzzleState::Playing ==> other.clues_in_sight(),
    ensures
        other.in_play(),
{
    assert forall|row: int| 0 <= row < other.puzzle.height implies shows(
        #[trigger] other.row_numbers[row],
        other.row_cells(row),
        other.row_answer(row),
    ) by {
        assert(shows(game.row_numbers[row], game.row_cells(row), game.row_answer(row)));
    }
    assert forall|col: int| 0 <= col < other.puzzle.width implies shows(
        #[trigger] other.col_numbers[col],
        other.col_cells(col),
        other.col_answer(col),
    ) by {
        assert(shows(game.col_numbers[col], game.col_cells(col), game.col_answer(col)));
    }
}

/// A product of two numbers within bounds is within the product of the
/// bounds.
pub proof fn lemma_product_bound(a: int, b: int, most_a: int, most_b: int)
    requires
        0 <= a <= most_a,
        0 <= b <= most_b,
    ensures
        0 <= a * b <= most_a * most_b,
{
    assert(0 <= a * b <= most_a * most_b) by (nonlinear_arith)
        requires
            0 <= a <= most_a,
            0 <= b <= most_b,
    ;
}

/// What a game holds, as plain values.
pub struct GameView {
    pub puzzle: Puzzle,
    pub cells: Seq<PuzzleCell>,
    pub row_numbers: Seq<Seq<(u8, bool)>>,
    pub col_numbers: Seq<Seq<(u8, bool)>>,
    pub puzzle_pos: (usize, usize),
    pub zoom: Zoom,
    pub cursor: (usize, usize),
    pub cursor_behavior: Option<PuzzleCell>,
    pub cursor_delay: u8,
    pub state: PuzzleState,
    pub timer: u32,
}

impl GameView {
    /// The marks on row `row`.
    pub open spec fn row_cells(&self, row: int) -> Seq<PuzzleCell> {
        row_of(self.cells, self.puzzle.width as int, row)
    }

    /// The picture's row `row`.
    pub open spec fn row_answer(&self, row: int) -> Seq<u8> {
        row_of(self.puzzle.cells@, self.puzzle.width as int, row)
    }

    /// The marks on column `col`.
    pub open spec fn col_cells(&self, col: int) -> Seq<PuzzleCell> {
        col_of(self.cells, self.puzzle.width as int, self.puzzle.height as int, col)
    }

    /// The picture's column `col`.
    pub open spec fn col_answer(&self, col: int) -> Seq<u8> {
        col_of(self.puzzle.cells@, self.puzzle.width as int, self.puzzle.height as int, col)
    }

    /// Whether the grid holds a puzzle of a size that it has room for.
    pub open spec fn grid_wf(&self) -> bool {
        &&& self.puzzle.wf()
        &&& self.cells.len() == MAX_CELLS
    }

    /// Whether the game holds a puzzle that fits the grid and the screen,
    /// with its clues as they are to be shown.
    pub open spec fn wf(&self) -> bool {
        &&& self.grid_wf()
        &&& self.clues_wf()
        &&& self.layout_wf()
    }

    /// Whether the game holds a puzzle with cells, and the cursor is on one
    /// of them.
    pub open spec fn in_play(&self) -> bool {
        &&& self.wf()
        &&& self.cursor.0 < self.puzzle.width
        &&& self.cursor.1 < self.puzzle.height
    }

    /// Where the cursor is after the directions in `held` have acted on it,
    /// left before right and up before down. While the cursor rests after
    /// a move, none acts.
    pub open spec fn steered(&self, held: Buttons) -> (usize, usize) {
        if self.cursor_delay != 0 {
            self.cursor
        } else {
            let width = self.puzzle.width as int;
            let height = self.puzzle.height as int;
            let left = if held.ll {
                wrap(self.cursor.0 as int, -1, width)
            } else {
                self.cursor.0 as int
            };
            let right = if held.lr {
                wrap(left, 1, width)
            } else {
                left
            };
            let up = if held.lu {
                wrap(self.cursor.1 as int, -1, height)
            } else {
                self.cursor.1 as int
            };
            let down = if held.ld {
                wrap(up, 1, height)
            } else {
                up
            };
            (right as usize, down as usize)
        }
    }

    /// Whether a direction in `held` moves the cursor to another cell.
    pub open spec fn cursor_moves(&self, held: Buttons) -> bool {
        &&& self.cursor_delay == 0
        &&& {
            ||| (held.ll || held.lr) && self.puzzle.width > 1
            ||| (held.lu || held.ld) && self.puzzle.height > 1
        }
    }

    /// What the cursor marks cells with in a frame in which it stands on
    /// `cell`. A press of B starts crossing cells out, or clearing them
    /// where the cell is crossed out; a press of A starts filling cells, or
    /// clearing them where the cell is filled, and counts before B. With
    /// neither button down the cursor marks nothing.
    pub open spec fn brush(&self, cell: PuzzleCell, pressed: Buttons, held: Buttons) -> Option<
        PuzzleCell,
    > {
        let crossing = if pressed.b {
            Some(
                if cell is Cross {
                    PuzzleCell::Empty
                } else {
                    PuzzleCell::Cross
                },
            )
        } else {
            self.cursor_behavior
        };
        let filling = if pressed.a {
            Some(
                if cell is Full {
                    PuzzleCell::Empty
                } else {
                    PuzzleCell::Full
                },
            )
        } else {
            crossing
        };
        if !held.a && !held.b {
            None
        } else {
            filling
        }
    }

    /// The game after the cursor has marked its cell with `mark`: the clues
    /// of the cell's row and column are worked out anew, and a complete
    /// picture ends the play.
    pub open spec fn marked(&self, mark: PuzzleCell) -> GameView {
        let row = self.cursor.1 as int;
        let col = self.cursor.0 as int;
        let cells = self.cells.update(row * self.puzzle.width + col, mark);
        let marked = GameView { cells, ..*self };
        GameView {
            row_numbers: self.row_numbers.update(
                row,
                clues_of(marked.row_cells(row), marked.row_answer(row)),
            ),
            col_numbers: self.col_numbers.update(
                col,
                clues_of(marked.col_cells(col), marked.col_answer(col)),
            ),
            state: if completed(cells, self.puzzle.cells@) {
                PuzzleState::Moving
            } else {
                self.state
            },
            ..marked
        }
    }

    /// The game after the directions and the buttons of a frame of play have
    /// acted on the cursor: it has moved, rests for four frames after a move,
    /// and has taken up what it marks cells with.
    pub open spec fn aimed(&self, input: Input) -> GameView {
        let cursor = self.steered(input.directions_held);
        let index = cursor.1 * self.puzzle.width + cursor.0;
        GameView {
            cursor,
            cursor_delay: if self.cursor_moves(input.directions_held) {
                4
            } else if self.cursor_delay > 0 {
                (self.cursor_delay - 1) as u8
            } else {
                0
            },
            cursor_behavior: self.brush(
                self.cells[index],
                input.buttons_pressed,
                input.buttons_held,
            ),
            ..*self
        }
    }

    /// The game after the cursor has marked its cell, where it marks.
    pub open spec fn painted(&self) -> GameView {
        match self.cursor_behavior {
            None => *self,
            Some(mark) => self.marked(mark),
        }
    }

    /// The game after a frame of play: the clock has gone on by a frame,
    /// the input has acted on the cursor, and the cursor has marked its
    /// cell.
    pub open spec fn played(&self, input: Input) -> GameView {
        (GameView { timer: (self.timer + 1) as u32, ..*self }).aimed(input).painted()
    }

    /// The game after a frame in which the finished picture moves to the
    /// middle of the space above the text: a pixel to the left while it is
    /// right of its place, else a pixel up while it is below it, and once
    /// it has arrived the text is shown.
    pub open spec fn slid(&self) -> GameView {
        let cell_pixels = self.zoom.spec_cell_pixels();
        let target_left = (384 - self.puzzle.width * cell_pixels) / 2;
        let target_top = (TEXT_TOP - self.puzzle.height * cell_pixels) / 2;
        if self.puzzle_pos.0 > target_left {
            GameView { puzzle_pos: ((self.puzzle_pos.0 - 1) as usize, self.puzzle_pos.1), ..*self }
        } else if self.puzzle_pos.1 > target_top {
            GameView { puzzle_pos: (self.puzzle_pos.0, (self.puzzle_pos.1 - 1) as usize), ..*self }
        } else {
            GameView { state: PuzzleState::ShowingText, ..*self }
        }
    }

    /// The game after one frame with the input `input`.
    pub open spec fn stepped(&self, input: Input) -> GameView {
        match self.state {
            PuzzleState::Playing => self.played(input),
            PuzzleState::Moving => self.slid(),
            PuzzleState::ShowingText => *self,
        }
    }

    /// What one frame with the input `input` asks of the code around the
    /// game. In play, the clock is to be shown anew every 50 frames. While
    /// the text is shown it moves on, and a press of A or of Start ends
    /// the game with the time on the clock.
    pub open spec fn frame(&self, input: Input) -> Frame {
        match self.state {
            PuzzleState::Playing => Frame {
                result: None,
                clock: if (self.timer + 1) % 50 == 0 {
                    Some(clock_of((self.timer + 1) as u32))
                } else {
                    None
                },
                text_moves: false,
            },
            PuzzleState::Moving => Frame { result: None, clock: None, text_moves: false },
            PuzzleState::ShowingText => Frame {
                result: if input.buttons_pressed.a || input.buttons_pressed.sta {
                    Some(self.timer)
                } else {
                    None
                },
                clock: None,
                text_moves: true,
            },
        }
    }

    /// Whether the grid is drawn small enough to fit above the text that is
    /// shown under the finished picture.
    pub open spec fn layout_wf(&self) -> bool {
        &&& self.puzzle.height * self.zoom.spec_cell_pixels() <= TEXT_TOP
        &&& self.puzzle_pos.0 <= 384
        &&& self.puzzle_pos.1 <= 224
        &&& self.state == PuzzleState::Playing ==> self.clues_in_sight()
    }

    /// Whether the clues have room on the screen, to the left of the grid
    /// and above it.
    pub open spec fn clues_in_sight(&self) -> bool {
        &&& self.puzzle_pos.0 >= 2 * self.zoom.spec_cell_pixels()
        &&& self.puzzle_pos.1 >= 2 * self.zoom.spec_cell_pixels()
    }

    /// Whether every clue beside the grid is the clue of its line under the
    /// marks as they stand.
    pub open spec fn clues_wf(&self) -> bool {
        &&& self.row_numbers.len() == self.puzzle.height
        &&& self.col_numbers.len() == self.puzzle.width
        &&& forall|row: int|
            0 <= row < self.puzzle.height ==> shows(
                #[trigger] self.row_numbers[row],
                self.row_cells(row),
                self.row_answer(row),
            )
        &&& forall|col: int|
            0 <= col < self.puzzle.width ==> shows(
                #[trigger] self.col_numbers[col],
                self.col_cells(col),
                self.col_answer(col),
            )
    }
}

} // verus!
