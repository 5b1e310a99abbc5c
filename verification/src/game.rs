pub mod assets;
pub mod clues;
pub mod megu;
pub mod pause;
pub mod scene;
pub mod view;

use crate::bounded::{
    byte_items, bytes_as_slice, bytes_new, bytes_push, cell_items, cells_as_slice, cells_new,
    cells_push, clue_items, clues_as_slice, MAX_PUZZLE_SIZE, table_items, tables_as_slice,
    tables_new, tables_push, tables_set,
};
use crate::display::{Sprite, World, WorldMode};
use crate::game::scene::{TextSize, BG};
pub use crate::game::assets::GameAssets;
pub use crate::game::clues::{encode_runs, is_valid};
use crate::game::view::{
    cleared, clock_of, completed, fits_screen, GameView, lemma_cell_count, lemma_cell_index,
    lemma_other_col, lemma_other_row, lemma_product_bound, lemma_same_grid, lemma_wrap, lengths,
    place, wrap, zoom_for,
};
use crate::line::{
    counts, ink, lemma_run_lengths_len, lemma_shows_bound, lemma_shows_clues_of, shows,
};
use crate::puzzle::{empty, greatest, line_of, Puzzle};
use crate::state::Buttons;
use arrayvec::ArrayVec;
use vstd::prelude::*;

verus! {

/// What the player has marked on one cell of the grid.
#[derive(Debug, Clone, Copy, PartialEq, Eq, Structural)]
pub enum PuzzleCell {
    /// Not decided yet.
    Empty,
    /// Marked as not part of the picture.
    Cross,
    /// Marked as part of the picture.
    Full,
}

/// How large the grid is drawn.
#[derive(Debug, Clone, Copy, PartialEq, Eq, Structural)]
pub enum Zoom {
    One,
    Two,
}

impl Zoom {
    /// The side of a cell on the screen, in pixels.
    pub fn cell_pixels(&self) -> (pixels: usize)
        ensures
            pixels == self.spec_cell_pixels(),
    {
        match self {
            Self::One => 8,
            Self::Two => 16,
        }
    }

    /// The side of a cell on the screen, in pixels.
    pub open spec fn spec_cell_pixels(&self) -> usize {
        match self {
            Self::One => 8,
            Self::Two => 16,
        }
    }
}

/// What a game is doing: the player is solving, or the finished picture is
/// moving to its place, or it is shown with its name.
#[derive(Debug, Clone, Copy, PartialEq, Eq, Structural)]
pub enum PuzzleState {
    Playing,
    Moving,
    ShowingText,
}

/// The number of cells of the largest grid.
pub const MAX_CELLS: usize = MAX_PUZZLE_SIZE * MAX_PUZZLE_SIZE;

/// The line of the screen at which the text under a finished picture
/// starts.
pub const TEXT_TOP: usize = 184;

/// Decides whether a puzzle can be played: whether it is well formed and
/// fits the screen.
pub fn can_load(puzzle: &Puzzle) -> (ok: bool)
    ensures
        ok == (puzzle.wf() && fits_screen(*puzzle)),
{
    let width = puzzle.width;
    let height = puzzle.height;
    if width > MAX_PUZZLE_SIZE || height > MAX_PUZZLE_SIZE {
        return false;
    }
    proof {
        lemma_cell_count(width as int, height as int);
    }
    if puzzle.cells.len() != width * height {
        return false;
    }
    let ghost row_runs = puzzle.row_runs();
    let mut most_in_rows: usize = 0;
    let mut row: usize = 0;
    while row < height
        invariant
            puzzle.wf(),
            width == puzzle.width,
            height == puzzle.height,
            row_runs == puzzle.row_runs(),
            row <= height,
            most_in_rows == greatest(row_runs.take(row as int)),
            most_in_rows <= MAX_PUZZLE_SIZE,
        decreases height - row,
    {
        proof {
            if width > 0 {
                lemma_cell_index(width as int, height as int, row as int, 0);
            } else {
                assert(row * width == 0) by (nonlinear_arith)
                    requires
                        width == 0,
                ;
            }
            lemma_cell_count(width as int, row as int);
            lemma_cell_count(width as int, height as int);
        }
        let line = &puzzle.cells[row * width..row * width + width];
        let runs = encode_runs(line);
        let count = bytes_as_slice(&runs).len();
        proof {
            assert(line@ =~= puzzle.row(row as int));
            lemma_run_lengths_len(ink(line@));
            assert(counts(byte_items(runs)).len() == count);
            assert(row_runs.take(row + 1).drop_last() =~= row_runs.take(row as int));
            assert(row_runs.take(row + 1).last() == count);
        }
        if count > most_in_rows {
            most_in_rows = count;
        }
        row += 1;
    }
    let ghost col_runs = puzzle.col_runs();
    let mut most_in_cols: usize = 0;
    let mut col: usize = 0;
    while col < width
        invariant
            puzzle.wf(),
            width == puzzle.width,
            height == puzzle.height,
            col_runs == puzzle.col_runs(),
            col <= width,
            most_in_cols == greatest(col_runs.take(col as int)),
            most_in_cols <= MAX_PUZZLE_SIZE,
        decreases width - col,
    {
        let mut line = bytes_new();
        let mut k: usize = 0;
        while k < height
            invariant
                puzzle.wf(),
                width == puzzle.width,
                height == puzzle.height,
                col < width,
                k <= height,
                byte_items(line) == line_of(puzzle.cells@, col as int, width as int, k as int),
            decreases height - k,
        {
            proof {
                lemma_cell_index(width as int, height as int, k as int, col as int);
                lemma_cell_count(width as int, height as int);
                assert(line_of(puzzle.cells@, col as int, width as int, k as int).push(
                    puzzle.cells@[col + k * width],
                ) =~= line_of(puzzle.cells@, col as int, width as int, k + 1));
            }
            bytes_push(&mut line, puzzle.cells[col + k * width]);
            k += 1;
        }
        let runs = encode_runs(bytes_as_slice(&line));
        let count = bytes_as_slice(&runs).len();
        proof {
            lemma_run_lengths_len(ink(byte_items(line)));
            assert(counts(byte_items(runs)).len() == count);
            assert(col_runs.take(col + 1).drop_last() =~= col_runs.take(col as int));
            assert(col_runs.take(col + 1).last() == count);
        }
        if count > most_in_cols {
            most_in_cols = count;
        }
        col += 1;
    }
    proof {
        assert(row_runs.take(row as int) =~= row_runs);
        assert(col_runs.take(col as int) =~= col_runs);
    }
    let width_cells = width + 1 + most_in_rows;
    let height_cells = height + 1 + most_in_cols;
    let cell_pixels: usize = if width_cells >= 24 || height_cells >= 14 {
        8
    } else {
        16
    };
    let cells_across = width_cells * cell_pixels;
    let cells_down = height_cells * cell_pixels;
    let grid_across = width * cell_pixels;
    let grid_down = height * cell_pixels;
    if cells_down > 224 || grid_down > TEXT_TOP {
        return false;
    }
    let x_offset = (384 - cells_across) / 2;
    let y_offset = (224 - cells_down) / 2;
    let puzzle_left = 384 - cell_pixels - x_offset - grid_across;
    let puzzle_top = 224 - cell_pixels - y_offset - grid_down;
    puzzle_left >= 2 * cell_pixels && puzzle_top >= 2 * cell_pixels
}

/// How a game has ended.
#[derive(Debug, Clone, Copy, PartialEq, Eq, Structural)]
pub enum GameResult {
    /// The puzzle was solved, in this many frames.
    Won(u32),
    /// The player has left the puzzle.
    Quit,
}

/// What the pad gives a game in one frame: the directions that act, the
/// buttons that went down, and the buttons that are down.
#[derive(Debug, Clone, Copy, PartialEq, Eq, Structural)]
pub struct Input {
    pub directions_held: Buttons,
    pub buttons_pressed: Buttons,
    pub buttons_held: Buttons,
}

/// What a frame of a game asks of the code around it.
#[derive(Debug, Clone, Copy)]
pub struct Frame {
    /// The time in which the puzzle was solved, once the player has seen
    /// the finished picture and the game is over.
    pub result: Option<u32>,
    /// The hours, minutes and seconds that the clock is to show from now
    /// on, in a frame in which they change.
    pub clock: Option<(u32, u32, u32)>,
    /// Whether the text under the finished picture moves on.
    pub text_moves: bool,
}

/// The state of a puzzle that is being played: the picture, the player's
/// marks, the clues as they are shown, the cursor and the clock.
pub struct Game {
    puzzle: Puzzle,
    cells: [PuzzleCell; MAX_CELLS],
    row_numbers: ArrayVec<ArrayVec<(u8, bool), MAX_PUZZLE_SIZE>, MAX_PUZZLE_SIZE>,
    col_numbers: ArrayVec<ArrayVec<(u8, bool), MAX_PUZZLE_SIZE>, MAX_PUZZLE_SIZE>,
    puzzle_pos: (usize, usize),
    zoom: Zoom,
    cursor: (usize, usize),
    cursor_behavior: Option<PuzzleCell>,
    cursor_delay: u8,
    state: PuzzleState,
    timer: u32,
}

impl View for Game {
    type V = GameView;

    closed spec fn view(&self) -> GameView {
        GameView {
            puzzle: self.puzzle,
            cells: self.cells@,
            row_numbers: table_items(self.row_numbers),
            col_numbers: table_items(self.col_numbers),
            puzzle_pos: self.puzzle_pos,
            zoom: self.zoom,
            cursor: self.cursor,
            cursor_behavior: self.cursor_behavior,
            cursor_delay: self.cursor_delay,
            state: self.state,
            timer: self.timer,
        }
    }
}

impl Game {
    /// A game without a puzzle: an empty grid, nothing marked, the clock at
    /// zero.
    pub fn new() -> (game: Game)
        ensures
            game@.puzzle.width == 0,
            game@.puzzle.height == 0,
            game@.puzzle.cells@.len() == 0,
            game@.cells == Seq::new(MAX_CELLS as nat, |i: int| PuzzleCell::Empty),
            game@.row_numbers.len() == 0,
            game@.col_numbers.len() == 0,
            game@.puzzle_pos == (192usize, 112usize),
            game@.zoom == Zoom::One,
            game@.cursor == (0usize, 0usize),
            game@.cursor_behavior.is_none(),
            game@.cursor_delay == 0,
            game@.state == PuzzleState::Playing,
            game@.timer == 0,
            game@.wf(),
    {
        let game = Self {
            puzzle: empty(),
            cells: [PuzzleCell::Empty;MAX_CELLS],
            row_numbers: tables_new(),
            col_numbers: tables_new(),
            puzzle_pos: (192, 112),
            zoom: Zoom::One,
            cursor: (0, 0),
            cursor_behavior: None,
            cursor_delay: 0,
            state: PuzzleState::Playing,
            timer: 0,
        };
        assert(game@.cells =~= Seq::new(MAX_CELLS as nat, |i: int| PuzzleCell::Empty));
        game
    }

    /// Takes up `puzzle` for a new game: no cell is marked, the clues are
    /// those of the unmarked lines, the grid is placed on the screen with
    /// room for its clues, the cursor is at the top left and the clock at
    /// zero.
    pub fn load_puzzle(&mut self, puzzle: &'static Puzzle)
        requires
            puzzle.wf(),
            fits_screen(*puzzle),
        ensures
            final(self)@.puzzle == *puzzle,
            final(self)@.cells == cleared(old(self)@.cells, puzzle.width * puzzle.height),
            final(self)@.wf(),
            puzzle.width > 0 && puzzle.height > 0 ==> final(self)@.in_play(),
            final(self)@.zoom == zoom_for(puzzle.size_cells()),
            final(self)@.puzzle_pos.0 == place(
                puzzle.size_cells(),
                puzzle.width as int,
                puzzle.height as int,
            ).0,
            final(self)@.puzzle_pos.1 == place(
                puzzle.size_cells(),
                puzzle.width as int,
                puzzle.height as int,
            ).1,
            final(self)@.cursor == (0usize, 0usize),
            final(self)@.cursor_behavior.is_none(),
            final(self)@.cursor_delay == 0,
            final(self)@.state == PuzzleState::Playing,
            final(self)@.timer == 0,
    {
        self.puzzle = *puzzle;
        let width = puzzle.width;
        let height = puzzle.height;
        proof {
            lemma_cell_count(width as int, height as int);
        }
        let count = width * height;
        let mut i: usize = 0;
        while i < count
            invariant
                i <= count <= MAX_CELLS,
                self.puzzle == *puzzle,
                self.cells@ == cleared(old(self)@.cells, i as int),
            decreases count - i,
        {
            self.cells[i] = PuzzleCell::Empty;
            i += 1;
            assert(self.cells@ =~= cleared(old(self)@.cells, i as int));
        }
        let mut row_numbers = tables_new();
        let mut row: usize = 0;
        while row < height
            invariant
                row <= height,
                height == puzzle.height,
                self@.grid_wf(),
                self.puzzle == *puzzle,
                self.cells@ == cleared(old(self)@.cells, count as int),
                table_items(row_numbers).len() == row,
                forall|r: int|
                    0 <= r < row ==> shows(
                        #[trigger] table_items(row_numbers)[r],
                        self@.row_cells(r),
                        self@.row_answer(r),
                    ),
            decreases height - row,
        {
            let clues = self.row_count(row);
            tables_push(&mut row_numbers, clues);
            row += 1;
        }
        let mut col_numbers = tables_new();
        let mut col: usize = 0;
        while col < width
            invariant
                col <= width,
                width == puzzle.width,
                self@.grid_wf(),
                self.puzzle == *puzzle,
                self.cells@ == cleared(old(self)@.cells, count as int),
                table_items(col_numbers).len() == col,
                forall|c: int|
                    0 <= c < col ==> shows(
                        #[trigger] table_items(col_numbers)[c],
                        self@.col_cells(c),
                        self@.col_answer(c),
                    ),
            decreases width - col,
        {
            let clues = self.col_count(col);
            tables_push(&mut col_numbers, clues);
            col += 1;
        }
        self.row_numbers = row_numbers;
        self.col_numbers = col_numbers;
        assert(self@.clues_wf());

        let (width_cells, height_cells) = self.size_cells();
        proof {
            assert(lengths(self@.row_numbers) =~= puzzle.row_runs());
            assert(lengths(self@.col_numbers) =~= puzzle.col_runs());
        }
        self.zoom = if width_cells >= 24 || height_cells >= 14 {
            Zoom::One
        } else {
            Zoom::Two
        };
        let cell_pixels = self.zoom.cell_pixels();
        let ghost size = puzzle.size_cells();
        assert(size == (width_cells as int, height_cells as int));
        assert(self.zoom == zoom_for(size));
        assert(size.1 * cell_pixels <= 224);
        assert(width_cells >= width + 1);
        assert(height_cells >= height + 1);
        proof {
            if cell_pixels == 8 {
                assert(width_cells * cell_pixels == width_cells * 8);
                assert(height_cells * cell_pixels == height_cells * 8);
                assert(width * cell_pixels == width * 8);
                assert(height * cell_pixels == height * 8);
            } else {
                assert(width_cells * cell_pixels == width_cells * 16);
                assert(height_cells * cell_pixels == height_cells * 16);
                assert(width * cell_pixels == width * 16);
                assert(height * cell_pixels == height * 16);
            }
        }
        let cells_across = width_cells * cell_pixels;
        let cells_down = height_cells * cell_pixels;
        let grid_across = width * cell_pixels;
        let grid_down = height * cell_pixels;
        assert(grid_across + cell_pixels <= cells_across <= 384);
        assert(grid_down + cell_pixels <= cells_down <= 224);
        let x_offset = (384 - cells_across) / 2;
        let y_offset = (224 - cells_down) / 2;

        let puzzle_right = 384 - cell_pixels - x_offset;
        let puzzle_bottom = 224 - cell_pixels - y_offset;
        let puzzle_left = puzzle_right - grid_across;
        let puzzle_top = puzzle_bottom - grid_down;
        self.puzzle_pos = (puzzle_left, puzzle_top);

        self.cursor = (0, 0);
        self.cursor_behavior = None;
        self.cursor_delay = 0;
        self.state = PuzzleState::Playing;
        self.timer = 0;
    }

    /// The longest list of a table of clues.
    fn longest(table: &ArrayVec<ArrayVec<(u8, bool), MAX_PUZZLE_SIZE>, MAX_PUZZLE_SIZE>) -> (most:
        usize)
        ensures
            most == greatest(lengths(table_items(*table))),
            most <= MAX_PUZZLE_SIZE,
    {
        let lists = tables_as_slice(table);
        let ghost numbers = lengths(table_items(*table));
        let mut most: usize = 0;
        let mut i: usize = 0;
        while i < lists.len()
            invariant
                i <= lists@.len(),
                lists@.len() == table_items(*table).len(),
                forall|j: int|
                    0 <= j < lists@.len() ==> clue_items(#[trigger] lists@[j]) == table_items(
                        *table,
                    )[j],
                numbers == lengths(table_items(*table)),
                most == greatest(numbers.take(i as int)),
                most <= MAX_PUZZLE_SIZE,
            decreases lists@.len() - i,
        {
            let len = clues_as_slice(&lists[i]).len();
            proof {
                assert(numbers.take(i + 1).drop_last() =~= numbers.take(i as int));
                assert(numbers.take(i + 1).last() == len);
            }
            if len > most {
                most = len;
            }
            i += 1;
        }
        proof {
            assert(numbers.take(i as int) =~= numbers);
        }
        most
    }

    /// How many cells the puzzle takes on the screen with its clues, across
    /// and down: the grid, a cell of margin, and the longest clue.
    pub fn size_cells(&self) -> (size: (usize, usize))
        requires
            self@.puzzle.wf(),
        ensures
            size.0 == self@.puzzle.width + 1 + greatest(lengths(self@.row_numbers)),
            size.1 == self@.puzzle.height + 1 + greatest(lengths(self@.col_numbers)),
            size.0 <= 2 * MAX_PUZZLE_SIZE + 1,
            size.1 <= 2 * MAX_PUZZLE_SIZE + 1,
    {
        let width = self.puzzle.width + 1 + Self::longest(&self.row_numbers);
        let height = self.puzzle.height + 1 + Self::longest(&self.col_numbers);
        (width, height)
    }

    /// The puzzle that is played.
    pub fn puzzle(&self) -> (puzzle: &Puzzle)
        ensures
            *puzzle == self@.puzzle,
    {
        &self.puzzle
    }

    /// The marks on the grid, row by row. The grid has room for the
    /// largest puzzle; a smaller one takes its first cells.
    pub fn cells(&self) -> (cells: &[PuzzleCell; MAX_CELLS])
        ensures
            cells@ == self@.cells,
    {
        &self.cells
    }

    /// The clues of the rows as they are shown, top to bottom.
    pub fn row_numbers(&self) -> (table: &ArrayVec<
        ArrayVec<(u8, bool), MAX_PUZZLE_SIZE>,
        MAX_PUZZLE_SIZE,
    >)
        ensures
            table_items(*table) == self@.row_numbers,
    {
        &self.row_numbers
    }

    /// The clues of the columns as they are shown, left to right.
    pub fn col_numbers(&self) -> (table: &ArrayVec<
        ArrayVec<(u8, bool), MAX_PUZZLE_SIZE>,
        MAX_PUZZLE_SIZE,
    >)
        ensures
            table_items(*table) == self@.col_numbers,
    {
        &self.col_numbers
    }

    /// Where the top left corner of the grid lies on the screen.
    pub fn puzzle_pos(&self) -> (pos: (usize, usize))
        ensures
            pos == self@.puzzle_pos,
    {
        self.puzzle_pos
    }

    /// How large the grid is drawn.
    pub fn zoom(&self) -> (zoom: Zoom)
        ensures
            zoom == self@.zoom,
    {
        self.zoom
    }

    /// The column and the row of the cell under the cursor.
    pub fn cursor(&self) -> (cursor: (usize, usize))
        ensures
            cursor == self@.cursor,
    {
        self.cursor
    }

    /// What the game is doing.
    pub fn state(&self) -> (state: PuzzleState)
        ensures
            state == self@.state,
    {
        self.state
    }

    /// The frames of play so far.
    pub fn timer(&self) -> (timer: u32)
        ensures
            timer == self@.timer,
    {
        self.timer
    }

    /// The pictures that show the game, in the order in which they are to
    /// be drawn, taken from the table of pictures for the game's zoom.
    pub fn draw<T>(&self, assets_1x: &GameAssets<T>, assets_2x: &GameAssets<T>) -> (sprites: Vec<
        Sprite<T>,
    >)
        requires
            self@.in_play(),
        ensures
            sprites@ == self@.sprites(
                match self@.zoom {
                    Zoom::One => *assets_1x,
                    Zoom::Two => *assets_2x,
                },
            ),
    {
        let mut sprites = Vec::new();
        let (puzzle_left, puzzle_top) = self.puzzle_pos;
        let (cell_pixels, game_assets): (usize, &GameAssets<T>) = match self.zoom {
            Zoom::One => (8, assets_1x),
            Zoom::Two => (16, assets_2x),
        };
        let width = self.puzzle.width;
        let height = self.puzzle.height;
        let showing_text = matches!(self.state, PuzzleState::ShowingText);
        let playing = matches!(self.state, PuzzleState::Playing);
        proof {
            lemma_cell_count(width as int, height as int);
            lemma_product_bound(width as int, cell_pixels as int, 20, 16);
            lemma_product_bound(height as int, cell_pixels as int, 20, 16);
        }
        let puzzle_right = puzzle_left + (width * cell_pixels);
        let puzzle_bottom = puzzle_top + (height * cell_pixels);

        let mut row: usize = 0;
        while row < height
            invariant
                self@.in_play(),
                width == self@.puzzle.width,
                height == self@.puzzle.height,
                (puzzle_left, puzzle_top) == self@.puzzle_pos,
                cell_pixels == self@.zoom.spec_cell_pixels(),
                puzzle_right == puzzle_left + width * cell_pixels,
                showing_text == (self@.state == PuzzleState::ShowingText),
                row <= height,
                sprites@ == self@.grid_sprites(*game_assets, row as int),
            decreases height - row,
        {
            let ghost before = sprites@;
            proof {
                lemma_product_bound(row as int, cell_pixels as int, 20, 16);
            }
            let y = (puzzle_top + row * cell_pixels) as i16;
            let mut col: usize = 0;
            while col < width
                invariant
                    self@.in_play(),
                    width == self@.puzzle.width,
                    height == self@.puzzle.height,
                    (puzzle_left, puzzle_top) == self@.puzzle_pos,
                    cell_pixels == self@.zoom.spec_cell_pixels(),
                    showing_text == (self@.state == PuzzleState::ShowingText),
                    row < height,
                    col <= width,
                    y == (puzzle_top + row * cell_pixels) as i16,
                    sprites@ == before + self@.cell_sprites(*game_assets, row as int, col as int),
                decreases width - col,
            {
                let col_bright = col > 0 && col % 5 == 0;
                let row_bright = row > 0 && row % 5 == 0;
                proof {
                    lemma_cell_index(width as int, height as int, row as int, col as int);
                    lemma_cell_count(width as int, height as int);
                    lemma_product_bound(col as int, cell_pixels as int, 20, 16);
                }
                let index = row * width + col;
                let dst = ((puzzle_left + col * cell_pixels) as i16, y);
                let ghost cells = self@.cell_sprites(*game_assets, row as int, col as int);
                if showing_text {
                    let answer = self.puzzle.cells[index];
                    if answer == 1 {
                        let image = game_assets.square_final();
                        sprites.push(Sprite { image, dst });
                        assert(sprites@ =~= before + cells.push(Sprite { image, dst }));
                    }
                } else {
                    let cell = self.cells[index];
                    let image = game_assets.square(col_bright, row_bright, cell);
                    sprites.push(Sprite { image, dst });
                    assert(sprites@ =~= before + cells.push(Sprite { image, dst }));
                }
                col += 1;
            }
            if !showing_text {
                let dst = (puzzle_right as i16, y);
                sprites.push(Sprite { image: game_assets.square_right(), dst });
            }
            row += 1;
        }
        if !showing_text {
            let ghost grid = sprites@;
            proof {
                lemma_product_bound(height as int, cell_pixels as int, 20, 16);
            }
            let y = puzzle_bottom as i16;
            let mut col: usize = 0;
            while col < width
                invariant
                    self@.in_play(),
                    width == self@.puzzle.width,
                    height == self@.puzzle.height,
                    (puzzle_left, puzzle_top) == self@.puzzle_pos,
                    cell_pixels == self@.zoom.spec_cell_pixels(),
                    puzzle_bottom == puzzle_top + height * cell_pixels,
                    y == puzzle_bottom as i16,
                    col <= width,
                    sprites@ == grid + self@.edge_sprites(*game_assets, col as int),
                decreases width - col,
            {
                proof {
                    lemma_product_bound(col as int, cell_pixels as int, 20, 16);
                }
                let dst = ((puzzle_left + col * cell_pixels) as i16, y);
                sprites.push(Sprite { image: game_assets.square_bottom(), dst });
                col += 1;
                assert(sprites@ =~= grid + self@.edge_sprites(*game_assets, col as int));
            }
            sprites.push(
                Sprite { image: game_assets.square_bottom_right(), dst: (puzzle_right as i16, y) },
            );
        }
        if playing {
            proof {
                lemma_product_bound(self.cursor.0 as int, cell_pixels as int, 20, 16);
                lemma_product_bound(self.cursor.1 as int, cell_pixels as int, 20, 16);
            }
            let cursor_x = (puzzle_left + self.cursor.0 * cell_pixels) as i16;
            let cursor_y = (puzzle_top + self.cursor.1 * cell_pixels) as i16;
            sprites.push(Sprite { image: game_assets.square_hover(), dst: (cursor_x, cursor_y) });

            let ghost framed = sprites@;
            let rows = tables_as_slice(&self.row_numbers);
            let mut row: usize = 0;
            while row < rows.len()
                invariant
                    self@.in_play(),
                    self@.clues_in_sight(),
                    (puzzle_left, puzzle_top) == self@.puzzle_pos,
                    cell_pixels == self@.zoom.spec_cell_pixels(),
                    rows@.len() == self@.row_numbers.len(),
                    forall|i: int|
                        0 <= i < rows@.len() ==> clue_items(#[trigger] rows@[i])
                            == self@.row_numbers[i],
                    row <= rows@.len(),
                    sprites@ == framed + self@.row_clue_sprites(*game_assets, row as int),
                decreases rows@.len() - row,
            {
                proof {
                    lemma_product_bound(row as int, cell_pixels as int, 20, 16);
                    lemma_shows_bound(
                        self@.row_numbers[row as int],
                        self@.row_cells(row as int),
                        self@.row_answer(row as int),
                    );
                }
                let num_x = (puzzle_left - 2 * cell_pixels) as i16;
                let num_y = (puzzle_top + row * cell_pixels) as i16;
                let ghost before = sprites@;
                Self::draw_numbers(
                    &mut sprites,
                    game_assets,
                    clues_as_slice(&rows[row]),
                    (num_x, num_y),
                    (cell_pixels as i16, 0),
                );
                row += 1;
                assert(sprites@ =~= framed + self@.row_clue_sprites(*game_assets, row as int));
            }

            let ghost with_rows = sprites@;
            let cols = tables_as_slice(&self.col_numbers);
            let mut col: usize = 0;
            while col < cols.len()
                invariant
                    self@.in_play(),
                    self@.clues_in_sight(),
                    (puzzle_left, puzzle_top) == self@.puzzle_pos,
                    cell_pixels == self@.zoom.spec_cell_pixels(),
                    cols@.len() == self@.col_numbers.len(),
                    forall|i: int|
                        0 <= i < cols@.len() ==> clue_items(#[trigger] cols@[i])
                            == self@.col_numbers[i],
                    col <= cols@.len(),
                    sprites@ == with_rows + self@.col_clue_sprites(*game_assets, col as int),
                decreases cols@.len() - col,
            {
                proof {
                    lemma_product_bound(col as int, cell_pixels as int, 20, 16);
                    lemma_shows_bound(
                        self@.col_numbers[col as int],
                        self@.col_cells(col as int),
                        self@.col_answer(col as int),
                    );
                }
                let num_x = (puzzle_left + col * cell_pixels) as i16;
                let num_y = (puzzle_top - 2 * cell_pixels) as i16;
                Self::draw_numbers(
                    &mut sprites,
                    game_assets,
                    clues_as_slice(&cols[col]),
                    (num_x, num_y),
                    (0, cell_pixels as i16),
                );
                col += 1;
                assert(sprites@ =~= with_rows + self@.col_clue_sprites(*game_assets, col as int));
            }
        }
        assert(sprites@ =~= self@.sprites(*game_assets));
        sprites
    }

    /// The worlds that show the texts of the game, in the order in which
    /// they are to be written: the clock, `clock_width` pixels wide, and
    /// once the picture is finished and in its place, its name and under it
    /// where it is from, each centred and a line of `text_height` pixels
    /// high.
    pub fn worlds(
        &self,
        clock_width: i16,
        name: TextSize,
        source: TextSize,
        text_height: i16,
    ) -> (worlds: Vec<World>)
        requires
            clock_width > i16::MIN,
            name.width > i16::MIN,
            name.final_width >= 0,
            source.width > i16::MIN,
            source.final_width >= 0,
            i16::MIN < text_height <= i16::MAX - TEXT_TOP,
        ensures
            worlds@ == self@.text_worlds(clock_width, name, source, text_height),
    {
        let mut worlds = Vec::new();
        worlds.push(
            World {
                bgm: WorldMode::Normal,
                lon: true,
                ron: true,
                bg_map_base: BG,
                gx: 8,
                gp: 0,
                gy: 8,
                mx: 0,
                my: 0,
                w: clock_width - 1,
                h: 20,
            },
        );
        if let PuzzleState::ShowingText = self.state {
            worlds.push(
                World {
                    bgm: WorldMode::Normal,
                    lon: true,
                    ron: true,
                    bg_map_base: BG,
                    gx: 192 - name.final_width / 2,
                    gp: 0,
                    gy: TEXT_TOP as i16,
                    mx: 0,
                    my: 256,
                    w: name.width - 1,
                    h: text_height - 1,
                },
            );
            worlds.push(
                World {
                    bgm: WorldMode::Normal,
                    lon: true,
                    ron: true,
                    bg_map_base: BG,
                    gx: 192 - source.final_width / 2,
                    gp: 0,
                    gy: TEXT_TOP as i16 + text_height,
                    mx: 0,
                    my: 384,
                    w: source.width - 1,
                    h: text_height - 1,
                },
            );
            assert(worlds@ =~= self@.text_worlds(clock_width, name, source, text_height));
        } else {
            assert(worlds@ =~= self@.text_worlds(clock_width, name, source, text_height));
        }
        worlds
    }

    /// Adds the pictures of the numbers of a clue to `sprites`, the last
    /// number first, going from `from` towards the edge of the screen by
    /// `step` a number.
    fn draw_numbers<T>(
        sprites: &mut Vec<Sprite<T>>,
        game_assets: &GameAssets<T>,
        numbers: &[(u8, bool)],
        from: (i16, i16),
        step: (i16, i16),
    )
        requires
            numbers@.len() <= MAX_PUZZLE_SIZE,
            forall|k: int| 0 <= k < numbers@.len() ==> (#[trigger] numbers@[k]).0 <= 20,
            0 <= from.0 <= 1024,
            0 <= from.1 <= 1024,
            0 <= step.0 <= 16,
            0 <= step.1 <= 16,
        ensures
            final(sprites)@ == old(sprites)@ + GameView::clue_sprites(
                *game_assets,
                numbers@,
                (from.0 as int, from.1 as int),
                (step.0 as int, step.1 as int),
                numbers@.len() as int,
            ),
    {
        let len = numbers.len();
        let mut num_x = from.0;
        let mut num_y = from.1;
        let mut k: usize = 0;
        while k < len
            invariant
                len == numbers@.len(),
                len <= MAX_PUZZLE_SIZE,
                forall|k: int| 0 <= k < numbers@.len() ==> (#[trigger] numbers@[k]).0 <= 20,
                0 <= from.0 <= 1024,
                0 <= from.1 <= 1024,
                0 <= step.0 <= 16,
                0 <= step.1 <= 16,
                k <= len,
                num_x == from.0 - k * step.0,
                num_y == from.1 - k * step.1,
                sprites@ == old(sprites)@ + GameView::clue_sprites(
                    *game_assets,
                    numbers@,
                    (from.0 as int, from.1 as int),
                    (step.0 as int, step.1 as int),
                    k as int,
                ),
            decreases len - k,
        {
            let (num, solved) = numbers[len - 1 - k];
            let image = if solved {
                game_assets.number_dim(num)
            } else {
                game_assets.number(num)
            };
            proof {
                lemma_product_bound(k as int, step.0 as int, 20, 16);
                lemma_product_bound(k as int, step.1 as int, 20, 16);
                lemma_product_bound(k + 1, step.0 as int, 20, 16);
                lemma_product_bound(k + 1, step.1 as int, 20, 16);
                assert((k + 1) * step.0 == k * step.0 + step.0) by (nonlinear_arith);
                assert((k + 1) * step.1 == k * step.1 + step.1) by (nonlinear_arith);
            }
            sprites.push(Sprite { image, dst: (num_x, num_y) });
            num_x -= step.0;
            num_y -= step.1;
            k += 1;
            assert(sprites@ =~= old(sprites)@ + GameView::clue_sprites(
                *game_assets,
                numbers@,
                (from.0 as int, from.1 as int),
                (step.0 as int, step.1 as int),
                k as int,
            ));
        }
    }

    /// Collects the `count` cells that lie `step` apart from `first` on,
    /// the marks and the picture alike.
    fn gather(&self, first: usize, step: usize, count: usize) -> (line: (
        ArrayVec<PuzzleCell, MAX_PUZZLE_SIZE>,
        ArrayVec<u8, MAX_PUZZLE_SIZE>,
    ))
        requires
            self@.grid_wf(),
            count <= MAX_PUZZLE_SIZE,
            count > 0 ==> first + (count - 1) * step < self@.puzzle.cells@.len(),
        ensures
            cell_items(line.0) == line_of(self@.cells, first as int, step as int, count as int),
            byte_items(line.1) == line_of(
                self@.puzzle.cells@,
                first as int,
                step as int,
                count as int,
            ),
    {
        let mut cells = cells_new();
        let mut answer = bytes_new();
        let mut k: usize = 0;
        let mut i: usize = first;
        while k < count
            invariant
                self@.grid_wf(),
                count <= MAX_PUZZLE_SIZE,
                count > 0 ==> first + (count - 1) * step < self@.puzzle.cells@.len(),
                k <= count,
                k < count ==> i == first + k * step,
                cell_items(cells) == line_of(self@.cells, first as int, step as int, k as int),
                byte_items(answer) == line_of(
                    self@.puzzle.cells@,
                    first as int,
                    step as int,
                    k as int,
                ),
            decreases count - k,
        {
            proof {
                lemma_cell_count(self.puzzle.width as int, self.puzzle.height as int);
                assert(first + k * step <= first + (count - 1) * step) by (nonlinear_arith)
                    requires
                        0 <= k < count,
                        0 <= step,
                ;
                assert(line_of(self@.cells, first as int, step as int, k as int).push(
                    self@.cells[i as int],
                ) =~= line_of(self@.cells, first as int, step as int, k + 1));
                assert(line_of(self@.puzzle.cells@, first as int, step as int, k as int).push(
                    self@.puzzle.cells@[i as int],
                ) =~= line_of(self@.puzzle.cells@, first as int, step as int, k + 1));
            }
            cells_push(&mut cells, self.cells[i]);
            bytes_push(&mut answer, self.puzzle.cells[i]);
            k += 1;
            if k < count {
                proof {
                    assert(first + k * step == i + step) by (nonlinear_arith)
                        requires
                            i == first + (k - 1) * step,
                    ;
                    assert(first + k * step <= first + (count - 1) * step) by (nonlinear_arith)
                        requires
                            0 <= k < count,
                            0 <= step,
                    ;
                }
                i += step;
            }
        }
        (cells, answer)
    }

    /// The clues of row `row` under the marks as they stand.
    pub fn row_count(&self, row: usize) -> (clues: ArrayVec<(u8, bool), MAX_PUZZLE_SIZE>)
        requires
            self@.grid_wf(),
            row < self@.puzzle.height,
        ensures
            shows(clue_items(clues), self@.row_cells(row as int), self@.row_answer(row as int)),
    {
        let width = self.puzzle.width;
        proof {
            if width > 0 {
                lemma_cell_index(width as int, self.puzzle.height as int, row as int, width - 1);
            } else {
                assert(row * width == 0) by (nonlinear_arith)
                    requires
                        width == 0,
                ;
            }
        }
        proof {
            lemma_cell_count(width as int, row as int);
        }
        let range_start = row * width;
        let (cells, answer) = self.gather(range_start, 1, width);
        self.line_count(cells_as_slice(&cells), bytes_as_slice(&answer))
    }

    /// The clues of column `col` under the marks as they stand.
    pub fn col_count(&self, col: usize) -> (clues: ArrayVec<(u8, bool), MAX_PUZZLE_SIZE>)
        requires
            self@.grid_wf(),
            col < self@.puzzle.width,
        ensures
            shows(clue_items(clues), self@.col_cells(col as int), self@.col_answer(col as int)),
    {
        let width = self.puzzle.width;
        let height = self.puzzle.height;
        proof {
            if height > 0 {
                lemma_cell_index(width as int, height as int, height - 1, col as int);
            }
        }
        let (cells, answer) = self.gather(col, width, height);
        self.line_count(cells_as_slice(&cells), bytes_as_slice(&answer))
    }

    /// The position `delta` beside `position` on a line of `size` cells whose
    /// ends are joined.
    fn wrapped(position: usize, delta: isize, size: usize) -> (beside: usize)
        requires
            position < size <= MAX_PUZZLE_SIZE,
            -1 <= delta <= 1,
        ensures
            beside == wrap(position as int, delta as int, size as int),
            beside < size,
    {
        match (position as isize + delta).checked_rem_euclid(size as isize) {
            Some(beside) => beside as usize,
            None => position,
        }
    }

    /// Moves the cursor by `delta`, round the edges of the grid, if `button`
    /// is down and the cursor does not rest. Returns whether it has come to
    /// another cell.
    fn handle_move(&mut self, button: bool, delta: (isize, isize)) -> (cursor_moved: bool)
        requires
            old(self)@.in_play(),
            -1 <= delta.0 <= 1,
            -1 <= delta.1 <= 1,
        ensures
            final(self)@ == (GameView {
                cursor: if button && old(self)@.cursor_delay == 0 {
                    (
                        wrap(
                            old(self)@.cursor.0 as int,
                            delta.0 as int,
                            old(self)@.puzzle.width as int,
                        ) as usize,
                        wrap(
                            old(self)@.cursor.1 as int,
                            delta.1 as int,
                            old(self)@.puzzle.height as int,
                        ) as usize,
                    )
                } else {
                    old(self)@.cursor
                },
                ..old(self)@
            }),
            cursor_moved == (final(self)@.cursor != old(self)@.cursor),
            final(self)@.in_play(),
    {
        if button && self.cursor_delay == 0 {
            let new_x = Self::wrapped(self.cursor.0, delta.0, self.puzzle.width);
            let new_y = Self::wrapped(self.cursor.1, delta.1, self.puzzle.height);
            let cursor_moved = self.cursor.0 != new_x || self.cursor.1 != new_y;
            self.cursor = (new_x, new_y);
            cursor_moved
        } else {
            false
        }
    }

    /// Moves the game on by one frame with the input `input`, and returns
    /// what the frame asks of the code around the game.
    ///
    /// In play the clock goes on, the cursor moves and marks its cell, and
    /// the clues of the marked cell's row and column are kept as their lines
    /// show them. A complete picture ends the play; it then moves to its
    /// place, and is shown with its text until the player leaves.
    pub fn update(&mut self, input: &Input) -> (frame: Frame)
        requires
            old(self)@.in_play(),
            old(self)@.state == PuzzleState::Playing ==> old(self)@.timer < u32::MAX,
        ensures
            final(self)@ == old(self)@.stepped(*input),
            frame == old(self)@.frame(*input),
            final(self)@.in_play(),
    {
        match self.state {
            PuzzleState::ShowingText => {
                let pressed = input.buttons_pressed;
                Frame {
                    result: if pressed.a || pressed.sta {
                        Some(self.timer)
                    } else {
                        None
                    },
                    clock: None,
                    text_moves: true,
                }
            },
            PuzzleState::Moving => {
                self.slide();
                Frame { result: None, clock: None, text_moves: false }
            },
            PuzzleState::Playing => {
                let clock = self.tick();
                let index = self.aim(input);
                if let Some(behavior) = self.cursor_behavior {
                    self.mark(index, behavior);
                }
                Frame { result: None, clock, text_moves: false }
            },
        }
    }

    /// Moves the finished picture by a pixel towards the middle of the space
    /// above the text, to the left first and then up, and shows the text
    /// once the picture has arrived.
    fn slide(&mut self)
        requires
            old(self)@.in_play(),
            old(self)@.state == PuzzleState::Moving,
        ensures
            final(self)@ == old(self)@.slid(),
            final(self)@.in_play(),
    {
        let cell_pixels = self.zoom.cell_pixels();
        proof {
            if cell_pixels == 8 {
                assert(self.puzzle.width * cell_pixels == self.puzzle.width * 8);
                assert(self.puzzle.height * cell_pixels == self.puzzle.height * 8);
            } else {
                assert(self.puzzle.width * cell_pixels == self.puzzle.width * 16);
                assert(self.puzzle.height * cell_pixels == self.puzzle.height * 16);
            }
        }
        let ghost before = self@;
        let target_puzzle_left = (384 - self.puzzle.width * cell_pixels) / 2;
        let target_puzzle_top = (TEXT_TOP - self.puzzle.height * cell_pixels) / 2;
        if self.puzzle_pos.0 > target_puzzle_left {
            self.puzzle_pos.0 -= 1;
        } else if self.puzzle_pos.1 > target_puzzle_top {
            self.puzzle_pos.1 -= 1;
        } else {
            self.state = PuzzleState::ShowingText;
        }
        proof {
            lemma_same_grid(before, self@);
        }
    }

    /// Moves the clock on by one frame. Returns the hours, minutes and
    /// seconds that it shows from now on, in a frame in which they change.
    fn tick(&mut self) -> (clock: Option<(u32, u32, u32)>)
        requires
            old(self)@.in_play(),
            old(self)@.timer < u32::MAX,
        ensures
            final(self)@ == (GameView { timer: (old(self)@.timer + 1) as u32, ..old(self)@ }),
            clock == if (old(self)@.timer + 1) % 50 == 0 {
                Some(clock_of((old(self)@.timer + 1) as u32))
            } else {
                None
            },
            final(self)@.in_play(),
    {
        let ghost before = self@;
        self.timer += 1;
        proof {
            lemma_same_grid(before, self@);
        }
        if self.timer % 50 == 0 {
            let seconds = self.timer / 50;
            let minutes = (seconds / 60) % 60;
            let hours = seconds / 60 / 60;
            Some((hours, minutes, seconds % 60))
        } else {
            None
        }
    }

    /// Lets the input of a frame of play act on the cursor: the directions
    /// move it, and the buttons decide what it marks cells with. Returns
    /// the place in the grid of the cell that it has come to.
    fn aim(&mut self, input: &Input) -> (index: usize)
        requires
            old(self)@.in_play(),
        ensures
            final(self)@ == old(self)@.aimed(*input),
            index == final(self)@.cursor.1 * final(self)@.puzzle.width + final(self)@.cursor.0,
            final(self)@.in_play(),
    {
        let cursor_moved = self.steer(input.directions_held);
        let ghost steered = self@;
        if cursor_moved {
            self.cursor_delay = 4;
        } else {
            self.cursor_delay = self.cursor_delay.saturating_sub(1);
        }

        let pressed = input.buttons_pressed;
        proof {
            lemma_cell_index(
                self.puzzle.width as int,
                self.puzzle.height as int,
                self.cursor.1 as int,
                self.cursor.0 as int,
            );
            lemma_cell_count(self.puzzle.width as int, self.puzzle.height as int);
        }
        let index = self.cursor.1 * self.puzzle.width + self.cursor.0;
        if pressed.b {
            let new_cell = match self.cells[index] {
                PuzzleCell::Cross => PuzzleCell::Empty,
                _ => PuzzleCell::Cross,
            };
            self.cursor_behavior = Some(new_cell);
        }
        if pressed.a {
            let new_cell = match self.cells[index] {
                PuzzleCell::Full => PuzzleCell::Empty,
                _ => PuzzleCell::Full,
            };
            self.cursor_behavior = Some(new_cell);
        }
        let held = input.buttons_held;
        if !held.a && !held.b {
            self.cursor_behavior = None;
        }
        proof {
            lemma_same_grid(steered, self@);
        }
        index
    }

    /// Lets the directions in `held` act on the cursor, left before right
    /// and up before down. Returns whether one of them has moved it to
    /// another cell.
    fn steer(&mut self, held: Buttons) -> (cursor_moved: bool)
        requires
            old(self)@.in_play(),
        ensures
            final(self)@ == (GameView { cursor: old(self)@.steered(held), ..old(self)@ }),
            cursor_moved == old(self)@.cursor_moves(held),
            final(self)@.in_play(),
    {
        proof {
            let width = self.puzzle.width as int;
            let height = self.puzzle.height as int;
            let x = self.cursor.0 as int;
            let y = self.cursor.1 as int;
            lemma_wrap(x, -1, width);
            lemma_wrap(x, 0, width);
            lemma_wrap(x, 1, width);
            lemma_wrap(wrap(x, -1, width), 1, width);
            lemma_wrap(wrap(x, -1, width), 0, width);
            lemma_wrap(wrap(x, 1, width), 0, width);
            lemma_wrap(wrap(wrap(x, -1, width), 1, width), 0, width);
            lemma_wrap(y, -1, height);
            lemma_wrap(y, 0, height);
            lemma_wrap(y, 1, height);
            lemma_wrap(wrap(y, -1, height), 1, height);
        }
        let mut cursor_moved = false;
        if self.handle_move(held.ll, (-1, 0)) {
            cursor_moved = true;
        }
        if self.handle_move(held.lr, (1, 0)) {
            cursor_moved = true;
        }
        if self.handle_move(held.lu, (0, -1)) {
            cursor_moved = true;
        }
        if self.handle_move(held.ld, (0, 1)) {
            cursor_moved = true;
        }
        cursor_moved
    }

    /// Marks the cell under the cursor, which is cell `index` of the grid,
    /// works out the clues of its column and of its row anew, and ends the
    /// play where the picture is complete.
    fn mark(&mut self, index: usize, behavior: PuzzleCell)
        requires
            old(self)@.in_play(),
            index == old(self)@.cursor.1 * old(self)@.puzzle.width + old(self)@.cursor.0,
        ensures
            final(self)@ == old(self)@.marked(behavior),
            final(self)@.in_play(),
    {
        let ghost before = self@;
        let ghost width = self.puzzle.width as int;
        let ghost height = self.puzzle.height as int;
        let ghost row = self.cursor.1 as int;
        let ghost col = self.cursor.0 as int;
        proof {
            lemma_cell_index(width, height, row, col);
            lemma_cell_count(width, height);
        }
        self.cells[index] = behavior;
        let col_clues = self.col_count(self.cursor.0);
        tables_set(&mut self.col_numbers, self.cursor.0, col_clues);
        let row_clues = self.row_count(self.cursor.1);
        tables_set(&mut self.row_numbers, self.cursor.1, row_clues);
        if self.has_been_solved() {
            self.state = PuzzleState::Moving;
        }
        proof {
            lemma_shows_clues_of(
                clue_items(col_clues),
                self@.col_cells(col),
                self@.col_answer(col),
            );
            lemma_shows_clues_of(
                clue_items(row_clues),
                self@.row_cells(row),
                self@.row_answer(row),
            );
            assert forall|r: int| 0 <= r < height implies shows(
                #[trigger] self@.row_numbers[r],
                self@.row_cells(r),
                self@.row_answer(r),
            ) by {
                if r != row {
                    lemma_cell_index(width, height, r, 0);
                    lemma_other_row(before.cells, width, row, col, r, behavior);
                    assert(self@.row_numbers[r] == before.row_numbers[r]);
                }
            }
            assert forall|c: int| 0 <= c < width implies shows(
                #[trigger] self@.col_numbers[c],
                self@.col_cells(c),
                self@.col_answer(c),
            ) by {
                if c != col {
                    lemma_other_col(before.cells, width, height, row, col, c, behavior);
                    assert(self@.col_numbers[c] == before.col_numbers[c]);
                }
            }
        }
    }

    /// Whether the marks are the picture: every cell of the picture is
    /// marked `Full` and no other cell is.
    pub fn has_been_solved(&self) -> (solved: bool)
        requires
            self@.grid_wf(),
        ensures
            solved == completed(self@.cells, self@.puzzle.cells@),
    {
        let answer = self.puzzle.cells;
        proof {
            lemma_cell_count(self.puzzle.width as int, self.puzzle.height as int);
        }
        let mut i: usize = 0;
        while i < answer.len()
            invariant
                answer == self.puzzle.cells,
                self.cells@.len() == MAX_CELLS,
                answer@.len() <= MAX_CELLS,
                i <= answer@.len(),
                forall|j: int|
                    0 <= j < i ==> answer@[j] == if self.cells@[j] is Full {
                        1u8
                    } else {
                        0u8
                    },
            decreases answer@.len() - i,
        {
            let expected = answer[i];
            let actual: u8 = match self.cells[i] {
                PuzzleCell::Empty | PuzzleCell::Cross => 0,
                PuzzleCell::Full => 1,
            };
            if expected != actual {
                return false;
            }
            i += 1;
        }
        true
    }

}

} // verus!
