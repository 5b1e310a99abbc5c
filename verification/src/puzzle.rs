use crate::bounded::MAX_PUZZLE_SIZE;
use crate::line::{ink, run_lengths};
use vstd::prelude::*;

verus! {

/// How many puzzles the catalogue holds.
pub const PUZZLE_COUNT: usize = 30;

/// A picture to be found: its name, where it is from, and its cells row by
/// row, 1 for a cell of the picture and 0 for the background.
#[derive(Clone, Copy)]
pub struct Puzzle {
    pub name: &'static [u8],
    pub source: &'static [u8],
    pub width: usize,
    pub height: usize,
    pub cells: &'static [u8],
}

/// The cells of a grid that lie `step` apart from `first` on: a row with
/// step 1, a column with the width as its step.
pub open spec fn line_of<T>(grid: Seq<T>, first: int, step: int, count: int) -> Seq<T> {
    Seq::new(count as nat, |k: int| grid[first + k * step])
}

/// Row `row` of a grid that is `width` cells wide.
pub open spec fn row_of<T>(grid: Seq<T>, width: int, row: int) -> Seq<T> {
    line_of(grid, row * width, 1, width)
}

/// Column `col` of a grid that is `width` cells wide and `height` cells
/// high.
pub open spec fn col_of<T>(grid: Seq<T>, width: int, height: int, col: int) -> Seq<T> {
    line_of(grid, col, width, height)
}

/// The greatest number of a sequence, and 0 for an empty one.
pub open spec fn greatest(numbers: Seq<nat>) -> nat
    decreases numbers.len(),
{
    if numbers.len() == 0 {
        0
    } else {
        let before = greatest(numbers.drop_last());
        if numbers.last() > before {
            numbers.last()
        } else {
            before
        }
    }
}

impl Puzzle {
    /// Whether the puzzle is no larger than the grid allows and has one
    /// cell for every position.
    pub open spec fn wf(&self) -> bool {
        &&& self.width <= MAX_PUZZLE_SIZE
        &&& self.height <= MAX_PUZZLE_SIZE
        &&& self.cells@.len() == self.width * self.height
    }

    /// The picture's row `row`.
    pub open spec fn row(&self, row: int) -> Seq<u8> {
        row_of(self.cells@, self.width as int, row)
    }

    /// The picture's column `col`.
    pub open spec fn col(&self, col: int) -> Seq<u8> {
        col_of(self.cells@, self.width as int, self.height as int, col)
    }

    /// How many runs the clue of each row has.
    pub open spec fn row_runs(&self) -> Seq<nat> {
        Seq::new(self.height as nat, |row: int| run_lengths(ink(self.row(row))).len())
    }

    /// How many runs the clue of each column has.
    pub open spec fn col_runs(&self) -> Seq<nat> {
        Seq::new(self.width as nat, |col: int| run_lengths(ink(self.col(col))).len())
    }

    /// How many cells the puzzle takes on the screen with its clues, across
    /// and down: the grid, a cell of margin, and the longest clue.
    pub open spec fn size_cells(&self) -> (int, int) {
        (
            self.width + 1 + greatest(self.row_runs()),
            self.height + 1 + greatest(self.col_runs()),
        )
    }
}

/// The puzzle without cells, which a game holds before one is loaded.
pub fn empty() -> (puzzle: Puzzle)
    ensures
        puzzle.width == 0,
        puzzle.height == 0,
        puzzle.name@.len() == 0,
        puzzle.source@.len() == 0,
        puzzle.cells@.len() == 0,
        puzzle.wf(),
{
    Puzzle { name: &[], source: &[], width: 0, height: 0, cells: &[] }
}

/// The byte `x`, which stands for a cell of the picture in a drawing.
pub const INK: u8 = 0x78;

/// The byte `-`, which stands for a cell of the background in a drawing.
pub const BLANK: u8 = 0x2d;

/// The cells that a drawing of a puzzle spells: 1 for every `x` and 0 for
/// every `-`, in their order. Every other byte only sets the drawing out.
pub open spec fn symbols(input: Seq<u8>) -> Seq<u8>
    decreases input.len(),
{
    if input.len() == 0 {
        Seq::empty()
    } else {
        let before = symbols(input.drop_last());
        if input.last() == INK {
            before.push(1)
        } else if input.last() == BLANK {
            before.push(0)
        } else {
            before
        }
    }
}

/// Reads the `N` cells of a puzzle off a drawing of it, in which `x` stands
/// for a cell of the picture and `-` for a cell of the background.
pub fn format_puzzle<const N: usize>(input: &[u8]) -> (result: [u8; N])
    requires
        symbols(input@).len() == N,
    ensures
        result@ == symbols(input@),
{
    let mut result = [0;N];
    let mut src_index: usize = 0;
    let mut dst_index: usize = 0;
    while src_index < input.len()
        invariant
            src_index <= input@.len(),
            symbols(input@).len() == N,
            dst_index == symbols(input@.take(src_index as int)).len(),
            dst_index <= N,
            forall|i: int|
                0 <= i < dst_index ==> result@[i] == symbols(input@.take(src_index as int))[i],
            forall|i: int| dst_index <= i < N ==> result@[i] == 0,
        decreases input@.len() - src_index,
    {
        proof {
            assert(input@.take(src_index + 1).drop_last() =~= input@.take(src_index as int));
            lemma_symbols_prefix(input@, src_index + 1);
        }
        if input[src_index] == INK {
            result[dst_index] = 1;
            dst_index += 1;
        } else if input[src_index] == BLANK {
            dst_index += 1;
        }
        src_index += 1;
    }
    proof {
        assert(input@.take(src_index as int) =~= input@);
        assert(result@ =~= symbols(input@));
    }
    result
}

/// The first bytes of a drawing spell no more cells than the whole.
pub proof fn lemma_symbols_prefix(input: Seq<u8>, n: int)
    requires
        0 <= n <= input.len(),
    ensures
        symbols(input.take(n)).len() <= symbols(input).len(),
    decreases input.len() - n,
{
    if n < input.len() {
        lemma_symbols_prefix(input, n + 1);
        assert(input.take(n + 1).drop_last() =~= input.take(n));
    } else {
        assert(input.take(n) =~= input);
    }
}

/// Whether pixel `p` of the 40 pixels of a line of an icon is lit. The
/// cells of the line are drawn in its middle, two pixels to a cell, and a
/// cell is lit where it is not 0.
pub open spec fn icon_pixel(cells: Seq<u8>, p: int) -> bool {
    let offset = 20 - cells.len();
    &&& offset <= p < offset + 2 * cells.len()
    &&& cells[(p - offset) / 2] != 0
}

/// The two bits of pixel `slot` of a halfword: the value 2 where the pixel
/// is lit, and 0 where it is not.
pub open spec fn pixel_bits(lit: bool, slot: usize) -> u16 {
    if lit {
        0b10u16 << (slot * 2)
    } else {
        0
    }
}

/// The first `n` pixels of halfword `k` of a line of an icon. A halfword
/// holds eight pixels, the first in its lowest bits.
pub open spec fn icon_halfword(cells: Seq<u8>, k: int, n: int) -> u16
    decreases n,
{
    if n <= 0 {
        0
    } else {
        icon_halfword(cells, k, n - 1) | pixel_bits(
            icon_pixel(cells, 8 * k + n - 1),
            (n - 1) as usize,
        )
    }
}

/// How many pixels of halfword `k` lie before pixel `p` of the line.
pub open spec fn pixels_before(p: int, k: int) -> int {
    if p - 8 * k < 0 {
        0
    } else if p - 8 * k > 8 {
        8
    } else {
        p - 8 * k
    }
}

/// Pixels that are not lit leave a halfword as it was.
pub proof fn lemma_icon_halfword_unlit(cells: Seq<u8>, k: int, from: int, upto: int)
    requires
        0 <= from <= upto,
        forall|p: int| 8 * k + from <= p < 8 * k + upto ==> !icon_pixel(cells, p),
    ensures
        icon_halfword(cells, k, upto) == icon_halfword(cells, k, from),
    decreases upto - from,
{
    if from < upto {
        lemma_icon_halfword_unlit(cells, k, from, upto - 1);
        let before = icon_halfword(cells, k, upto - 1);
        assert(!icon_pixel(cells, 8 * k + upto - 1));
        assert(before | 0 == before) by (bit_vector);
    }
}

/// The five halfwords of a line of an icon that shows the cells of `cells`
/// in its middle, two pixels to a cell.
pub fn menu_icon_row(cells: &[u8]) -> (result: [u16; 5])
    requires
        cells@.len() <= 20,
    ensures
        forall|k: int| 0 <= k < 5 ==> result@[k] == icon_halfword(cells@, k, 8),
{
    let offset = 20 - cells.len();
    let mut result = [0;5];
    let mut dst_index = offset;
    let mut i: usize = 0;
    proof {
        assert forall|k: int| 0 <= k < 5 implies result@[k] == icon_halfword(
            cells@,
            k,
            pixels_before(dst_index as int, k),
        ) by {
            lemma_icon_halfword_unlit(cells@, k, 0, pixels_before(dst_index as int, k));
        }
    }
    while i < cells.len()
        invariant
            cells@.len() <= 20,
            offset == 20 - cells@.len(),
            i <= cells@.len(),
            dst_index == offset + 2 * i,
            forall|k: int|
                0 <= k < 5 ==> result@[k] == icon_halfword(
                    cells@,
                    k,
                    pixels_before(dst_index as int, k),
                ),
        decreases cells@.len() - i,
    {
        let cell = cells[i];
        let target_dst_index = dst_index + 2;
        while dst_index < target_dst_index
            invariant
                cells@.len() <= 20,
                offset == 20 - cells@.len(),
                i < cells@.len(),
                cell == cells@[i as int],
                target_dst_index == offset + 2 * i + 2,
                offset + 2 * i <= dst_index <= target_dst_index,
                forall|k: int|
                    0 <= k < 5 ==> result@[k] == icon_halfword(
                        cells@,
                        k,
                        pixels_before(dst_index as int, k),
                    ),
            decreases target_dst_index - dst_index,
        {
            let slot = dst_index / 8;
            let dst_offset = dst_index % 8;
            proof {
                let before = result@[slot as int];
                assert(icon_pixel(cells@, dst_index as int) == (cell != 0));
                assert(pixels_before(dst_index as int, slot as int) == dst_offset);
                assert(pixels_before(dst_index + 1, slot as int) == dst_offset + 1);
                assert(before | 0 == before) by (bit_vector);
            }
            if cell != 0 {
                let dst_hw = result[slot];
                result[slot] = dst_hw | (0b10 << (dst_offset * 2));
            }
            dst_index += 1;
        }
        i += 1;
    }
    proof {
        assert forall|k: int| 0 <= k < 5 implies result@[k] == icon_halfword(cells@, k, 8) by {
            lemma_icon_halfword_unlit(cells@, k, pixels_before(dst_index as int, k), 8);
        }
    }
    result
}

/// Halfword `col` of line `line` of the 40 lines of an icon. The rows of the
/// puzzle are drawn in the middle of the icon, two lines to a row.
pub open spec fn icon_line(cells: Seq<u8>, width: int, height: int, line: int, col: int) -> u16 {
    let offset = 20 - height;
    if offset <= line < offset + 2 * height {
        icon_halfword(row_of(cells, width, (line - offset) / 2), col, 8)
    } else {
        0
    }
}

/// Whether the 25 characters `chars`, five to a row of characters, are the
/// icon of a puzzle: a picture of 40 by 40 pixels with the puzzle in its
/// middle, each cell two pixels wide and high. A character holds eight
/// lines of eight pixels.
pub open spec fn is_icon(chars: [[u16; 8]; 25], cells: Seq<u8>, width: int, height: int) -> bool {
    forall|line: int, col: int|
        0 <= line < 40 && 0 <= col < 5 ==> #[trigger] chars@[5 * (line / 8) + col]@[line % 8]
            == icon_line(cells, width, height, line, col)
}

/// The icon of a puzzle as 25 characters, five to a row.
pub fn menu_icon(cells: &[u8], width: usize, height: usize) -> (result: [[u16; 8]; 25])
    requires
        width <= 20,
        height <= 20,
        cells@.len() == width * height,
    ensures
        is_icon(result, cells@, width as int, height as int),
{
    let offset = 20 - height;
    let mut result = [[0;8];25];
    if width == 0 || height == 0 {
        proof {
            assert forall|line: int, col: int| 0 <= line < 40 && 0 <= col < 5 implies icon_line(
                cells@,
                width as int,
                height as int,
                line,
                col,
            ) == 0 by {
                if height > 0 {
                    let row = row_of(cells@, width as int, (line - offset) / 2);
                    lemma_icon_halfword_unlit(row, col, 0, 8);
                }
            }
        }
        return result;
    }
    let mut dst_index = offset;
    let mut row: usize = 0;
    while row < height
        invariant
            0 < width <= 20,
            height <= 20,
            offset == 20 - height,
            cells@.len() == width * height,
            row <= height,
            dst_index == offset + 2 * row,
            forall|line: int, col: int|
                0 <= line < dst_index && 0 <= col < 5 ==> #[trigger] result@[5 * (line / 8)
                    + col]@[line % 8] == icon_line(cells@, width as int, height as int, line, col),
            forall|line: int, col: int|
                dst_index <= line < 40 && 0 <= col < 5 ==> #[trigger] result@[5 * (line / 8)
                    + col]@[line % 8] == 0,
        decreases height - row,
    {
        proof {
            assert(row * width + width <= width * height) by (nonlinear_arith)
                requires
                    row < height,
                    0 < width,
            ;
            assert(0 <= row * width) by (nonlinear_arith)
                requires
                    0 < width,
                    0 <= row,
            ;
            assert(width * height <= 400) by (nonlinear_arith)
                requires
                    width <= 20,
                    height <= 20,
            ;
        }
        let src_row = menu_icon_row(&cells[row * width..row * width + width]);
        proof {
            assert(cells@.subrange(row * width, row * width + width) =~= row_of(
                cells@,
                width as int,
                row as int,
            ));
        }
        let target_dst_index = dst_index + 2;
        while dst_index < target_dst_index
            invariant
                height <= 20,
                offset == 20 - height,
                row < height,
                target_dst_index == offset + 2 * row + 2,
                offset + 2 * row <= dst_index <= target_dst_index,
                forall|k: int|
                    0 <= k < 5 ==> src_row@[k] == icon_halfword(
                        row_of(cells@, width as int, row as int),
                        k,
                        8,
                    ),
                forall|line: int, col: int|
                    0 <= line < dst_index && 0 <= col < 5 ==> #[trigger] result@[5 * (line / 8)
                        + col]@[line % 8] == icon_line(
                        cells@,
                        width as int,
                        height as int,
                        line,
                        col,
                    ),
                forall|line: int, col: int|
                    dst_index <= line < 40 && 0 <= col < 5 ==> #[trigger] result@[5 * (line / 8)
                        + col]@[line % 8] == 0,
            decreases target_dst_index - dst_index,
        {
            let mut col: usize = 0;
            let target_col: usize = 5;
            while col < target_col
                invariant
                    height <= 20,
                    offset == 20 - height,
                    row < height,
                    target_col == 5,
                    col <= target_col,
                    offset + 2 * row <= dst_index < offset + 2 * row + 2,
                    forall|k: int|
                        0 <= k < 5 ==> src_row@[k] == icon_halfword(
                            row_of(cells@, width as int, row as int),
                            k,
                            8,
                        ),
                    forall|line: int, c: int|
                        0 <= line < dst_index && 0 <= c < 5 ==> #[trigger] result@[5 * (line / 8)
                            + c]@[line % 8] == icon_line(
                            cells@,
                            width as int,
                            height as int,
                            line,
                            c,
                        ),
                    forall|c: int|
                        0 <= c < col ==> #[trigger] result@[5 * (dst_index / 8) + c]@[(dst_index
                            % 8) as int] == icon_line(
                            cells@,
                            width as int,
                            height as int,
                            dst_index as int,
                            c,
                        ),
                    forall|line: int, c: int|
                        dst_index < line < 40 && 0 <= c < 5 ==> #[trigger] result@[5 * (line / 8)
                            + c]@[line % 8] == 0,
                decreases target_col - col,
            {
                let at = 5 * (dst_index / 8) + col;
                let ghost before = result;
                let mut char = result[at];
                char[dst_index % 8] = src_row[col];
                result[at] = char;
                proof {
                    assert forall|line: int, c: int|
                        0 <= line < 40 && 0 <= c < 5 && !(line == dst_index && c
                            == col) implies #[trigger] result@[5 * (line / 8) + c]@[line % 8]
                        == before@[5 * (line / 8) + c]@[line % 8] by {
                        if 5 * (line / 8) + c == at {
                            assert(line / 8 == dst_index / 8);
                            assert(c == col);
                        }
                    }
                }
                col += 1;
            }
            dst_index += 1;
        }
        row += 1;
    }
    result
}

/// The icons of the puzzles of a catalogue.
pub fn menu_icon_chars<const N: usize>(puzzles: [Puzzle; N]) -> (result: [[[u16; 8]; 25]; N])
    requires
        forall|index: int| 0 <= index < N ==> (#[trigger] puzzles@[index]).wf(),
    ensures
        forall|index: int|
            0 <= index < N ==> is_icon(
                #[trigger] result@[index],
                puzzles@[index].cells@,
                puzzles@[index].width as int,
                puzzles@[index].height as int,
            ),
{
    let mut result = [[[0;8];25];N];
    let mut index: usize = 0;
    while index < N
        invariant
            index <= N,
            forall|i: int| 0 <= i < N ==> (#[trigger] puzzles@[i]).wf(),
            forall|i: int|
                0 <= i < index ==> is_icon(
                    #[trigger] result@[i],
                    puzzles@[i].cells@,
                    puzzles@[i].width as int,
                    puzzles@[i].height as int,
                ),
        decreases N - index,
    {
        let puzzle = &puzzles[index];
        assert(puzzles@[index as int].wf());
        result[index] = menu_icon(puzzle.cells, puzzle.width, puzzle.height);
        index += 1;
    }
    result
}

/// The numbers of the characters that hold the icons of `N` puzzles, 25 to
/// an icon, where the first icon's characters start at `offset`.
pub fn menu_icon_cells<const N: usize>(offset: u16) -> (result: [[u16; 25]; N])
    requires
        offset + 25 * N <= u16::MAX,
    ensures
        forall|icon: int, index: int|
            0 <= icon < N && 0 <= index < 25 ==> #[trigger] result@[icon]@[index] == offset + 25
                * icon + index,
{
    let mut result = [[0;25];N];
    let mut index: usize = 0;
    let mut char_index = offset;
    while index < N
        invariant
            index <= N,
            offset + 25 * N <= u16::MAX,
            char_index == offset + 25 * index,
            forall|icon: int, i: int|
                0 <= icon < index && 0 <= i < 25 ==> #[trigger] result@[icon]@[i] == offset + 25
                    * icon + i,
        decreases N - index,
    {
        let mut cell = result[index];
        let mut i: usize = 0;
        while i < 25
            invariant
                i <= 25,
                index < N,
                offset + 25 * N <= u16::MAX,
                char_index == offset + 25 * index + i,
                forall|j: int| 0 <= j < i ==> cell@[j] == offset + 25 * index + j,
            decreases 25 - i,
        {
            cell[i] = char_index;
            char_index += 1;
            i += 1;
        }
        result[index] = cell;
        index += 1;
    }
    result
}

} // verus!
