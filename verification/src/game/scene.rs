//! The pictures that show a game, in the order in which they are drawn.

use crate::display::{Sprite, World, WorldMode};
use crate::game::{PuzzleState, TEXT_TOP};
use crate::game::assets::{GameAssets, square_index};
use crate::game::view::GameView;
use vstd::prelude::*;

verus! {

/// The background map that holds the texts of a game.
pub const BG: u8 = 1;

/// How wide a text is as it stands, and how wide it is once it has been
/// written out.
#[derive(Debug, Clone, Copy, PartialEq, Eq, Structural)]
pub struct TextSize {
    pub width: i16,
    pub final_width: i16,
}

/// The world that shows the clock in the top left corner of the screen.
pub open spec fn clock_world(width: i16) -> World {
    World {
        bgm: WorldMode::Normal,
        lon: true,
        ron: true,
        bg_map_base: BG,
        gx: 8,
        gp: 0,
        gy: 8,
        mx: 0,
        my: 0,
        w: (width - 1) as i16,
        h: 20,
    }
}

/// The world that shows a line of text under the finished picture, centred
/// on the screen as it will be once it is written out.
pub open spec fn text_world(size: TextSize, gy: int, my: i16, text_height: i16) -> World {
    World {
        bgm: WorldMode::Normal,
        lon: true,
        ron: true,
        bg_map_base: BG,
        gx: (192 - size.final_width / 2) as i16,
        gp: 0,
        gy: gy as i16,
        mx: 0,
        my,
        w: (size.width - 1) as i16,
        h: (text_height - 1) as i16,
    }
}

impl GameView {
    /// The worlds that show the texts of the game: the clock, and once the
    /// picture is finished and in its place, its name and under it where
    /// it is from.
    pub open spec fn text_worlds(
        &self,
        clock_width: i16,
        name: TextSize,
        source: TextSize,
        text_height: i16,
    ) -> Seq<World> {
        if self.state == PuzzleState::ShowingText {
            seq![
                clock_world(clock_width),
                text_world(name, TEXT_TOP as int, 256, text_height),
                text_world(source, TEXT_TOP + text_height, 384, text_height),
            ]
        } else {
            seq![clock_world(clock_width)]
        }
    }

    /// Where the top left corner of the cell in column `col` and row `row`
    /// lies on the screen.
    pub open spec fn spot(&self, col: int, row: int) -> (i16, i16) {
        let cell_pixels = self.zoom.spec_cell_pixels();
        (
            (self.puzzle_pos.0 + col * cell_pixels) as i16,
            (self.puzzle_pos.1 + row * cell_pixels) as i16,
        )
    }

    /// The pictures of the first `cols` cells of row `row`. In play a cell
    /// shows its mark, brighter in every fifth column and row. Of the
    /// finished picture only its own cells are shown.
    pub open spec fn cell_sprites<T>(&self, assets: GameAssets<T>, row: int, cols: int) -> Seq<
        Sprite<T>,
    >
        decreases cols,
    {
        if cols <= 0 {
            Seq::empty()
        } else {
            let col = cols - 1;
            let before = self.cell_sprites(assets, row, col);
            let index = row * self.puzzle.width + col;
            if self.state == PuzzleState::ShowingText {
                if self.puzzle.cells@[index] == 1 {
                    before.push(Sprite { image: assets.0@[16], dst: self.spot(col, row) })
                } else {
                    before
                }
            } else {
                before.push(
                    Sprite {
                        image: assets.0@[square_index(
                            col > 0 && col % 5 == 0,
                            row > 0 && row % 5 == 0,
                            self.cells[index],
                        )],
                        dst: self.spot(col, row),
                    },
                )
            }
        }
    }

    /// The pictures of the first `rows` rows of the grid. Until the text is
    /// shown, every row ends with a piece of the grid's right edge.
    pub open spec fn grid_sprites<T>(&self, assets: GameAssets<T>, rows: int) -> Seq<Sprite<T>>
        decreases rows,
    {
        if rows <= 0 {
            Seq::empty()
        } else {
            let row = rows - 1;
            let cells = self.grid_sprites(assets, row) + self.cell_sprites(
                assets,
                row,
                self.puzzle.width as int,
            );
            if self.state == PuzzleState::ShowingText {
                cells
            } else {
                cells.push(
                    Sprite { image: assets.0@[12], dst: self.spot(self.puzzle.width as int, row) },
                )
            }
        }
    }

    /// The pictures of the first `cols` pieces of the grid's bottom edge.
    pub open spec fn edge_sprites<T>(&self, assets: GameAssets<T>, cols: int) -> Seq<Sprite<T>> {
        Seq::new(
            cols as nat,
            |col: int|
                Sprite { image: assets.0@[13], dst: self.spot(col, self.puzzle.height as int) },
        )
    }

    /// The pictures of the last `count` numbers of a clue, the last first,
    /// going from `from` towards the edge of the screen by `step` a number.
    /// A number that counts as found is dimmed.
    pub open spec fn clue_sprites<T>(
        assets: GameAssets<T>,
        clues: Seq<(u8, bool)>,
        from: (int, int),
        step: (int, int),
        count: int,
    ) -> Seq<Sprite<T>> {
        Seq::new(
            count as nat,
            |k: int|
                {
                    let (num, solved) = clues[clues.len() - 1 - k];
                    Sprite {
                        image: assets.0@[num + if solved {
                            36int
                        } else {
                            16int
                        }],
                        dst: ((from.0 - k * step.0) as i16, (from.1 - k * step.1) as i16),
                    }
                },
        )
    }

    /// The pictures of the clues of the first `rows` rows, each clue to the
    /// left of its row, a cell away from the grid.
    pub open spec fn row_clue_sprites<T>(&self, assets: GameAssets<T>, rows: int) -> Seq<
        Sprite<T>,
    >
        decreases rows,
    {
        if rows <= 0 {
            Seq::empty()
        } else {
            let row = rows - 1;
            let cell_pixels = self.zoom.spec_cell_pixels() as int;
            self.row_clue_sprites(assets, row) + Self::clue_sprites(
                assets,
                self.row_numbers[row],
                (self.puzzle_pos.0 - 2 * cell_pixels, self.puzzle_pos.1 + row * cell_pixels),
                (cell_pixels, 0),
                self.row_numbers[row].len() as int,
            )
        }
    }

    /// The pictures of the clues of the first `cols` columns, each clue
    /// above its column, a cell away from the grid.
    pub open spec fn col_clue_sprites<T>(&self, assets: GameAssets<T>, cols: int) -> Seq<
        Sprite<T>,
    >
        decreases cols,
    {
        if cols <= 0 {
            Seq::empty()
        } else {
            let col = cols - 1;
            let cell_pixels = self.zoom.spec_cell_pixels() as int;
            self.col_clue_sprites(assets, col) + Self::clue_sprites(
                assets,
                self.col_numbers[col],
                (self.puzzle_pos.0 + col * cell_pixels, self.puzzle_pos.1 - 2 * cell_pixels),
                (0, cell_pixels),
                self.col_numbers[col].len() as int,
            )
        }
    }

    /// The pictures that show the game, in the order in which they are
    /// drawn: the grid, then until the text is shown its bottom edge and
    /// corner, then in play the cursor and the clues of the rows and of the
    /// columns.
    pub open spec fn sprites<T>(&self, assets: GameAssets<T>) -> Seq<Sprite<T>> {
        let width = self.puzzle.width as int;
        let height = self.puzzle.height as int;
        let grid = self.grid_sprites(assets, height);
        let framed = if self.state == PuzzleState::ShowingText {
            grid
        } else {
            (grid + self.edge_sprites(assets, width)).push(
                Sprite { image: assets.0@[14], dst: self.spot(width, height) },
            )
        };
        if self.state == PuzzleState::Playing {
            framed.push(
                Sprite {
                    image: assets.0@[15],
                    dst: self.spot(self.cursor.0 as int, self.cursor.1 as int),
                },
            ) + self.row_clue_sprites(assets, height) + self.col_clue_sprites(assets, width)
        } else {
            framed
        }
    }
}

} // verus!
