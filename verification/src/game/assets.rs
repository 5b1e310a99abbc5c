use crate::game::PuzzleCell;
use vstd::prelude::*;

verus! {

/// Where the picture of a cell lies in a table of pictures: after those of
/// the cells in darker columns and rows, and with the pictures of the
/// three marks side by side.
pub open spec fn square_index(col_bright: bool, row_bright: bool, cell: PuzzleCell) -> int {
    (if col_bright {
        6int
    } else {
        0int
    }) + (if row_bright {
        3int
    } else {
        0int
    }) + match cell {
        PuzzleCell::Empty => 0int,
        PuzzleCell::Cross => 1int,
        PuzzleCell::Full => 2int,
    }
}

/// The pictures that a grid is drawn with at one zoom: twelve of cells,
/// five of the grid's edges and of the cursor, and those of the numbers 1
/// to 20, plain and dimmed.
pub struct GameAssets<T: 'static>(pub &'static [&'static T; 57]);

impl<T: 'static> GameAssets<T> {
    /// The picture of a cell with the mark `cell`, in a column and a row
    /// that are drawn brighter or not.
    pub fn square(&self, col_bright: bool, row_bright: bool, cell: PuzzleCell) -> (image:
        &'static T)
        ensures
            image == self.0@[square_index(col_bright, row_bright, cell)],
    {
        let index: usize = match (col_bright, row_bright, cell) {
            (false, false, PuzzleCell::Empty) => 0,
            (false, false, PuzzleCell::Cross) => 1,
            (false, false, PuzzleCell::Full) => 2,
            (false, true, PuzzleCell::Empty) => 3,
            (false, true, PuzzleCell::Cross) => 4,
            (false, true, PuzzleCell::Full) => 5,
            (true, false, PuzzleCell::Empty) => 6,
            (true, false, PuzzleCell::Cross) => 7,
            (true, false, PuzzleCell::Full) => 8,
            (true, true, PuzzleCell::Empty) => 9,
            (true, true, PuzzleCell::Cross) => 10,
            (true, true, PuzzleCell::Full) => 11,
        };
        self.0[index]
    }

    /// The picture of the grid's right edge.
    pub fn square_right(&self) -> (image: &'static T)
        ensures
            image == self.0@[12],
    {
        self.0[12]
    }

    /// The picture of the grid's bottom edge.
    pub fn square_bottom(&self) -> (image: &'static T)
        ensures
            image == self.0@[13],
    {
        self.0[13]
    }

    /// The picture of the grid's bottom right corner.
    pub fn square_bottom_right(&self) -> (image: &'static T)
        ensures
            image == self.0@[14],
    {
        self.0[14]
    }

    /// The picture of the cursor.
    pub fn square_hover(&self) -> (image: &'static T)
        ensures
            image == self.0@[15],
    {
        self.0[15]
    }

    /// The picture of a cell of the finished picture.
    pub fn square_final(&self) -> (image: &'static T)
        ensures
            image == self.0@[16],
    {
        self.0[16]
    }

    /// The picture of the number `num`.
    pub fn number(&self, num: u8) -> (image: &'static T)
        requires
            num <= 40,
        ensures
            image == self.0@[num + 16],
    {
        self.0[num as usize + 16]
    }

    /// The dimmed picture of the number `num`.
    pub fn number_dim(&self, num: u8) -> (image: &'static T)
        requires
            num <= 20,
        ensures
            image == self.0@[num + 36],
    {
        self.0[num as usize + 36]
    }
}

} // verus!
