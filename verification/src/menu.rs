use crate::display::{World, WorldMode};
use crate::game::view::clock_of;
use crate::game::GameResult;
use crate::puzzle::{Puzzle, PUZZLE_COUNT};
use crate::state::Buttons;
use vstd::prelude::*;

verus! {

/// What the menu shows of the puzzle under its cursor. The name and the
/// best time are shown of a solved puzzle only.
#[derive(Debug, Clone, Copy)]
pub struct Stats {
    /// The puzzle's number, from 1.
    pub id: usize,
    pub width: usize,
    pub height: usize,
    pub title: Option<&'static [u8]>,
    /// The best time in hours, minutes and seconds.
    pub time: Option<(u32, u32, u32)>,
}

/// What a frame of the menu asks of the code around it.
#[derive(Clone, Copy)]
pub struct MenuFrame {
    /// The puzzle that the player has chosen to play.
    pub chosen: Option<&'static Puzzle>,
    /// What to show of the puzzle under the cursor, in a frame in which the
    /// cursor has moved.
    pub stats: Option<Stats>,
}

/// What the end of a game asks of the code around the menu.
#[derive(Clone, Copy)]
pub struct Finish {
    /// The time to save for the puzzle under the cursor, where the game has
    /// set a new best time.
    pub save: Option<u32>,
    /// What to show of the puzzle under the cursor from now on.
    pub stats: Stats,
}

/// The background map that holds the menu's texts and icons.
pub const BG: u8 = 2;

/// How many puzzles the menu shows at a time.
pub const PAGE: usize = 15;

/// The frame of a puzzle on the menu's page: where its top left corner
/// lies on the screen, and whether the cursor is on the puzzle.
#[derive(Debug, Clone, Copy)]
pub struct Tile {
    pub selected: bool,
    pub dst: (i16, i16),
}

/// Where the frame of the puzzle at place `place` of a page lies on the
/// screen. A page has rows of five frames.
pub open spec fn tile_dst(place: int) -> (i16, i16) {
    ((52 + (place % 5) * 56) as i16, (8 + (place / 5) * 56) as i16)
}

/// The world that shows the icon of puzzle `index` inside its frame. The
/// icon of the puzzle under the cursor stands out before the others.
pub open spec fn icon_world(index: int, selected: bool) -> World {
    let dst = tile_dst(index % 15);
    World {
        bgm: WorldMode::Normal,
        lon: true,
        ron: true,
        bg_map_base: BG,
        gx: (dst.0 + 8) as i16,
        gp: if selected {
            -4i16
        } else {
            0i16
        },
        gy: (dst.1 + 8) as i16,
        mx: ((index % 5) * 40) as i16,
        my: (256 + (index / 5) * 40) as i16,
        w: 40,
        h: 40,
    }
}

/// A world that shows a line of the menu's text, but for how near it
/// seems: where it lies on the screen and in the background map, and how
/// large it is.
#[derive(Debug, Clone, Copy, PartialEq, Eq, Structural)]
pub struct Caption {
    pub gx: i16,
    pub gy: i16,
    pub mx: i16,
    pub my: i16,
    pub w: i16,
    pub h: i16,
}

/// The caption at place `place` of the four: the puzzle's number and under
/// it its size to the left, its name and under it its best time to the
/// right. Each has a stretch of 16 lines of the background map.
pub open spec fn caption(place: int, width: i16, text_height: i16) -> Caption {
    Caption {
        gx: if place < 2 {
            8
        } else {
            104
        },
        gy: if place % 2 == 0 {
            184
        } else {
            (184 + text_height) as i16
        },
        mx: 0,
        my: (place * 16) as i16,
        w: (width - 1) as i16,
        h: (text_height - 1) as i16,
    }
}

/// The captions among the first `places` of the four that have a text.
pub open spec fn spec_captions(widths: Seq<Option<i16>>, text_height: i16, places: int) -> Seq<
    Caption,
>
    decreases places,
{
    if places <= 0 {
        Seq::empty()
    } else {
        let before = spec_captions(widths, text_height, places - 1);
        match widths[places - 1] {
            Some(width) => before.push(caption(places - 1, width, text_height)),
            None => before,
        }
    }
}

/// The captions of the menu, in the order in which they are to be written.
/// `widths` holds the width of each of the four texts, and nothing for a
/// text that is empty and is not shown; a line of text is `text_height`
/// pixels high.
pub fn captions(widths: [Option<i16>; 4], text_height: i16) -> (captions: Vec<Caption>)
    requires
        i16::MIN < text_height <= i16::MAX - 184,
        forall|place: int|
            0 <= place < 4 ==> (#[trigger] widths@[place] matches Some(width) ==> width
                > i16::MIN),
    ensures
        captions@ == spec_captions(widths@, text_height, 4),
{
    let mut captions = Vec::new();
    let mut place: usize = 0;
    while place < 4
        invariant
            place <= 4,
            i16::MIN < text_height <= i16::MAX - 184,
            forall|place: int|
                0 <= place < 4 ==> (#[trigger] widths@[place] matches Some(width) ==> width
                    > i16::MIN),
            captions@ == spec_captions(widths@, text_height, place as int),
        decreases 4 - place,
    {
        if let Some(width) = widths[place] {
            captions.push(
                Caption {
                    gx: if place < 2 {
                        8
                    } else {
                        104
                    },
                    gy: if place % 2 == 0 {
                        184
                    } else {
                        184 + text_height
                    },
                    mx: 0,
                    my: place as i16 * 16,
                    w: width - 1,
                    h: text_height - 1,
                },
            );
        }
        place += 1;
    }
    captions
}

/// What a menu holds, as plain values.
pub struct MenuView {
    pub puzzles: Seq<Puzzle>,
    pub index: usize,
    pub cursor_delay: u8,
    pub times: Seq<Option<u32>>,
}

impl MenuView {
    /// Whether the menu has a time, or none, for every puzzle of the
    /// catalogue, and its cursor is on one of them.
    pub open spec fn wf(&self) -> bool {
        &&& self.puzzles.len() == PUZZLE_COUNT
        &&& self.times.len() == PUZZLE_COUNT
        &&& self.index < PUZZLE_COUNT
    }

    /// What the menu shows of the puzzle under its cursor.
    pub open spec fn stats(&self) -> Stats {
        let puzzle = self.puzzles[self.index as int];
        Stats {
            id: (self.index + 1) as usize,
            width: puzzle.width,
            height: puzzle.height,
            title: match self.times[self.index as int] {
                Some(_) => Some(puzzle.name),
                None => None,
            },
            time: match self.times[self.index as int] {
                Some(time) => Some(clock_of(time)),
                None => None,
            },
        }
    }

    /// Where the cursor is after the directions in `held` have acted on it:
    /// one puzzle back, one on, a row of five up and a row down, in this
    /// order, each as far as the catalogue goes; the way down ends on the
    /// last puzzle at the latest.
    pub open spec fn steered(&self, held: Buttons) -> int {
        let last = PUZZLE_COUNT - 1;
        let left = if held.ll && self.index > 0 {
            self.index - 1
        } else {
            self.index as int
        };
        let right = if held.lr && left < last {
            left + 1
        } else {
            left
        };
        let up = if held.lu && right > 4 {
            right - 5
        } else {
            right
        };
        if held.ld && up < last {
            if up + 5 < last {
                up + 5
            } else {
                last
            }
        } else {
            up
        }
    }

    /// Whether a direction in `held` acts on the cursor at all.
    pub open spec fn cursor_moves(&self, held: Buttons) -> bool {
        let last = PUZZLE_COUNT - 1;
        let left = if held.ll && self.index > 0 {
            self.index - 1
        } else {
            self.index as int
        };
        let right = if held.lr && left < last {
            left + 1
        } else {
            left
        };
        let up = if held.lu && right > 4 {
            right - 5
        } else {
            right
        };
        ||| held.ll && self.index > 0
        ||| held.lr && left < last
        ||| held.lu && right > 4
        ||| held.ld && up < last
    }

    /// The menu after a frame in which the player has chosen nothing: the
    /// cursor has moved, unless it rests after a move, and rests for four
    /// frames after this one.
    pub open spec fn browsed(&self, held: Buttons) -> MenuView {
        if self.cursor_delay != 0 {
            MenuView { cursor_delay: (self.cursor_delay - 1) as u8, ..*self }
        } else if self.cursor_moves(held) {
            MenuView { index: self.steered(held) as usize, cursor_delay: 4, ..*self }
        } else {
            *self
        }
    }

    /// The first puzzle of the page that the cursor is on.
    pub open spec fn page_start(&self) -> int {
        (self.index / PAGE) * PAGE
    }

    /// How many puzzles the page has that the cursor is on.
    pub open spec fn page_len(&self) -> int {
        if self.page_start() + PAGE <= PUZZLE_COUNT {
            PAGE as int
        } else {
            PUZZLE_COUNT - self.page_start()
        }
    }

    /// The frames of the puzzles of the page that the cursor is on.
    pub open spec fn tiles(&self) -> Seq<Tile> {
        Seq::new(
            self.page_len() as nat,
            |place: int|
                Tile { selected: self.page_start() + place == self.index, dst: tile_dst(place) },
        )
    }

    /// The worlds that show the icons of the solved puzzles among the first
    /// `places` of the page that the cursor is on.
    pub open spec fn icon_worlds(&self, places: int) -> Seq<World>
        decreases places,
    {
        if places <= 0 {
            Seq::empty()
        } else {
            let index = self.page_start() + places - 1;
            let before = self.icon_worlds(places - 1);
            if self.times[index].is_some() {
                before.push(icon_world(index, index == self.index))
            } else {
                before
            }
        }
    }

    /// Whether `time` is a new best time for the puzzle under the cursor.
    pub open spec fn improves(&self, time: u32) -> bool {
        match self.times[self.index as int] {
            Some(best) => best > time,
            None => true,
        }
    }
}

/// The menu of puzzles: the catalogue, the cursor, and the best time of
/// every puzzle that has been solved.
pub struct Menu {
    puzzles: &'static [Puzzle],
    index: usize,
    cursor_delay: u8,
    times: [Option<u32>; PUZZLE_COUNT],
}

impl View for Menu {
    type V = MenuView;

    closed spec fn view(&self) -> MenuView {
        MenuView {
            puzzles: self.puzzles@,
            index: self.index,
            cursor_delay: self.cursor_delay,
            times: self.times@,
        }
    }
}

impl Menu {
    /// A menu of the catalogue `puzzles` with the best times `times`, its
    /// cursor on the first puzzle.
    pub fn new(puzzles: &'static [Puzzle], times: [Option<u32>; PUZZLE_COUNT]) -> (menu: Menu)
        requires
            puzzles@.len() == PUZZLE_COUNT,
        ensures
            menu@ == (MenuView { puzzles: puzzles@, index: 0, cursor_delay: 0, times: times@ }),
            menu@.wf(),
    {
        Self { puzzles, index: 0, cursor_delay: 0, times }
    }

    /// The frames of the puzzles of the page that the cursor is on, in the
    /// order in which they are to be drawn, and the worlds that show the
    /// icons of the solved puzzles among them.
    pub fn draw(&self) -> (out: (Vec<Tile>, Vec<World>))
        requires
            self@.wf(),
        ensures
            out.0@ == self@.tiles(),
            out.1@ == self@.icon_worlds(self@.page_len()),
    {
        let mut tiles = Vec::new();
        let mut worlds = Vec::new();
        let page = self.index / PAGE;
        let first = page * PAGE;
        let last = if (page + 1) * PAGE < PUZZLE_COUNT {
            (page + 1) * PAGE
        } else {
            PUZZLE_COUNT
        };
        let mut index = first;
        while index < last
            invariant
                self@.wf(),
                first == self@.page_start(),
                last == first + self@.page_len(),
                first <= index <= last <= PUZZLE_COUNT,
                tiles@.len() == index - first,
                forall|place: int|
                    0 <= place < index - first ==> tiles@[place] == self@.tiles()[place],
                worlds@ == self@.icon_worlds(index - first),
            decreases last - index,
        {
            let index_on_page = index % PAGE;
            let (row, col) = (index_on_page / 5, index_on_page % 5);
            let dst = (52 + col as i16 * 56, 8 + row as i16 * 56);
            let selected = index == self.index;
            if self.times[index].is_some() {
                worlds.push(
                    World {
                        bgm: WorldMode::Normal,
                        lon: true,
                        ron: true,
                        bg_map_base: BG,
                        gx: dst.0 + 8,
                        gp: if selected {
                            -4
                        } else {
                            0
                        },
                        gy: dst.1 + 8,
                        mx: (index as i16 % 5) * 40,
                        my: 256 + (index as i16 / 5) * 40,
                        w: 40,
                        h: 40,
                    },
                );
            }
            tiles.push(Tile { selected, dst });
            index += 1;
        }
        assert(tiles@ =~= self@.tiles());
        (tiles, worlds)
    }

    /// Moves the menu on by one frame. A press of A chooses the puzzle
    /// under the cursor and leaves the menu as it is. Otherwise the
    /// directions in `held` move the cursor, and a move is followed by four
    /// frames of rest.
    pub fn update(&mut self, held: &Buttons, pressed: &Buttons) -> (frame: MenuFrame)
        requires
            old(self)@.wf(),
        ensures
            final(self)@.wf(),
            final(self)@ == if pressed.a {
                old(self)@
            } else {
                old(self)@.browsed(*held)
            },
            frame.chosen == if pressed.a {
                Some(&old(self)@.puzzles[old(self)@.index as int])
            } else {
                None
            },
            frame.stats == if !pressed.a && old(self)@.cursor_delay == 0 && old(self)@.cursor_moves(
                *held,
            ) {
                Some(final(self)@.stats())
            } else {
                None
            },
    {
        if pressed.a {
            return MenuFrame { chosen: Some(&self.puzzles[self.index]), stats: None };
        }
        let mut cursor_moved = false;
        if held.ll && self.index > 0 && self.cursor_delay == 0 {
            self.index -= 1;
            cursor_moved = true;
        }
        if held.lr && self.index < PUZZLE_COUNT - 1 && self.cursor_delay == 0 {
            self.index += 1;
            cursor_moved = true;
        }
        if held.lu && self.index > 4 && self.cursor_delay == 0 {
            self.index -= 5;
            cursor_moved = true;
        }
        if held.ld && self.index < PUZZLE_COUNT - 1 && self.cursor_delay == 0 {
            self.index = if self.index + 5 < PUZZLE_COUNT - 1 {
                self.index + 5
            } else {
                PUZZLE_COUNT - 1
            };
            cursor_moved = true;
        }
        if cursor_moved {
            self.cursor_delay = 4;
            MenuFrame { chosen: None, stats: Some(self.display_stats()) }
        } else {
            self.cursor_delay = self.cursor_delay.saturating_sub(1);
            MenuFrame { chosen: None, stats: None }
        }
    }

    /// Takes in how a game of the puzzle under the cursor has ended. A win
    /// in less time than the puzzle's best, or the first win, sets a new
    /// best time, which is to be saved.
    pub fn finish_puzzle(&mut self, result: GameResult) -> (finish: Finish)
        requires
            old(self)@.wf(),
        ensures
            final(self)@.wf(),
            final(self)@ == (match result {
                GameResult::Won(time) if old(self)@.improves(time) => MenuView {
                    times: old(self)@.times.update(old(self)@.index as int, Some(time)),
                    ..old(self)@
                },
                _ => old(self)@,
            }),
            finish.save == (match result {
                GameResult::Won(time) if old(self)@.improves(time) => Some(time),
                _ => None,
            }),
            finish.stats == final(self)@.stats(),
    {
        let mut save = None;
        if let GameResult::Won(time) = result {
            let improves = match self.times[self.index] {
                Some(best) => best > time,
                None => true,
            };
            if improves {
                self.times[self.index] = Some(time);
                save = Some(time);
            }
        }
        Finish { save, stats: self.display_stats() }
    }

    /// What the menu shows of the puzzle under its cursor: its number and
    /// size, and once it has been solved its name and its best time.
    pub fn display_stats(&self) -> (stats: Stats)
        requires
            self@.wf(),
        ensures
            stats == self@.stats(),
    {
        let puzzle = &self.puzzles[self.index];
        let (done, seconds) = match self.times[self.index] {
            Some(time) => (true, time / 50),
            None => (false, 0),
        };
        Stats {
            id: self.index + 1,
            width: puzzle.width,
            height: puzzle.height,
            title: if done {
                Some(puzzle.name)
            } else {
                None
            },
            time: if done {
                Some((seconds / 60 / 60, (seconds / 60) % 60, seconds % 60))
            } else {
                None
            },
        }
    }
}

} // verus!
