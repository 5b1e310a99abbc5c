use virtual_picross::game::{
    can_load, Frame, Game, GameAssets, Input, PuzzleCell, PuzzleState, Zoom,
};
use virtual_picross::game::scene::TextSize;
use virtual_picross::puzzle::Puzzle;
use virtual_picross::state::Buttons;

static BLOCK_CELLS: [u8; 25] = [
    1, 1, 1, 1, 1, //
    1, 0, 0, 0, 1, //
    1, 0, 1, 0, 1, //
    1, 0, 0, 0, 1, //
    1, 1, 1, 1, 1,
];

static BLOCK: Puzzle =
    Puzzle { name: b"Block", source: b"Test", width: 5, height: 5, cells: &BLOCK_CELLS };

static PAIR_CELLS: [u8; 4] = [1, 0, 0, 1];

static PAIR: Puzzle =
    Puzzle { name: b"Pair", source: b"Test", width: 2, height: 2, cells: &PAIR_CELLS };

static WIDE_CELLS: [u8; 40] = [
    1, 0, 1, 0, 1, 0, 1, 0, 1, 0, 1, 0, 1, 0, 1, 0, 1, 0, 1, 0, //
    0, 0, 0, 0, 0, 0, 0, 0, 0, 0, 0, 0, 0, 0, 0, 0, 0, 0, 0, 0,
];

static WIDE: Puzzle =
    Puzzle { name: b"Wide", source: b"Test", width: 20, height: 2, cells: &WIDE_CELLS };

const NONE: Buttons =
    Buttons { a: false, b: false, sta: false, ll: false, lr: false, lu: false, ld: false };

const IDLE: Input = Input { directions_held: NONE, buttons_pressed: NONE, buttons_held: NONE };

fn tap_a() -> Input {
    let a = Buttons { a: true, ..NONE };
    Input { directions_held: NONE, buttons_pressed: a, buttons_held: a }
}

fn tap_b() -> Input {
    let b = Buttons { b: true, ..NONE };
    Input { directions_held: NONE, buttons_pressed: b, buttons_held: b }
}

fn go(direction: Buttons) -> Input {
    Input { directions_held: direction, buttons_pressed: NONE, buttons_held: NONE }
}

fn rest(game: &mut Game) {
    for _ in 0..4 {
        game.update(&IDLE);
    }
}

fn cell(game: &Game, row: usize, col: usize) -> PuzzleCell {
    game.cells()[row * game.puzzle().width + col]
}

fn clues(game: &Game, rows: bool, line: usize) -> Vec<(u8, bool)> {
    let table = if rows { game.row_numbers() } else { game.col_numbers() };
    table[line].to_vec()
}

#[test]
fn new_game_is_empty() {
    let game = Game::new();
    assert_eq!(game.puzzle().width, 0);
    assert_eq!(game.puzzle().height, 0);
    assert!(game.cells().iter().all(|c| *c == PuzzleCell::Empty));
    assert!(game.row_numbers().is_empty());
    assert!(game.col_numbers().is_empty());
    assert_eq!(game.puzzle_pos(), (192, 112));
    assert_eq!(game.zoom(), Zoom::One);
    assert_eq!(game.cursor(), (0, 0));
    assert_eq!(game.state(), PuzzleState::Playing);
    assert_eq!(game.timer(), 0);
    assert_eq!(game.size_cells(), (1, 1));
}

#[test]
fn load_puzzle_sets_clues_and_layout() {
    let mut game = Game::new();
    game.load_puzzle(&BLOCK);
    assert_eq!(game.puzzle().width, 5);
    assert_eq!(game.row_numbers().len(), 5);
    assert_eq!(game.col_numbers().len(), 5);
    assert_eq!(clues(&game, true, 0), vec![(5, false)]);
    assert_eq!(clues(&game, true, 1), vec![(1, false), (1, false)]);
    assert_eq!(clues(&game, true, 2), vec![(1, false), (1, false), (1, false)]);
    assert_eq!(clues(&game, false, 4), vec![(5, false)]);
    assert_eq!(game.size_cells(), (9, 9));
    assert_eq!(game.zoom(), Zoom::Two);
    assert_eq!(game.puzzle_pos(), (168, 88));
    assert_eq!(game.cursor(), (0, 0));
    assert_eq!(game.state(), PuzzleState::Playing);
    assert_eq!(game.timer(), 0);
}

#[test]
fn load_puzzle_draws_large_puzzles_small() {
    let mut game = Game::new();
    game.load_puzzle(&WIDE);
    assert_eq!(game.size_cells(), (31, 4));
    assert_eq!(game.zoom(), Zoom::One);
    assert_eq!(game.puzzle_pos(), (148, 104));
    assert_eq!(clues(&game, true, 0), vec![(1, false); 10]);
    assert!(clues(&game, true, 1).is_empty());
    assert_eq!(clues(&game, false, 0), vec![(1, false)]);
    assert!(clues(&game, false, 1).is_empty());
}

#[test]
fn load_puzzle_clears_the_marks() {
    let mut game = Game::new();
    game.load_puzzle(&PAIR);
    game.update(&tap_a());
    assert_eq!(cell(&game, 0, 0), PuzzleCell::Full);
    game.load_puzzle(&PAIR);
    assert_eq!(cell(&game, 0, 0), PuzzleCell::Empty);
    assert_eq!(clues(&game, true, 0), vec![(1, false)]);
    assert_eq!(game.timer(), 0);
}

#[test]
fn zoom_cell_pixels() {
    assert_eq!(Zoom::One.cell_pixels(), 8);
    assert_eq!(Zoom::Two.cell_pixels(), 16);
}

#[test]
fn row_and_column_counts_read_the_grid() {
    let mut game = Game::new();
    game.load_puzzle(&BLOCK);
    assert_eq!(game.row_count(2).as_slice(), &[(1, false), (1, false), (1, false)]);
    assert_eq!(game.col_count(0).as_slice(), &[(5, false)]);
    assert_eq!(game.col_count(1).as_slice(), &[(1, false), (1, false)]);
}

#[test]
fn update_counts_the_frames() {
    let mut game = Game::new();
    game.load_puzzle(&BLOCK);
    for frame in 1..=49 {
        let out = game.update(&IDLE);
        assert!(out.clock.is_none());
        assert!(out.result.is_none());
        assert!(!out.text_moves);
        assert_eq!(game.timer(), frame);
    }
    let out: Frame = game.update(&IDLE);
    assert_eq!(out.clock, Some((0, 0, 1)));
    assert_eq!(game.timer(), 50);
}

#[test]
fn update_moves_the_cursor_round_the_grid() {
    let mut game = Game::new();
    game.load_puzzle(&BLOCK);
    game.update(&go(Buttons { ll: true, ..NONE }));
    assert_eq!(game.cursor(), (4, 0));
    game.update(&go(Buttons { lr: true, ..NONE }));
    assert_eq!(game.cursor(), (4, 0));
    rest(&mut game);
    game.update(&go(Buttons { lr: true, ..NONE }));
    assert_eq!(game.cursor(), (0, 0));
    rest(&mut game);
    game.update(&go(Buttons { lu: true, ..NONE }));
    assert_eq!(game.cursor(), (0, 4));
    rest(&mut game);
    game.update(&go(Buttons { ld: true, lr: true, ..NONE }));
    assert_eq!(game.cursor(), (1, 0));
    rest(&mut game);
    game.update(&go(Buttons { ll: true, lr: true, ..NONE }));
    assert_eq!(game.cursor(), (1, 0));
    game.update(&go(Buttons { ld: true, ..NONE }));
    assert_eq!(game.cursor(), (1, 0));
}

#[test]
fn update_marks_and_clears_cells() {
    let mut game = Game::new();
    game.load_puzzle(&BLOCK);
    game.update(&tap_a());
    assert_eq!(cell(&game, 0, 0), PuzzleCell::Full);
    game.update(&IDLE);
    game.update(&tap_a());
    assert_eq!(cell(&game, 0, 0), PuzzleCell::Empty);
    game.update(&IDLE);
    game.update(&tap_b());
    assert_eq!(cell(&game, 0, 0), PuzzleCell::Cross);
    game.update(&IDLE);
    game.update(&tap_b());
    assert_eq!(cell(&game, 0, 0), PuzzleCell::Empty);
    game.update(&IDLE);
    game.update(&tap_b());
    game.update(&IDLE);
    game.update(&tap_a());
    assert_eq!(cell(&game, 0, 0), PuzzleCell::Full);
    game.update(&IDLE);
    game.update(&tap_b());
    assert_eq!(cell(&game, 0, 0), PuzzleCell::Cross);
}

#[test]
fn update_prefers_a_over_b() {
    let mut game = Game::new();
    game.load_puzzle(&BLOCK);
    let both = Buttons { a: true, b: true, ..NONE };
    game.update(&Input { directions_held: NONE, buttons_pressed: both, buttons_held: both });
    assert_eq!(cell(&game, 0, 0), PuzzleCell::Full);
}

#[test]
fn update_paints_while_a_button_is_held() {
    let mut game = Game::new();
    game.load_puzzle(&BLOCK);
    let a = Buttons { a: true, ..NONE };
    game.update(&Input { directions_held: NONE, buttons_pressed: a, buttons_held: a });
    let right = Buttons { lr: true, ..NONE };
    game.update(&Input { directions_held: right, buttons_pressed: NONE, buttons_held: a });
    assert_eq!(game.cursor(), (1, 0));
    assert_eq!(cell(&game, 0, 0), PuzzleCell::Full);
    assert_eq!(cell(&game, 0, 1), PuzzleCell::Full);
    game.update(&Input { directions_held: NONE, buttons_pressed: NONE, buttons_held: NONE });
    rest(&mut game);
    game.update(&go(right));
    assert_eq!(cell(&game, 0, 2), PuzzleCell::Empty);
}

#[test]
fn update_keeps_the_clues_of_the_marked_lines() {
    let mut game = Game::new();
    game.load_puzzle(&PAIR);
    game.update(&tap_b());
    assert_eq!(clues(&game, true, 0), vec![(1, false)]);
    game.update(&IDLE);
    game.update(&go(Buttons { lr: true, ..NONE }));
    game.update(&tap_b());
    assert_eq!(cell(&game, 0, 1), PuzzleCell::Cross);
    assert_eq!(clues(&game, true, 0), vec![(1, false)]);
    assert_eq!(clues(&game, false, 1), vec![(1, false)]);
    game.update(&IDLE);
    rest(&mut game);
    game.update(&go(Buttons { ll: true, ..NONE }));
    game.update(&tap_a());
    assert_eq!(cell(&game, 0, 0), PuzzleCell::Full);
    assert_eq!(clues(&game, true, 0), vec![(1, true)]);
    assert_eq!(clues(&game, false, 0), vec![(1, true)]);
    assert_eq!(clues(&game, true, 1), vec![(1, false)]);
}

fn solve_pair(game: &mut Game, cross_the_rest: bool) {
    game.load_puzzle(&PAIR);
    game.update(&tap_a());
    game.update(&IDLE);
    game.update(&go(Buttons { lr: true, ..NONE }));
    if cross_the_rest {
        game.update(&tap_b());
        game.update(&IDLE);
    }
    rest(game);
    game.update(&go(Buttons { ld: true, ..NONE }));
    assert_eq!(game.cursor(), (1, 1));
    assert!(!game.has_been_solved());
    assert_eq!(game.state(), PuzzleState::Playing);
    if cross_the_rest {
        rest(game);
        game.update(&go(Buttons { ll: true, ..NONE }));
        game.update(&tap_b());
        game.update(&IDLE);
        assert_eq!(cell(game, 1, 0), PuzzleCell::Cross);
        rest(game);
        game.update(&go(Buttons { lr: true, ..NONE }));
    }
    game.update(&tap_a());
}

#[test]
fn completion_with_empty_cells() {
    let mut game = Game::new();
    solve_pair(&mut game, false);
    assert_eq!(cell(&game, 0, 1), PuzzleCell::Empty);
    assert!(game.has_been_solved());
    assert_eq!(game.state(), PuzzleState::Moving);
}

#[test]
fn completion_with_crossed_cells() {
    let mut game = Game::new();
    solve_pair(&mut game, true);
    assert_eq!(cell(&game, 0, 1), PuzzleCell::Cross);
    assert!(game.has_been_solved());
    assert_eq!(game.state(), PuzzleState::Moving);
    assert_eq!(clues(&game, true, 0), vec![(1, true)]);
    assert_eq!(clues(&game, false, 1), vec![(1, true)]);
}

#[test]
fn completion_fails_with_a_stray_mark() {
    let mut game = Game::new();
    game.load_puzzle(&PAIR);
    assert!(!game.has_been_solved());
    game.update(&tap_a());
    game.update(&IDLE);
    game.update(&go(Buttons { lr: true, ..NONE }));
    game.update(&tap_a());
    game.update(&IDLE);
    rest(&mut game);
    game.update(&go(Buttons { ld: true, ..NONE }));
    game.update(&tap_a());
    assert_eq!(game.state(), PuzzleState::Playing);
    assert!(!game.has_been_solved());
}

#[test]
fn finished_picture_moves_and_shows_its_text() {
    let mut game = Game::new();
    solve_pair(&mut game, false);
    let solved_at = game.timer();
    assert_eq!(game.zoom(), Zoom::Two);
    assert_eq!(game.size_cells(), (4, 4));
    assert_eq!(game.puzzle_pos(), (176, 96));
    for step in 1..=20 {
        let out = game.update(&tap_a());
        assert!(out.result.is_none());
        assert!(out.clock.is_none());
        assert!(!out.text_moves);
        assert_eq!(game.puzzle_pos(), (176, 96 - step));
        assert_eq!(game.state(), PuzzleState::Moving);
    }
    game.update(&IDLE);
    assert_eq!(game.state(), PuzzleState::ShowingText);
    assert_eq!(game.puzzle_pos(), (176, 76));
    let out = game.update(&IDLE);
    assert!(out.text_moves);
    assert!(out.result.is_none());
    let out = game.update(&tap_b());
    assert!(out.result.is_none());
    let out = game.update(&tap_a());
    assert_eq!(out.result, Some(solved_at));
    let start = Buttons { sta: true, ..NONE };
    let input = Input { directions_held: NONE, buttons_pressed: start, buttons_held: start };
    let out = game.update(&input);
    assert_eq!(out.result, Some(solved_at));
    assert_eq!(game.timer(), solved_at);
    assert_eq!(game.state(), PuzzleState::ShowingText);
}

static IMAGES: [u8; 57] = {
    let mut images = [0u8; 57];
    let mut i = 0;
    while i < 57 {
        images[i] = i as u8;
        i += 1;
    }
    images
};

fn assets() -> GameAssets<u8> {
    static TABLE: std::sync::OnceLock<[&'static u8; 57]> = std::sync::OnceLock::new();
    let table = TABLE.get_or_init(|| std::array::from_fn(|i| &IMAGES[i]));
    GameAssets(table)
}

#[test]
fn assets_of_cells() {
    let assets = assets();
    assert_eq!(*assets.square(false, false, PuzzleCell::Empty), 0);
    assert_eq!(*assets.square(false, false, PuzzleCell::Cross), 1);
    assert_eq!(*assets.square(false, false, PuzzleCell::Full), 2);
    assert_eq!(*assets.square(false, true, PuzzleCell::Empty), 3);
    assert_eq!(*assets.square(false, true, PuzzleCell::Full), 5);
    assert_eq!(*assets.square(true, false, PuzzleCell::Cross), 7);
    assert_eq!(*assets.square(true, true, PuzzleCell::Empty), 9);
    assert_eq!(*assets.square(true, true, PuzzleCell::Full), 11);
}

#[test]
fn assets_of_edges_and_numbers() {
    let assets = assets();
    assert_eq!(*assets.square_right(), 12);
    assert_eq!(*assets.square_bottom(), 13);
    assert_eq!(*assets.square_bottom_right(), 14);
    assert_eq!(*assets.square_hover(), 15);
    assert_eq!(*assets.square_final(), 16);
    assert_eq!(*assets.number(1), 17);
    assert_eq!(*assets.number(20), 36);
    assert_eq!(*assets.number_dim(1), 37);
    assert_eq!(*assets.number_dim(20), 56);
}

static IMAGES_2X: [u8; 57] = {
    let mut images = [0u8; 57];
    let mut i = 0;
    while i < 57 {
        images[i] = 100 + i as u8;
        i += 1;
    }
    images
};

fn assets_2x() -> GameAssets<u8> {
    static TABLE: std::sync::OnceLock<[&'static u8; 57]> = std::sync::OnceLock::new();
    let table = TABLE.get_or_init(|| std::array::from_fn(|i| &IMAGES_2X[i]));
    GameAssets(table)
}

fn drawn(game: &Game) -> Vec<(u8, (i16, i16))> {
    game.draw(&assets(), &assets_2x()).iter().map(|sprite| (*sprite.image, sprite.dst)).collect()
}

#[test]
fn draw_of_a_fresh_game() {
    let mut game = Game::new();
    game.load_puzzle(&PAIR);
    assert_eq!(
        drawn(&game),
        vec![
            (100, (176, 96)),
            (100, (192, 96)),
            (112, (208, 96)),
            (100, (176, 112)),
            (100, (192, 112)),
            (112, (208, 112)),
            (113, (176, 128)),
            (113, (192, 128)),
            (114, (208, 128)),
            (115, (176, 96)),
            (117, (144, 96)),
            (117, (144, 112)),
            (117, (176, 64)),
            (117, (192, 64)),
        ]
    );
}

#[test]
fn draw_shows_marks_cursor_and_found_clues() {
    let mut game = Game::new();
    game.load_puzzle(&PAIR);
    game.update(&tap_a());
    game.update(&IDLE);
    game.update(&go(Buttons { lr: true, ..NONE }));
    game.update(&tap_b());
    let sprites = drawn(&game);
    assert_eq!(sprites.len(), 14);
    assert_eq!(sprites[0], (102, (176, 96)));
    assert_eq!(sprites[1], (101, (192, 96)));
    assert_eq!(sprites[9], (115, (192, 96)));
    assert_eq!(sprites[10], (137, (144, 96)));
    assert_eq!(sprites[11], (117, (144, 112)));
    assert_eq!(sprites[12], (137, (176, 64)));
    assert_eq!(sprites[13], (117, (192, 64)));
}

#[test]
fn draw_of_a_wide_puzzle() {
    let mut game = Game::new();
    game.load_puzzle(&WIDE);
    let sprites = drawn(&game);
    assert_eq!(sprites.len(), 2 * 21 + 21 + 1 + 10 + 10);
    for col in 0..20 {
        let bright = col == 5 || col == 10 || col == 15;
        let image = if bright { 6 } else { 0 };
        assert_eq!(sprites[col], (image, (148 + 8 * col as i16, 104)));
        assert_eq!(sprites[21 + col], (image, (148 + 8 * col as i16, 112)));
        assert_eq!(sprites[42 + col], (13, (148 + 8 * col as i16, 120)));
    }
    assert_eq!(sprites[20], (12, (308, 104)));
    assert_eq!(sprites[41], (12, (308, 112)));
    assert_eq!(sprites[62], (14, (308, 120)));
    assert_eq!(sprites[63], (15, (148, 104)));
    for k in 0..10 {
        assert_eq!(sprites[64 + k], (17, (132 - 8 * k as i16, 104)));
    }
    for k in 0..10 {
        assert_eq!(sprites[74 + k], (17, (148 + 16 * k as i16, 88)));
    }
}

#[test]
fn draw_of_the_finished_picture() {
    let mut game = Game::new();
    solve_pair(&mut game, true);
    let sprites = drawn(&game);
    assert_eq!(sprites.len(), 9);
    assert_eq!(sprites[0], (102, (176, 96)));
    assert_eq!(sprites[1], (101, (192, 96)));
    assert_eq!(sprites[8], (114, (208, 128)));
    while game.state() == PuzzleState::Moving {
        game.update(&IDLE);
    }
    assert_eq!(drawn(&game), vec![(116, (176, 76)), (116, (192, 92))]);
}

static TALL_CELLS: [u8; 20] = [1, 0, 1, 0, 1, 0, 1, 0, 1, 0, 1, 0, 1, 0, 1, 0, 1, 0, 1, 0];

static BLANK_CELLS: [u8; 12] = [0; 12];

#[test]
fn can_load_puzzles_that_fit() {
    assert!(can_load(&BLOCK));
    assert!(can_load(&PAIR));
    assert!(can_load(&WIDE));
    let nine = Puzzle { name: b"", source: b"", width: 1, height: 9, cells: &BLANK_CELLS[..9] };
    assert!(can_load(&nine));
    let seven_runs =
        Puzzle { name: b"", source: b"", width: 1, height: 14, cells: &TALL_CELLS[..14] };
    assert!(can_load(&seven_runs));
}

#[test]
fn can_load_rejects_what_does_not_fit() {
    let short = Puzzle { name: b"", source: b"", width: 5, height: 5, cells: &BLOCK_CELLS[..24] };
    assert!(!can_load(&short));
    let wide = Puzzle { name: b"", source: b"", width: 21, height: 1, cells: &BLOCK_CELLS[..21] };
    assert!(!can_load(&wide));
    let high = Puzzle { name: b"", source: b"", width: 1, height: 21, cells: &BLOCK_CELLS[..21] };
    assert!(!can_load(&high));
    let tall = Puzzle { name: b"", source: b"", width: 1, height: 20, cells: &TALL_CELLS };
    assert!(!can_load(&tall));
    let blank = Puzzle { name: b"", source: b"", width: 1, height: 12, cells: &BLANK_CELLS };
    assert!(!can_load(&blank));
    let eleven = Puzzle { name: b"", source: b"", width: 1, height: 11, cells: &BLANK_CELLS[..11] };
    assert!(!can_load(&eleven));
}

#[test]
fn worlds_show_the_clock_and_then_the_texts() {
    let mut game = Game::new();
    game.load_puzzle(&PAIR);
    let name = TextSize { width: 40, final_width: 61 };
    let source = TextSize { width: 25, final_width: 30 };
    let worlds = game.worlds(48, name, source, 16);
    assert_eq!(worlds.len(), 1);
    assert_eq!((worlds[0].gx, worlds[0].gp, worlds[0].gy), (8, 0, 8));
    assert_eq!((worlds[0].mx, worlds[0].my), (0, 0));
    assert_eq!((worlds[0].w, worlds[0].h), (47, 20));
    assert_eq!(worlds[0].bg_map_base, 1);
    solve_pair(&mut game, false);
    assert_eq!(game.worlds(48, name, source, 16).len(), 1);
    while game.state() == PuzzleState::Moving {
        game.update(&IDLE);
    }
    let worlds = game.worlds(48, name, source, 16);
    assert_eq!(worlds.len(), 3);
    assert_eq!((worlds[0].w, worlds[0].h), (47, 20));
    assert_eq!((worlds[1].gx, worlds[1].gp, worlds[1].gy), (162, 0, 184));
    assert_eq!((worlds[1].mx, worlds[1].my), (0, 256));
    assert_eq!((worlds[1].w, worlds[1].h), (39, 15));
    assert_eq!((worlds[2].gx, worlds[2].gp, worlds[2].gy), (177, 0, 200));
    assert_eq!((worlds[2].mx, worlds[2].my), (0, 384));
    assert_eq!((worlds[2].w, worlds[2].h), (24, 15));
}
