use virtual_picross::game::GameResult;
use virtual_picross::menu::{captions, Caption, Menu};
use virtual_picross::puzzle::{Puzzle, PUZZLE_COUNT};
use virtual_picross::state::Buttons;

static CELLS: [u8; 400] = [0; 400];

static PUZZLES: [Puzzle; PUZZLE_COUNT] = {
    let mut puzzles =
        [Puzzle { name: b"", source: b"", width: 0, height: 0, cells: &[] }; PUZZLE_COUNT];
    let mut i = 0;
    while i < PUZZLE_COUNT {
        puzzles[i] = Puzzle {
            name: b"Puzzle",
            source: b"Test",
            width: 1 + i % 20,
            height: 1 + i / 2,
            cells: CELLS.split_at((1 + i % 20) * (1 + i / 2)).0,
        };
        i += 1;
    }
    puzzles
};

const NONE: Buttons =
    Buttons { a: false, b: false, sta: false, ll: false, lr: false, lu: false, ld: false };

fn menu() -> Menu {
    Menu::new(&PUZZLES, [None; PUZZLE_COUNT])
}

fn go(menu: &mut Menu, held: Buttons) -> usize {
    for _ in 0..4 {
        let frame = menu.update(&NONE, &NONE);
        assert!(frame.stats.is_none());
    }
    menu.update(&held, &NONE);
    menu.display_stats().id - 1
}

#[test]
fn menu_starts_on_the_first_puzzle() {
    let menu = menu();
    let stats = menu.display_stats();
    assert_eq!(stats.id, 1);
    assert_eq!((stats.width, stats.height), (1, 1));
    assert!(stats.title.is_none());
    assert!(stats.time.is_none());
}

#[test]
fn menu_chooses_the_puzzle_under_the_cursor() {
    let mut menu = menu();
    let frame = menu.update(&NONE, &Buttons { a: true, ..NONE });
    assert!(std::ptr::eq(frame.chosen.unwrap(), &PUZZLES[0]));
    menu.update(&Buttons { lr: true, ..NONE }, &NONE);
    let frame = menu.update(&Buttons { lr: true, ..NONE }, &Buttons { a: true, ..NONE });
    assert!(std::ptr::eq(frame.chosen.unwrap(), &PUZZLES[1]));
    assert!(frame.stats.is_none());
    assert_eq!(menu.display_stats().id, 2);
}

#[test]
fn menu_cursor_moves_and_rests() {
    let mut menu = menu();
    let right = Buttons { lr: true, ..NONE };
    let frame = menu.update(&right, &NONE);
    assert!(frame.chosen.is_none());
    assert_eq!(frame.stats.unwrap().id, 2);
    for _ in 0..4 {
        let frame = menu.update(&right, &NONE);
        assert!(frame.stats.is_none());
        assert_eq!(menu.display_stats().id, 2);
    }
    let frame = menu.update(&right, &NONE);
    assert_eq!(frame.stats.unwrap().id, 3);
    assert_eq!((frame.stats.unwrap().width, frame.stats.unwrap().height), (3, 2));
}

#[test]
fn menu_cursor_stays_in_the_catalogue() {
    let mut menu = menu();
    assert_eq!(go(&mut menu, Buttons { ll: true, ..NONE }), 0);
    assert_eq!(go(&mut menu, Buttons { lu: true, ..NONE }), 0);
    assert_eq!(go(&mut menu, Buttons { ld: true, ..NONE }), 5);
    assert_eq!(go(&mut menu, Buttons { lu: true, ..NONE }), 0);
    for step in 1..=5 {
        assert_eq!(go(&mut menu, Buttons { ld: true, ..NONE }), 5 * step);
    }
    assert_eq!(go(&mut menu, Buttons { lr: true, ..NONE }), 26);
    assert_eq!(go(&mut menu, Buttons { ld: true, ..NONE }), 29);
    assert_eq!(go(&mut menu, Buttons { ld: true, ..NONE }), 29);
    assert_eq!(go(&mut menu, Buttons { lr: true, ..NONE }), 29);
    assert_eq!(go(&mut menu, Buttons { lu: true, ..NONE }), 24);
    assert_eq!(go(&mut menu, Buttons { ll: true, ..NONE }), 23);
    assert_eq!(go(&mut menu, Buttons { ll: true, lr: true, ..NONE }), 23);
    assert_eq!(go(&mut menu, Buttons { lu: true, ld: true, ..NONE }), 23);
    assert_eq!(go(&mut menu, Buttons { ll: true, lu: true, ..NONE }), 17);
    assert_eq!(go(&mut menu, Buttons { lr: true, ld: true, ..NONE }), 23);
    assert_eq!(go(&mut menu, Buttons { ld: true, ..NONE }), 28);
    assert_eq!(go(&mut menu, Buttons { lr: true, lu: true, ld: true, ..NONE }), 29);
}

#[test]
fn menu_keeps_the_best_time() {
    let mut menu = menu();
    let finish = menu.finish_puzzle(GameResult::Quit);
    assert!(finish.save.is_none());
    assert!(finish.stats.time.is_none());
    assert!(finish.stats.title.is_none());
    let finish = menu.finish_puzzle(GameResult::Won(50 * 3725));
    assert_eq!(finish.save, Some(50 * 3725));
    assert_eq!(finish.stats.time, Some((1, 2, 5)));
    assert_eq!(finish.stats.title, Some(&b"Puzzle"[..]));
    let finish = menu.finish_puzzle(GameResult::Won(50 * 3725));
    assert!(finish.save.is_none());
    let finish = menu.finish_puzzle(GameResult::Won(50 * 3725 + 1));
    assert!(finish.save.is_none());
    assert_eq!(finish.stats.time, Some((1, 2, 5)));
    let finish = menu.finish_puzzle(GameResult::Won(149));
    assert_eq!(finish.save, Some(149));
    assert_eq!(finish.stats.time, Some((0, 0, 2)));
    menu.update(&Buttons { lr: true, ..NONE }, &NONE);
    assert!(menu.display_stats().time.is_none());
    let finish = menu.finish_puzzle(GameResult::Won(0));
    assert_eq!(finish.save, Some(0));
    assert_eq!(finish.stats.time, Some((0, 0, 0)));
    assert_eq!(finish.stats.id, 2);
}

#[test]
fn menu_draws_the_page_of_the_cursor() {
    let mut times = [None; PUZZLE_COUNT];
    times[1] = Some(100);
    times[7] = Some(200);
    times[16] = Some(300);
    let mut menu = Menu::new(&PUZZLES, times);
    menu.update(&Buttons { lr: true, ..NONE }, &NONE);
    let (tiles, worlds) = menu.draw();
    assert_eq!(tiles.len(), 15);
    for (place, tile) in tiles.iter().enumerate() {
        assert_eq!(tile.selected, place == 1);
        assert_eq!(tile.dst, (52 + 56 * (place as i16 % 5), 8 + 56 * (place as i16 / 5)));
    }
    assert_eq!(worlds.len(), 2);
    assert_eq!((worlds[0].gx, worlds[0].gp, worlds[0].gy), (116, -4, 16));
    assert_eq!((worlds[0].mx, worlds[0].my), (40, 256));
    assert_eq!((worlds[1].gx, worlds[1].gp, worlds[1].gy), (172, 0, 72));
    assert_eq!((worlds[1].mx, worlds[1].my), (80, 296));
    for world in worlds {
        assert_eq!((world.w, world.h), (40, 40));
        assert_eq!(world.bg_map_base, 2);
    }
}

#[test]
fn menu_draws_the_second_page() {
    let mut times = [None; PUZZLE_COUNT];
    times[7] = Some(200);
    times[16] = Some(300);
    let mut menu = Menu::new(&PUZZLES, times);
    for _ in 0..3 {
        go(&mut menu, Buttons { ld: true, ..NONE });
    }
    let (tiles, worlds) = menu.draw();
    assert_eq!(tiles.len(), 15);
    assert!(tiles[0].selected);
    assert_eq!(tiles[14].dst, (276, 120));
    assert_eq!(worlds.len(), 1);
    assert_eq!((worlds[0].gx, worlds[0].gp, worlds[0].gy), (116, 0, 16));
    assert_eq!((worlds[0].mx, worlds[0].my), (40, 376));
}

#[test]
fn captions_of_the_texts_that_are_shown() {
    let all = captions([Some(30), Some(40), Some(50), Some(60)], 16);
    assert_eq!(
        all,
        vec![
            Caption { gx: 8, gy: 184, mx: 0, my: 0, w: 29, h: 15 },
            Caption { gx: 8, gy: 200, mx: 0, my: 16, w: 39, h: 15 },
            Caption { gx: 104, gy: 184, mx: 0, my: 32, w: 49, h: 15 },
            Caption { gx: 104, gy: 200, mx: 0, my: 48, w: 59, h: 15 },
        ]
    );
    let some = captions([None, Some(40), None, Some(1)], 12);
    assert_eq!(
        some,
        vec![
            Caption { gx: 8, gy: 196, mx: 0, my: 16, w: 39, h: 11 },
            Caption { gx: 104, gy: 196, mx: 0, my: 48, w: 0, h: 11 },
        ]
    );
    assert!(captions([None; 4], 16).is_empty());
}
