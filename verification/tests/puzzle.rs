use virtual_picross::puzzle::{
    empty, format_puzzle, menu_icon, menu_icon_cells, menu_icon_chars, menu_icon_row, Puzzle,
};

#[test]
fn empty_puzzle_has_no_cells() {
    let puzzle = empty();
    assert_eq!((puzzle.width, puzzle.height), (0, 0));
    assert!(puzzle.cells.is_empty());
    assert!(puzzle.name.is_empty());
    assert!(puzzle.source.is_empty());
}

#[test]
fn format_puzzle_reads_a_drawing() {
    let cells: [u8; 6] = format_puzzle(
        b"
    x-x
    -xx",
    );
    assert_eq!(cells, [1, 0, 1, 0, 1, 1]);
}

#[test]
fn format_puzzle_skips_other_bytes() {
    let cells: [u8; 4] = format_puzzle(b"x y-\tX--");
    assert_eq!(cells, [1, 0, 0, 0]);
    let cells: [u8; 0] = format_puzzle(b"  \n");
    assert_eq!(cells, []);
}

#[test]
fn icon_row_of_one_cell() {
    assert_eq!(menu_icon_row(&[1]), [0, 0, 0x0280, 0, 0]);
    assert_eq!(menu_icon_row(&[0]), [0; 5]);
    assert_eq!(menu_icon_row(&[]), [0; 5]);
}

#[test]
fn icon_row_of_a_full_line() {
    assert_eq!(menu_icon_row(&[1; 20]), [0xaaaa; 5]);
    assert_eq!(menu_icon_row(&[7; 4]), [0, 0, 0xaaaa, 0, 0]);
}

#[test]
fn icon_row_doubles_and_centres_the_cells() {
    assert_eq!(menu_icon_row(&[1, 0, 1]), [0, 0, 0x2828, 0, 0]);
    assert_eq!(menu_icon_row(&[1, 0, 0, 0, 0, 0, 0, 0, 0, 1]), [0, 0x00a0, 0, 0x0a00, 0]);
}

#[test]
fn icon_of_one_cell() {
    let icon = menu_icon(&[1], 1, 1);
    for (index, character) in icon.iter().enumerate() {
        if index == 12 {
            assert_eq!(*character, [0, 0, 0, 0x0280, 0x0280, 0, 0, 0]);
        } else {
            assert_eq!(*character, [0; 8]);
        }
    }
}

#[test]
fn icon_of_nothing() {
    assert_eq!(menu_icon(&[], 0, 0), [[0; 8]; 25]);
    assert_eq!(menu_icon(&[], 0, 5), [[0; 8]; 25]);
    assert_eq!(menu_icon(&[], 5, 0), [[0; 8]; 25]);
}

#[test]
fn icon_of_a_full_grid() {
    assert_eq!(menu_icon(&[1; 400], 20, 20), [[0xaaaa; 8]; 25]);
}

#[test]
fn icon_doubles_the_rows() {
    let icon = menu_icon(&[1, 1, 0, 0, 1, 1], 2, 3);
    let mut expected = [[0u16; 8]; 25];
    expected[12][1] = 0x0aa0;
    expected[12][2] = 0x0aa0;
    expected[12][5] = 0x0aa0;
    expected[12][6] = 0x0aa0;
    assert_eq!(icon, expected);
}

static ONE: [u8; 1] = [1];

#[test]
fn icons_of_a_catalogue() {
    let puzzles = [
        Puzzle { name: b"a", source: b"b", width: 1, height: 1, cells: &ONE },
        Puzzle { name: b"c", source: b"d", width: 0, height: 0, cells: &[] },
    ];
    let icons = menu_icon_chars(puzzles);
    assert_eq!(icons[0], menu_icon(&ONE, 1, 1));
    assert_eq!(icons[1], [[0; 8]; 25]);
    assert_eq!(icons[0][12][3], 0x0280);
}

#[test]
fn icon_cells_count_up() {
    let cells: [[u16; 25]; 2] = menu_icon_cells(1024);
    for icon in 0..2 {
        for index in 0..25 {
            assert_eq!(cells[icon][index], 1024 + 25 * icon as u16 + index as u16);
        }
    }
    let none: [[u16; 25]; 0] = menu_icon_cells(65535);
    assert!(none.is_empty());
}
