use virtual_picross::game::{encode_runs, is_valid, Game, PuzzleCell};

const E: PuzzleCell = PuzzleCell::Empty;
const X: PuzzleCell = PuzzleCell::Cross;
const F: PuzzleCell = PuzzleCell::Full;

#[test]
fn runs_of_a_mixed_line() {
    let runs = encode_runs(&[0, 1, 1, 0, 1]);
    assert_eq!(runs.as_slice(), &[2, 1]);
}

#[test]
fn runs_of_a_line_without_ink() {
    let runs = encode_runs(&[0, 0, 0, 0, 0]);
    assert!(runs.is_empty());
    assert!(encode_runs(&[]).is_empty());
}

#[test]
fn runs_of_a_full_line() {
    let runs = encode_runs(&[1; 20]);
    assert_eq!(runs.as_slice(), &[20]);
}

#[test]
fn runs_count_only_ones() {
    let runs = encode_runs(&[1, 2, 1, 1, 0, 7, 1]);
    assert_eq!(runs.as_slice(), &[1, 2, 1]);
}

#[test]
fn runs_of_alternating_cells() {
    let mut answer = [0u8; 20];
    for i in 0..10 {
        answer[2 * i] = 1;
    }
    let runs = encode_runs(&answer);
    assert_eq!(runs.as_slice(), &[1; 10]);
}

#[test]
fn exact_match_of_a_finished_line() {
    let game = Game::new();
    assert!(game.is_solved(&[X, F, F, X, F], &[2, 1]));
    assert!(game.is_solved(&[E, F, F, E, F], &[2, 1]));
}

#[test]
fn exact_match_is_lost_with_any_mark() {
    let game = Game::new();
    let line = [X, F, F, X, F];
    for i in [1, 2, 4] {
        let mut changed = line;
        changed[i] = X;
        assert!(!game.is_solved(&changed, &[2, 1]));
        changed[i] = E;
        assert!(!game.is_solved(&changed, &[2, 1]));
    }
}

#[test]
fn exact_match_rejects_merged_and_stray_cells() {
    let game = Game::new();
    assert!(!game.is_solved(&[F, F, F, X, F], &[2, 1]));
    assert!(!game.is_solved(&[F, F, X, F, F], &[2, 1]));
    assert!(!game.is_solved(&[F, F, X, F, X, F], &[2, 1]));
    assert!(!game.is_solved(&[F, F], &[2, 1]));
    assert!(game.is_solved(&[], &[]));
    assert!(game.is_solved(&[E, X, E], &[]));
    assert!(!game.is_solved(&[E, F, E], &[]));
}

#[test]
fn feasible_when_the_run_fills_the_line() {
    assert!(is_valid(&[E, E, E], &[3]));
}

#[test]
fn feasible_when_several_places_exist() {
    assert!(is_valid(&[E, E, E], &[2]));
}

#[test]
fn feasible_with_a_full_cell_in_front() {
    assert!(is_valid(&[F, E, E], &[1]));
    assert!(!is_valid(&[F, E, F], &[1]));
    assert!(!is_valid(&[F, X, F], &[1]));
}

#[test]
fn feasible_only_where_the_run_reaches_the_full_cell() {
    assert!(is_valid(&[X, X, F], &[1]));
    assert!(!is_valid(&[X, X, F], &[2]));
    assert!(!is_valid(&[E, X, F], &[2]));
    assert!(is_valid(&[X, E, F], &[2]));
}

#[test]
fn feasible_without_runs_means_no_full_cell() {
    assert!(is_valid(&[], &[]));
    assert!(is_valid(&[E, X, E], &[]));
    assert!(!is_valid(&[E, F, E], &[]));
}

#[test]
fn feasible_needs_room_for_gaps() {
    assert!(is_valid(&[E, E, E], &[1, 1]));
    assert!(!is_valid(&[E, E], &[1, 1]));
    assert!(!is_valid(&[E, X, E, E], &[2, 1]));
    assert!(is_valid(&[E, E, X, E], &[2, 1]));
    assert!(!is_valid(&[], &[1]));
}

#[test]
fn feasible_moves_past_a_failed_place() {
    assert!(is_valid(&[E, E, X, F], &[1]));
    assert!(is_valid(&[E, F, F], &[2]));
    assert!(is_valid(&[E, E, F], &[1, 1]));
    assert!(!is_valid(&[E, F, E, F, E], &[3, 1]));
    assert!(is_valid(&[E, F, E, F, E], &[3]));
}

#[test]
fn certainty_of_a_unique_fit() {
    let game = Game::new();
    let clues = game.line_count(&[X, F, X, E, E], &[1, 0, 1, 0, 0]);
    assert_eq!(clues.as_slice(), &[(1, true), (1, false)]);
}

#[test]
fn certainty_when_the_rest_has_no_room() {
    let game = Game::new();
    let clues = game.line_count(&[X, F, X, X, X], &[1, 0, 1, 0, 0]);
    assert_eq!(clues.as_slice(), &[(1, false), (1, false)]);
}

#[test]
fn certainty_of_an_open_group() {
    let game = Game::new();
    let clues = game.line_count(&[E, F, E, E, E], &[1, 0, 1, 0, 0]);
    assert_eq!(clues.as_slice(), &[(1, false), (1, false)]);
}

#[test]
fn certainty_of_a_group_that_fits_two_runs() {
    let game = Game::new();
    let clues = game.line_count(&[E, E, X, F, X, E, E], &[1, 0, 0, 0, 0, 1, 0]);
    assert_eq!(clues.as_slice(), &[(1, true), (1, true)]);
}

#[test]
fn certainty_of_an_inconsistent_line() {
    let game = Game::new();
    let clues = game.line_count(&[F, X, F], &[1, 1, 0]);
    assert_eq!(clues.as_slice(), &[(2, false)]);
}

#[test]
fn certainty_of_a_finished_line() {
    let game = Game::new();
    let clues = game.line_count(&[X, F, F, X, F], &[0, 1, 1, 0, 1]);
    assert_eq!(clues.as_slice(), &[(2, true), (1, true)]);
    let clues = game.line_count(&[E, E, E], &[0, 0, 0]);
    assert!(clues.is_empty());
}

#[test]
fn certainty_of_two_groups_for_one_run() {
    let game = Game::new();
    let clues = game.line_count(&[F, X, E, E, X, F], &[1, 0, 1, 0, 0, 1]);
    assert_eq!(clues.as_slice(), &[(1, true), (1, false), (1, true)]);
}

#[test]
fn certainty_of_an_unmarked_line() {
    let game = Game::new();
    let clues = game.line_count(&[E, E, E, E, E], &[1, 1, 0, 1, 0]);
    assert_eq!(clues.as_slice(), &[(2, false), (1, false)]);
}
