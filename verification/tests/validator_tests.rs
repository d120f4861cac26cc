use spellcast::dictionary::Dictionary;
use spellcast::grid::{GridCell, Position};
use spellcast::validator::WordValidator;

fn blank_grid() -> Vec<Vec<GridCell>> {
    (0..5)
        .map(|_| {
            (0..5)
                .map(|_| GridCell { letter: 'A', value: 1, multiplier: None, has_gem: false })
                .collect()
        })
        .collect()
}

#[test]
fn test_adjacent_positions() {
    let pos1 = Position { row: 0, col: 0 };
    let pos2 = Position { row: 0, col: 1 };
    let pos3 = Position { row: 1, col: 1 };
    let pos4 = Position { row: 2, col: 2 };

    assert!(WordValidator::are_adjacent(&pos1, &pos2));
    assert!(WordValidator::are_adjacent(&pos2, &pos3));
    assert!(!WordValidator::are_adjacent(&pos1, &pos4));
}

#[test]
fn test_path_of_length_one_is_legal() {
    let v = WordValidator::new(Dictionary::empty());
    let grid = blank_grid();
    assert!(v.is_valid_path(&grid, &[Position { row: 2, col: 3 }]));
}

#[test]
fn test_empty_path_is_rejected() {
    let v = WordValidator::new(Dictionary::empty());
    let grid = blank_grid();
    assert!(!v.is_valid_path(&grid, &[]));
}

#[test]
fn test_non_adjacent_path_is_rejected() {
    let v = WordValidator::new(Dictionary::empty());
    let grid = blank_grid();
    let positions = vec![Position { row: 0, col: 0 }, Position { row: 0, col: 2 }];
    assert!(!v.is_valid_path(&grid, &positions));
}

#[test]
fn test_repeated_position_is_rejected() {
    let v = WordValidator::new(Dictionary::empty());
    let grid = blank_grid();
    let positions = vec![
        Position { row: 0, col: 0 },
        Position { row: 0, col: 1 },
        Position { row: 0, col: 0 },
    ];
    assert!(!v.is_valid_path(&grid, &positions));
}

#[test]
fn test_out_of_bounds_path_is_rejected() {
    let v = WordValidator::new(Dictionary::empty());
    let grid = blank_grid();
    let positions = vec![Position { row: 4, col: 4 }, Position { row: 4, col: 5 }];
    assert!(!v.is_valid_path(&grid, &positions));
}

#[test]
fn test_diagonal_path_is_legal() {
    let v = WordValidator::new(Dictionary::empty());
    let grid = blank_grid();
    let positions = vec![
        Position { row: 0, col: 0 },
        Position { row: 1, col: 1 },
        Position { row: 2, col: 2 },
    ];
    assert!(v.is_valid_path(&grid, &positions));
}

#[test]
fn test_is_valid_word_checks_dictionary() {
    let words = vec![String::from("cat"), String::from("  tree "), String::from("x")];
    let dict = Dictionary::from_lines(&words);
    let v = WordValidator::new(dict);
    assert!(v.is_valid_word("cat"));
    assert!(v.is_valid_word("CAT"));
    assert!(v.is_valid_word("Tree"));
    assert!(!v.is_valid_word("x"));
    assert!(!v.is_valid_word("dog"));
}

#[test]
fn test_extract_word_reads_path_letters() {
    let mut grid = blank_grid();
    grid[0][0].letter = 'C';
    grid[0][1].letter = 'A';
    grid[0][2].letter = 'T';
    let v = WordValidator::new(Dictionary::empty());
    let positions = vec![
        Position { row: 0, col: 0 },
        Position { row: 0, col: 1 },
        Position { row: 0, col: 2 },
    ];
    assert_eq!(v.extract_word(&grid, &positions), "CAT");
}

#[test]
fn test_word_matches_path_ignores_case() {
    let mut grid = blank_grid();
    grid[0][0].letter = 'C';
    grid[0][1].letter = 'A';
    grid[0][2].letter = 'T';
    let positions = vec![
        Position { row: 0, col: 0 },
        Position { row: 0, col: 1 },
        Position { row: 0, col: 2 },
    ];
    assert!(WordValidator::word_matches_path(&grid, "cat", &positions));
    assert!(WordValidator::word_matches_path(&grid, "CAT", &positions));
    assert!(!WordValidator::word_matches_path(&grid, "cot", &positions));
    assert!(!WordValidator::word_matches_path(&grid, "ca", &positions));
}
