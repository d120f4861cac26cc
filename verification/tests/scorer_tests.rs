use spellcast::grid::{GridCell, Multiplier, Position};
use spellcast::scorer::Scorer;

#[test]
fn test_length_bonus() {
    // +10 for 6+ letters only
    assert_eq!(Scorer::length_bonus(3), 0);
    assert_eq!(Scorer::length_bonus(4), 0);
    assert_eq!(Scorer::length_bonus(5), 0);
    assert_eq!(Scorer::length_bonus(6), 10);
    assert_eq!(Scorer::length_bonus(7), 10);
    assert_eq!(Scorer::length_bonus(8), 10);
}

#[test]
fn test_basic_score_calculation() {
    let grid = vec![vec![
        GridCell {
            letter: 'H',
            value: 4,
            multiplier: None,
            has_gem: false,
        },
        GridCell {
            letter: 'E',
            value: 1,
            multiplier: Some(Multiplier::DoubleLetter),
            has_gem: false,
        },
    ]];

    let positions = vec![Position { row: 0, col: 0 }, Position { row: 0, col: 1 }];

    // H(4) + E(1*2) = 6, no length bonus for 2 letters
    let score = Scorer::calculate_score(&grid, &positions);
    assert_eq!(score, 6);
}

#[test]
fn test_double_word_multiplier() {
    let grid = vec![vec![
        GridCell {
            letter: 'C',
            value: 5,
            multiplier: Some(Multiplier::DoubleWord),
            has_gem: false,
        },
        GridCell {
            letter: 'A',
            value: 1,
            multiplier: None,
            has_gem: false,
        },
        GridCell {
            letter: 'T',
            value: 2,
            multiplier: None,
            has_gem: false,
        },
    ]];

    let positions = vec![
        Position { row: 0, col: 0 },
        Position { row: 0, col: 1 },
        Position { row: 0, col: 2 },
    ];

    // C(5) + A(1) + T(2) = 8, then x2 for DW = 16
    let score = Scorer::calculate_score(&grid, &positions);
    assert_eq!(score, 16);
}

#[test]
fn test_gem_collection() {
    let grid = vec![vec![
        GridCell {
            letter: 'G',
            value: 3,
            multiplier: None,
            has_gem: true,
        },
        GridCell {
            letter: 'E',
            value: 1,
            multiplier: None,
            has_gem: false,
        },
        GridCell {
            letter: 'M',
            value: 4,
            multiplier: None,
            has_gem: true,
        },
    ]];

    let positions = vec![
        Position { row: 0, col: 0 },
        Position { row: 0, col: 1 },
        Position { row: 0, col: 2 },
    ];

    let result = Scorer::calculate_score_with_gems(&grid, &positions);
    assert_eq!(result.score, 8); // G(3) + E(1) + M(4) = 8
    assert_eq!(result.gems_collected, 2); // 2 gems
}

#[test]
fn test_long_word_bonus_not_multiplied() {
    // Create a 6-letter word with DW
    let grid = vec![vec![
        GridCell { letter: 'S', value: 2, multiplier: Some(Multiplier::DoubleWord), has_gem: false },
        GridCell { letter: 'P', value: 4, multiplier: None, has_gem: false },
        GridCell { letter: 'E', value: 1, multiplier: None, has_gem: false },
        GridCell { letter: 'L', value: 3, multiplier: None, has_gem: false },
        GridCell { letter: 'L', value: 3, multiplier: None, has_gem: false },
        GridCell { letter: 'S', value: 2, multiplier: None, has_gem: false },
    ]];

    let positions: Vec<Position> = (0..6).map(|col| Position { row: 0, col }).collect();

    // S(2) + P(4) + E(1) + L(3) + L(3) + S(2) = 15
    // With DW: 15 * 2 = 30
    // With 6-letter bonus: 30 + 10 = 40 (bonus NOT multiplied)
    let score = Scorer::calculate_score(&grid, &positions);
    assert_eq!(score, 40);
}

#[test]
fn test_double_letter_on_four_point_letter() {
    // DL on a 4-point letter yields 8 before any word multiplier
    let grid = vec![vec![GridCell {
        letter: 'H',
        value: 4,
        multiplier: Some(Multiplier::DoubleLetter),
        has_gem: false,
    }]];
    let positions = vec![Position { row: 0, col: 0 }];
    assert_eq!(Scorer::calculate_score(&grid, &positions), 8);
}

#[test]
fn test_triple_letter_on_four_point_letter() {
    // TL on a 4-point letter yields 12
    let grid = vec![vec![GridCell {
        letter: 'H',
        value: 4,
        multiplier: Some(Multiplier::TripleLetter),
        has_gem: false,
    }]];
    let positions = vec![Position { row: 0, col: 0 }];
    assert_eq!(Scorer::calculate_score(&grid, &positions), 12);
}

#[test]
fn test_six_letter_path_gets_exactly_ten_bonus() {
    // A six-cell path of one-point letters scores the letters plus ten
    let row: Vec<GridCell> = (0..6)
        .map(|_| GridCell { letter: 'A', value: 1, multiplier: None, has_gem: false })
        .collect();
    let grid = vec![row];
    let positions: Vec<Position> = (0..6).map(|col| Position { row: 0, col }).collect();
    assert_eq!(Scorer::calculate_score(&grid, &positions), 16);

    // One cell fewer: no bonus
    let positions5: Vec<Position> = (0..5).map(|col| Position { row: 0, col }).collect();
    assert_eq!(Scorer::calculate_score(&grid, &positions5), 5);
}
