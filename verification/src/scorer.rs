use vstd::prelude::*;

use crate::grid::{cell_at, pos_in_grid, Grid, GridCell, Multiplier, Position};

verus! {

/// Result of scoring a word, including gems collected.
#[derive(Debug, Clone)]
pub struct ScoreResult {
    /// Total score for the word
    pub score: i32,
    /// Number of gems collected from this word
    pub gems_collected: i32,
}

/// Score contributed by one cell: its value, doubled under a DoubleLetter
/// and tripled under a TripleLetter. A DoubleWord cell contributes its
/// plain value; it acts on the whole word instead.
pub open spec fn spec_letter_score(cell: GridCell) -> int {
    match cell.multiplier {
        Some(Multiplier::DoubleLetter) => 2 * cell.value,
        Some(Multiplier::TripleLetter) => 3 * cell.value,
        _ => cell.value as int,
    }
}

/// Sum of the letter scores along a path.
pub open spec fn spec_letter_sum(grid: Seq<Seq<GridCell>>, ps: Seq<Position>) -> int
    decreases ps.len(),
{
    if ps.len() == 0 {
        0
    } else {
        spec_letter_sum(grid, ps.drop_last()) + spec_letter_score(cell_at(grid, ps.last()))
    }
}

/// Whether any cell on the path carries a DoubleWord multiplier.
pub open spec fn spec_has_double_word(grid: Seq<Seq<GridCell>>, ps: Seq<Position>) -> bool {
    exists|i: int|
        0 <= i < ps.len() && cell_at(grid, ps[i]).multiplier == Some(Multiplier::DoubleWord)
}

/// How many cells on the path carry a gem.
pub open spec fn spec_gem_count(grid: Seq<Seq<GridCell>>, ps: Seq<Position>) -> int
    decreases ps.len(),
{
    if ps.len() == 0 {
        0
    } else {
        spec_gem_count(grid, ps.drop_last()) + if cell_at(grid, ps.last()).has_gem {
            1int
        } else {
            0int
        }
    }
}

/// The flat bonus for long words: 10 points at six letters or more.
pub open spec fn spec_length_bonus(len: nat) -> int {
    if len >= 6 {
        10
    } else {
        0
    }
}

/// The total score of a word: the letter sum, doubled if any cell on the
/// path carries a DoubleWord, plus the length bonus (never doubled).
pub open spec fn spec_word_score(grid: Seq<Seq<GridCell>>, ps: Seq<Position>) -> int {
    (if spec_has_double_word(grid, ps) {
        2 * spec_letter_sum(grid, ps)
    } else {
        spec_letter_sum(grid, ps)
    }) + spec_length_bonus(ps.len())
}

/// Every position of a path denotes a cell of the grid.
pub open spec fn path_in_grid(grid: Seq<Seq<GridCell>>, ps: Seq<Position>) -> bool {
    forall|i: int| 0 <= i < ps.len() ==> pos_in_grid(grid, #[trigger] ps[i])
}

/// The letter sum over a path is at most 765 per position and never negative.
proof fn lemma_letter_sum_bounds(grid: Seq<Seq<GridCell>>, ps: Seq<Position>)
    ensures
        0 <= spec_letter_sum(grid, ps) <= 765 * ps.len(),
        0 <= spec_gem_count(grid, ps) <= ps.len(),
    decreases ps.len(),
{
    if ps.len() > 0 {
        lemma_letter_sum_bounds(grid, ps.drop_last());
    }
}

/// A word's score is never negative and never exceeds 38260 on a path of
/// at most 25 cells (the letter sum at most 765 per cell, doubled, plus
/// the length bonus).
pub proof fn lemma_word_score_bounds(grid: Seq<Seq<GridCell>>, ps: Seq<Position>)
    requires
        ps.len() <= 25,
    ensures
        0 <= spec_word_score(grid, ps) <= 38260,
        0 <= spec_gem_count(grid, ps) <= 25,
{
    lemma_letter_sum_bounds(grid, ps);
}

pub struct Scorer;

impl Scorer {
    /// Calculate the score for a word given its positions on the grid.
    /// Returns total score and number of gems collected.
    pub fn calculate_score_with_gems(grid: &Grid, positions: &[Position]) -> (result: ScoreResult)
        requires
            path_in_grid(grid.deep_view(), positions@),
            positions@.len() <= 25,
        ensures
            result.score == spec_word_score(grid.deep_view(), positions@),
            result.gems_collected == spec_gem_count(grid.deep_view(), positions@),
    {
        let ghost g = grid.deep_view();
        let ghost pseq = positions@;
        let mut letter_score_total: i32 = 0;
        let mut has_double_word = false;
        let mut gems_collected: i32 = 0;

        let mut i: usize = 0;
        while i < positions.len()
            invariant
                0 <= i <= positions@.len(),
                positions@.len() <= 25,
                g == grid.deep_view(),
                pseq == positions@,
                pseq.len() == positions@.len(),
                forall|k: int| 0 <= k < pseq.len() ==> pseq[k] == positions@[k],
                path_in_grid(g, pseq),
                letter_score_total == spec_letter_sum(g, pseq.take(i as int)),
                gems_collected == spec_gem_count(g, pseq.take(i as int)),
                has_double_word == spec_has_double_word(g, pseq.take(i as int)),
            decreases positions@.len() - i,
        {
            proof {
                lemma_letter_sum_bounds(g, pseq.take(i as int));
                assert(pseq.take(i as int + 1).drop_last() =~= pseq.take(i as int));
                assert(pseq.take(i as int + 1).last() == pseq[i as int]);
            }
            let pos = positions[i];
            let cell = &grid[pos.row][pos.col];
            assert(*cell == cell_at(g, pseq[i as int]));
            let base_value = cell.value as i32;

            let letter_score: i32 = match &cell.multiplier {
                Some(Multiplier::DoubleLetter) => base_value * 2,
                Some(Multiplier::TripleLetter) => base_value * 3,
                Some(Multiplier::DoubleWord) => {
                    has_double_word = true;
                    base_value
                },
                None => base_value,
            };

            letter_score_total = letter_score_total + letter_score;

            if cell.has_gem {
                gems_collected = gems_collected + 1;
            }
            proof {
                let t = pseq.take(i as int + 1);
                assert(spec_has_double_word(g, t) <==> (spec_has_double_word(
                    g,
                    pseq.take(i as int),
                ) || cell_at(g, pseq[i as int]).multiplier == Some(Multiplier::DoubleWord)))
                    by {
                    if spec_has_double_word(g, t) {
                        let w = choose|w: int|
                            0 <= w < t.len() && cell_at(g, t[w]).multiplier == Some(
                                Multiplier::DoubleWord,
                            );
                        if w < i as int {
                            assert(pseq.take(i as int)[w] == t[w]);
                        }
                    } else {
                        assert(forall|w: int|
                            0 <= w < i as int ==> pseq.take(i as int)[w] == #[trigger] t[w]);
                    }
                }
            }
            i = i + 1;
        }
        proof {
            assert(pseq.take(pseq.len() as int) =~= pseq);
            lemma_letter_sum_bounds(g, pseq);
        }

        let word_score: i32 = if has_double_word {
            letter_score_total * 2
        } else {
            letter_score_total
        };

        let length_bonus = Self::length_bonus(positions.len());
        let total_score = word_score + length_bonus;

        ScoreResult { score: total_score, gems_collected }
    }

    /// Calculate just the score.
    pub fn calculate_score(grid: &Grid, positions: &[Position]) -> (score: i32)
        requires
            path_in_grid(grid.deep_view(), positions@),
            positions@.len() <= 25,
        ensures
            score == spec_word_score(grid.deep_view(), positions@),
    {
        Self::calculate_score_with_gems(grid, positions).score
    }

    /// Count gems that would be collected from using these positions.
    pub fn count_gems(grid: &Grid, positions: &[Position]) -> (gems: i32)
        requires
            path_in_grid(grid.deep_view(), positions@),
            positions@.len() <= 25,
        ensures
            gems == spec_gem_count(grid.deep_view(), positions@),
    {
        Self::calculate_score_with_gems(grid, positions).gems_collected
    }

    /// Bonus points based on word length: a flat +10 for six or more letters.
    pub fn length_bonus(length: usize) -> (bonus: i32)
        ensures
            bonus == spec_length_bonus(length as nat),
    {
        if length >= 6 {
            10
        } else {
            0
        }
    }
}

} // verus!
