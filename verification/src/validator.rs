use vstd::prelude::*;

use crate::dictionary::Dictionary;
use crate::grid::{cell_at, Grid, GridCell, Position, GRID_SIZE};
use crate::scorer::path_in_grid;
use crate::strutil::{push_char, spec_upper, spec_upper_char, upper_char};

verus! {

/// Two positions are adjacent when they differ by at most one row and one
/// column and are not the same cell (diagonals count).
pub open spec fn spec_adjacent(a: Position, b: Position) -> bool {
    let rd = if a.row >= b.row {
        a.row - b.row
    } else {
        b.row - a.row
    };
    let cd = if a.col >= b.col {
        a.col - b.col
    } else {
        b.col - a.col
    };
    rd <= 1 && cd <= 1 && rd + cd > 0
}

/// Every consecutive pair of the path is adjacent.
pub open spec fn spec_path_adjacent(ps: Seq<Position>) -> bool {
    forall|i: int| 0 <= i && i + 1 < ps.len() ==> spec_adjacent(#[trigger] ps[i], ps[i + 1])
}

/// No position repeats on the path.
pub open spec fn spec_path_distinct(ps: Seq<Position>) -> bool {
    forall|i: int, j: int| 0 <= i < j < ps.len() ==> ps[i] != ps[j]
}

/// Every position lies on the 5-by-5 board.
pub open spec fn spec_path_in_bounds(ps: Seq<Position>) -> bool {
    forall|i: int|
        0 <= i < ps.len() ==> (#[trigger] ps[i]).row < GRID_SIZE && ps[i].col < GRID_SIZE
}

/// A valid path: non-empty, consecutive cells adjacent, no repeats, all
/// within bounds. A path of length one is valid.
pub open spec fn spec_valid_path(ps: Seq<Position>) -> bool {
    &&& ps.len() > 0
    &&& spec_path_adjacent(ps)
    &&& spec_path_distinct(ps)
    &&& spec_path_in_bounds(ps)
}

/// The letters along a path.
pub open spec fn spec_path_letters(grid: Seq<Seq<GridCell>>, ps: Seq<Position>) -> Seq<char> {
    ps.map_values(|p: Position| cell_at(grid, p).letter)
}

/// Validates word submissions against a dictionary and the geometry of
/// the board.
pub struct WordValidator {
    dictionary: Dictionary,
}

impl WordValidator {
    /// The words of the validator's dictionary.
    pub closed spec fn spec_words(&self) -> Seq<Seq<char>> {
        self.dictionary.spec_words()
    }

    pub fn new(dictionary: Dictionary) -> (v: Self)
        ensures
            v.spec_words() == dictionary.spec_words(),
    {
        Self { dictionary }
    }

    /// Check if the word exists in the dictionary (case-insensitive).
    pub fn is_valid_word(&self, word: &str) -> (r: bool)
        ensures
            r == self.spec_words().contains(spec_upper(word@)),
    {
        self.dictionary.contains(word)
    }

    /// Validate that the positions form a valid path on the board.
    pub fn is_valid_path(&self, _grid: &Grid, positions: &[Position]) -> (r: bool)
        ensures
            r == spec_valid_path(positions@),
    {
        let n = positions.len();
        if n == 0 {
            return false;
        }
        let mut i: usize = 0;
        while i + 1 < n
            invariant
                n == positions@.len(),
                0 <= i < n,
                forall|k: int|
                    0 <= k < i ==> spec_adjacent(#[trigger] positions@[k], positions@[k + 1]),
            decreases n - i,
        {
            if !Self::are_adjacent(&positions[i], &positions[i + 1]) {
                return false;
            }
            i = i + 1;
        }
        let mut i: usize = 0;
        while i < n
            invariant
                n == positions@.len(),
                0 <= i <= n,
                forall|a: int, b: int|
                    0 <= a < i && a < b < n ==> positions@[a] != positions@[b],
            decreases n - i,
        {
            let mut j: usize = i + 1;
            while j < n
                invariant
                    n == positions@.len(),
                    0 <= i < j <= n,
                    forall|a: int, b: int|
                        0 <= a < i && a < b < n ==> positions@[a] != positions@[b],
                    forall|b: int| i < b < j ==> positions@[i as int] != positions@[b],
                decreases n - j,
            {
                if positions[i] == positions[j] {
                    return false;
                }
                j = j + 1;
            }
            i = i + 1;
        }
        let mut i: usize = 0;
        while i < n
            invariant
                n == positions@.len(),
                0 <= i <= n,
                forall|k: int|
                    0 <= k < i ==> (#[trigger] positions@[k]).row < GRID_SIZE
                        && positions@[k].col < GRID_SIZE,
            decreases n - i,
        {
            if !(positions[i].row < GRID_SIZE && positions[i].col < GRID_SIZE) {
                return false;
            }
            i = i + 1;
        }
        true
    }

    /// Check if two positions are adjacent (including diagonals).
    pub fn are_adjacent(pos1: &Position, pos2: &Position) -> (r: bool)
        ensures
            r == spec_adjacent(*pos1, *pos2),
    {
        let row_ok = if pos1.row >= pos2.row {
            pos1.row - pos2.row <= 1
        } else {
            pos2.row - pos1.row <= 1
        };
        let col_ok = if pos1.col >= pos2.col {
            pos1.col - pos2.col <= 1
        } else {
            pos2.col - pos1.col <= 1
        };
        let same = pos1.row == pos2.row && pos1.col == pos2.col;
        row_ok && col_ok && !same
    }

    /// Extract the word a path spells from the grid letters.
    pub fn extract_word(&self, grid: &Grid, positions: &[Position]) -> (w: String)
        requires
            path_in_grid(grid.deep_view(), positions@),
        ensures
            w@ == spec_path_letters(grid.deep_view(), positions@),
    {
        let ghost g = grid.deep_view();
        let mut w = String::new();
        let mut i: usize = 0;
        while i < positions.len()
            invariant
                g == grid.deep_view(),
                0 <= i <= positions@.len(),
                path_in_grid(g, positions@),
                w@ == spec_path_letters(g, positions@).take(i as int),
            decreases positions@.len() - i,
        {
            let p = positions[i];
            push_char(&mut w, grid[p.row][p.col].letter);
            proof {
                assert(spec_path_letters(g, positions@).take(i + 1) =~= spec_path_letters(
                    g,
                    positions@,
                ).take(i as int).push(cell_at(g, positions@[i as int]).letter));
            }
            i = i + 1;
        }
        proof {
            assert(spec_path_letters(g, positions@).take(positions@.len() as int)
                =~= spec_path_letters(g, positions@));
        }
        w
    }

    /// Check that the letters along the path spell the submitted word,
    /// ignoring ASCII case.
    pub fn word_matches_path(grid: &Grid, word: &str, positions: &[Position]) -> (r: bool)
        requires
            path_in_grid(grid.deep_view(), positions@),
        ensures
            r == (spec_upper(word@) == spec_upper(
                spec_path_letters(grid.deep_view(), positions@),
            )),
    {
        let ghost g = grid.deep_view();
        let ghost ws = spec_upper(word@);
        let ghost ls = spec_upper(spec_path_letters(g, positions@));
        let n = word.unicode_len();
        if n != positions.len() {
            proof {
                assert(ws.len() != ls.len());
            }
            return false;
        }
        let mut i: usize = 0;
        while i < n
            invariant
                g == grid.deep_view(),
                n == word@.len(),
                n == positions@.len(),
                0 <= i <= n,
                path_in_grid(g, positions@),
                ws == spec_upper(word@),
                ls == spec_upper(spec_path_letters(g, positions@)),
                forall|k: int| 0 <= k < i ==> ws[k] == ls[k],
            decreases n - i,
        {
            let p = positions[i];
            let wc = upper_char(word.get_char(i));
            let lc = upper_char(grid[p.row][p.col].letter);
            if wc != lc {
                proof {
                    assert(ws[i as int] != ls[i as int]);
                }
                return false;
            }
            i = i + 1;
        }
        proof {
            assert(ws =~= ls);
        }
        true
    }
}

} // verus!
