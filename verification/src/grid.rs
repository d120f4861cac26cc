use vstd::prelude::*;
use vstd::pervasive::VecAdditionalExecFns;

use crate::letters::{is_grid_letter, sample_letter, spec_letter_value};
use crate::letters::get_letter_value;
use crate::rng::{random_below, random_between};

verus! {

/// A coordinate on the game grid.
#[derive(Debug, Clone, Copy, PartialEq, Eq, Hash, Structural)]
pub struct Position {
    pub row: usize,
    pub col: usize,
}

/// Multiplier types for grid cells.
#[derive(Debug, Clone, Copy, PartialEq, Eq, Structural)]
pub enum Multiplier {
    /// Double Letter - multiplies this letter's value by 2
    DoubleLetter,
    /// Triple Letter - multiplies this letter's value by 3
    TripleLetter,
    /// Double Word - multiplies the entire word's score by 2
    DoubleWord,
}

/// A single cell in the game grid.
#[derive(Debug, Clone, Copy)]
pub struct GridCell {
    /// The letter in this cell
    pub letter: char,
    /// Base point value of the letter
    pub value: u8,
    /// Optional multiplier (DL, TL, or DW)
    pub multiplier: Option<Multiplier>,
    /// Whether this cell contains a gem
    pub has_gem: bool,
}

impl View for GridCell {
    type V = GridCell;

    open spec fn view(&self) -> GridCell {
        *self
    }
}

impl DeepView for GridCell {
    type V = GridCell;

    open spec fn deep_view(&self) -> GridCell {
        *self
    }
}

/// The game grid: a matrix of cells, indexed `grid[row][col]`.
pub type Grid = Vec<Vec<GridCell>>;

/// The number of rows and of columns in a generated grid.
pub const GRID_SIZE: usize = 5;

/// A position lies within the rows and columns of a (possibly ragged) grid.
pub open spec fn pos_in_grid(grid: Seq<Seq<GridCell>>, p: Position) -> bool {
    &&& p.row < grid.len()
    &&& p.col < grid[p.row as int].len()
}

/// The cell a position denotes.
pub open spec fn cell_at(grid: Seq<Seq<GridCell>>, p: Position) -> GridCell {
    grid[p.row as int][p.col as int]
}

/// A well-formed generated grid: exactly 5 rows of 5 cells each.
pub open spec fn grid_wf(grid: Seq<Seq<GridCell>>) -> bool {
    &&& grid.len() == GRID_SIZE
    &&& forall|r: int| 0 <= r < grid.len() ==> (#[trigger] grid[r]).len() == GRID_SIZE
}

/// How many cells of one row carry a multiplier.
pub open spec fn row_multiplier_count(row: Seq<GridCell>) -> int
    decreases row.len(),
{
    if row.len() == 0 {
        0
    } else {
        row_multiplier_count(row.drop_last()) + if row.last().multiplier is Some {
            1int
        } else {
            0int
        }
    }
}

/// How many cells of the whole grid carry a multiplier.
pub open spec fn grid_multiplier_count(grid: Seq<Seq<GridCell>>) -> int
    decreases grid.len(),
{
    if grid.len() == 0 {
        0
    } else {
        grid_multiplier_count(grid.drop_last()) + row_multiplier_count(grid.last())
    }
}

/// A freshly sampled cell: a letter of the alphabet carrying its point
/// value, no multiplier and no gem.
pub open spec fn fresh_cell(cell: GridCell) -> bool {
    &&& is_grid_letter(cell.letter)
    &&& cell.value == spec_letter_value(cell.letter)
    &&& cell.multiplier is None
    &&& !cell.has_gem
}

/// Two grids have the same shape and agree on everything but the
/// multipliers.
pub open spec fn same_but_multipliers(g1: Seq<Seq<GridCell>>, g2: Seq<Seq<GridCell>>) -> bool {
    &&& g1.len() == g2.len()
    &&& forall|r: int| 0 <= r < g1.len() ==> (#[trigger] g1[r]).len() == g2[r].len()
    &&& forall|r: int, c: int|
        0 <= r < g1.len() && 0 <= c < g1[r].len() ==> {
            &&& (#[trigger] g1[r][c]).letter == g2[r][c].letter
            &&& g1[r][c].value == g2[r][c].value
            &&& g1[r][c].has_gem == g2[r][c].has_gem
        }
}

proof fn lemma_row_count_update(row: Seq<GridCell>, c: int, cell: GridCell)
    requires
        0 <= c < row.len(),
    ensures
        row_multiplier_count(row.update(c, cell)) == row_multiplier_count(row) + (if cell.multiplier
            is Some {
            1int
        } else {
            0int
        }) - (if row[c].multiplier is Some {
            1int
        } else {
            0int
        }),
    decreases row.len(),
{
    let u = row.update(c, cell);
    if c == row.len() - 1 {
        assert(u.drop_last() =~= row.drop_last());
        assert(u.last() == cell);
    } else {
        assert(u.drop_last() =~= row.drop_last().update(c, cell));
        assert(u.last() == row.last());
        lemma_row_count_update(row.drop_last(), c, cell);
    }
}

proof fn lemma_grid_count_update(g: Seq<Seq<GridCell>>, r: int, row: Seq<GridCell>)
    requires
        0 <= r < g.len(),
    ensures
        grid_multiplier_count(g.update(r, row)) == grid_multiplier_count(g) + row_multiplier_count(
            row,
        ) - row_multiplier_count(g[r]),
    decreases g.len(),
{
    let u = g.update(r, row);
    if r == g.len() - 1 {
        assert(u.drop_last() =~= g.drop_last());
        assert(u.last() == row);
    } else {
        assert(u.drop_last() =~= g.drop_last().update(r, row));
        assert(u.last() == g.last());
        lemma_grid_count_update(g.drop_last(), r, row);
    }
}

/// A row whose cells carry no multiplier counts zero.
proof fn lemma_row_count_none(row: Seq<GridCell>)
    requires
        forall|c: int| 0 <= c < row.len() ==> (#[trigger] row[c]).multiplier is None,
    ensures
        row_multiplier_count(row) == 0,
    decreases row.len(),
{
    if row.len() > 0 {
        lemma_row_count_none(row.drop_last());
    }
}

/// A grid whose cells carry no multiplier counts zero.
proof fn lemma_grid_count_none(g: Seq<Seq<GridCell>>)
    requires
        forall|r: int, c: int|
            0 <= r < g.len() && 0 <= c < g[r].len() ==> (#[trigger] g[r][c]).multiplier is None,
    ensures
        grid_multiplier_count(g) == 0,
    decreases g.len(),
{
    if g.len() > 0 {
        lemma_grid_count_none(g.drop_last());
        assert(forall|c: int|
            0 <= c < g.last().len() ==> (#[trigger] g.last()[c]).multiplier is None) by {
            assert(forall|c: int|
                0 <= c < g.last().len() ==> g.last()[c] == g[g.len() - 1][c]);
        }
        lemma_row_count_none(g.last());
    }
}

/// Overwrite one cell of the grid.
fn set_cell(grid: &mut Grid, r: usize, c: usize, cell: GridCell)
    requires
        r < old(grid).deep_view().len(),
        c < old(grid).deep_view()[r as int].len(),
    ensures
        final(grid).deep_view() == old(grid).deep_view().update(
            r as int,
            old(grid).deep_view()[r as int].update(c as int, cell),
        ),
{
    let ghost g0 = grid.deep_view();
    let row = &mut grid[r];
    row.set(c, cell);
    proof {
        assert(grid.deep_view() =~~= g0.update(r as int, g0[r as int].update(c as int, cell)));
    }
}

pub struct GridGenerator;

impl GridGenerator {
    /// Generate a new 5x5 grid: letters drawn from the weighted frequency
    /// distribution, each carrying its point value, then 3 to 5
    /// DoubleLetter and 2 to 3 TripleLetter multipliers placed at random
    /// non-overlapping cells, so the grid carries 5 to 8 multipliers.
    pub fn generate() -> (grid: Grid)
        ensures
            grid_wf(grid.deep_view()),
            5 <= grid_multiplier_count(grid.deep_view()) <= 8,
            forall|r: int, c: int|
                0 <= r < GRID_SIZE && 0 <= c < GRID_SIZE ==> ((#[trigger] grid.deep_view()[r][c]).multiplier
                    is None || grid.deep_view()[r][c].multiplier == Some(Multiplier::DoubleLetter)
                    || grid.deep_view()[r][c].multiplier == Some(Multiplier::TripleLetter)),
            forall|r: int, c: int|
                0 <= r < GRID_SIZE && 0 <= c < GRID_SIZE ==> {
                    &&& is_grid_letter((#[trigger] grid.deep_view()[r][c]).letter)
                    &&& grid.deep_view()[r][c].value == spec_letter_value(
                        grid.deep_view()[r][c].letter,
                    )
                    &&& !grid.deep_view()[r][c].has_gem
                },
    {
        let mut grid: Grid = Vec::new();
        let mut r: usize = 0;
        while r < GRID_SIZE
            invariant
                0 <= r <= GRID_SIZE,
                grid.deep_view().len() == r,
                forall|i: int| 0 <= i < r ==> (#[trigger] grid.deep_view()[i]).len() == GRID_SIZE,
                forall|i: int, j: int|
                    0 <= i < r && 0 <= j < GRID_SIZE ==> fresh_cell(
                        #[trigger] grid.deep_view()[i][j],
                    ),
            decreases GRID_SIZE - r,
        {
            let mut row: Vec<GridCell> = Vec::new();
            let mut c: usize = 0;
            while c < GRID_SIZE
                invariant
                    0 <= c <= GRID_SIZE,
                    row@.len() == c,
                    forall|j: int| 0 <= j < c ==> fresh_cell(#[trigger] row@[j]),
                decreases GRID_SIZE - c,
            {
                let letter = sample_letter();
                row.push(GridCell {
                    letter,
                    value: get_letter_value(letter),
                    multiplier: None,
                    has_gem: false,
                });
                c = c + 1;
            }
            let ghost gprev = grid.deep_view();
            let ghost rowq = row@;
            let ghost rowv = row.deep_view();
            grid.push(row);
            proof {
                assert(rowv =~= rowq);
                assert(grid.deep_view() =~= gprev.push(rowv));
            }
            r = r + 1;
        }
        let ghost gmid = grid.deep_view();
        Self::add_multipliers(&mut grid);
        proof {
            assert forall|r: int, c: int| 0 <= r < GRID_SIZE && 0 <= c < GRID_SIZE implies {
                &&& is_grid_letter((#[trigger] grid.deep_view()[r][c]).letter)
                &&& grid.deep_view()[r][c].value == spec_letter_value(
                    grid.deep_view()[r][c].letter,
                )
                &&& !grid.deep_view()[r][c].has_gem
            } by {
                assert(fresh_cell(gmid[r][c]));
                assert(gmid[r][c].letter == grid.deep_view()[r][c].letter);
            }
        }
        grid
    }

    /// Sprinkle 3 to 5 DoubleLetter and 2 to 3 TripleLetter multipliers
    /// over random cells that do not yet carry one.
    fn add_multipliers(grid: &mut Grid)
        requires
            grid_wf(old(grid).deep_view()),
            forall|r: int, c: int|
                0 <= r < GRID_SIZE && 0 <= c < GRID_SIZE ==> (#[trigger] old(
                    grid,
                ).deep_view()[r][c]).multiplier is None,
        ensures
            grid_wf(final(grid).deep_view()),
            5 <= grid_multiplier_count(final(grid).deep_view()) <= 8,
            same_but_multipliers(old(grid).deep_view(), final(grid).deep_view()),
            forall|r: int, c: int|
                0 <= r < GRID_SIZE && 0 <= c < GRID_SIZE ==> ((#[trigger] final(grid).deep_view()[r][c]).multiplier is None || final(grid).deep_view()[r][c].multiplier
                    == Some(Multiplier::DoubleLetter) || final(grid).deep_view()[r][c].multiplier
                    == Some(Multiplier::TripleLetter)),
    {
        proof {
            lemma_grid_count_none(old(grid).deep_view());
        }
        let dl_count = random_between(3, 5);
        let tl_count = random_between(2, 3);
        let total = dl_count + tl_count;
        let mut need = total;
        let mut placed: usize = 0;
        let mut idx: usize = 0;
        while idx < 25
            invariant
                grid_wf(old(grid).deep_view()),
                grid_wf(grid.deep_view()),
                same_but_multipliers(old(grid).deep_view(), grid.deep_view()),
                5 <= total <= 8,
                0 <= idx <= 25,
                need <= 25 - idx,
                placed + need == total,
                grid_multiplier_count(grid.deep_view()) == placed,
                forall|j: int|
                    idx <= j < 25 ==> (#[trigger] grid.deep_view()[j / 5][j % 5]).multiplier
                        is None,
                forall|r: int, c: int|
                    0 <= r < GRID_SIZE && 0 <= c < GRID_SIZE ==> ((
                    #[trigger] grid.deep_view()[r][c]).multiplier is None
                        || grid.deep_view()[r][c].multiplier == Some(Multiplier::DoubleLetter)
                        || grid.deep_view()[r][c].multiplier == Some(
                        Multiplier::TripleLetter,
                    )),
            decreases 25 - idx,
        {
            let left = 25 - idx;
            if need > 0 && random_below(left) < need {
                let r = idx / 5;
                let c = idx % 5;
                assert(r < 5 && c < 5);
                let m = if placed < dl_count {
                    Multiplier::DoubleLetter
                } else {
                    Multiplier::TripleLetter
                };
                assert(grid@.len() == grid.deep_view().len());
                assert(grid@[r as int]@.len() == grid.deep_view()[r as int].len());
                let old_cell = grid[r][c];
                let ghost g_before = grid.deep_view();
                let new_cell = GridCell {
                    letter: old_cell.letter,
                    value: old_cell.value,
                    multiplier: Some(m),
                    has_gem: old_cell.has_gem,
                };
                set_cell(grid, r, c, new_cell);
                proof {
                    lemma_row_count_update(g_before[r as int], c as int, new_cell);
                    lemma_grid_count_update(
                        g_before,
                        r as int,
                        g_before[r as int].update(c as int, new_cell),
                    );
                }
                need = need - 1;
                placed = placed + 1;
            }
            idx = idx + 1;
        }
        assert(need == 0);
    }

    /// Replace the letters at the played positions with freshly sampled
    /// ones; multipliers and gems at those cells are cleared. All other
    /// cells are unchanged.
    pub fn replace_letters(grid: &mut Grid, positions: &[Position])
        requires
            grid_wf(old(grid).deep_view()),
            crate::validator::spec_path_in_bounds(positions@),
        ensures
            grid_wf(final(grid).deep_view()),
            forall|r: int, c: int|
                0 <= r < GRID_SIZE && 0 <= c < GRID_SIZE ==> {
                    if pos_covers(positions@, positions@.len() as int, r, c) {
                        fresh_cell(#[trigger] final(grid).deep_view()[r][c])
                    } else {
                        final(grid).deep_view()[r][c] == old(grid).deep_view()[r][c]
                    }
                },
    {
        let ghost g0 = old(grid).deep_view();
        let mut i: usize = 0;
        while i < positions.len()
            invariant
                g0 == old(grid).deep_view(),
                grid_wf(g0),
                grid_wf(grid.deep_view()),
                crate::validator::spec_path_in_bounds(positions@),
                0 <= i <= positions@.len(),
                forall|r: int, c: int|
                    0 <= r < GRID_SIZE && 0 <= c < GRID_SIZE ==> {
                        if pos_covers(positions@, i as int, r, c) {
                            fresh_cell(#[trigger] grid.deep_view()[r][c])
                        } else {
                            grid.deep_view()[r][c] == g0[r][c]
                        }
                    },
            decreases positions@.len() - i,
        {
            let p = positions[i];
            let letter = sample_letter();
            let new_cell = GridCell {
                letter,
                value: get_letter_value(letter),
                multiplier: None,
                has_gem: false,
            };
            set_cell(grid, p.row, p.col, new_cell);
            proof {
                assert(positions@[i as int] == p);
                assert(pos_covers(positions@, i + 1, p.row as int, p.col as int));
                assert forall|r: int, c: int|
                    0 <= r < GRID_SIZE && 0 <= c < GRID_SIZE && pos_covers(
                        positions@,
                        i + 1,
                        r,
                        c,
                    ) && !(r == p.row && c == p.col) implies pos_covers(
                    positions@,
                    i as int,
                    r,
                    c,
                ) by {
                    let k = choose|k: int|
                        0 <= k < i + 1 && positions@[k] == (Position {
                            row: r as usize,
                            col: c as usize,
                        });
                    assert(k != i);
                    assert(0 <= k < i as int && positions@[k] == (Position {
                        row: r as usize,
                        col: c as usize,
                    }));
                }
                assert forall|r: int, c: int|
                    0 <= r < GRID_SIZE && 0 <= c < GRID_SIZE && pos_covers(
                        positions@,
                        i as int,
                        r,
                        c,
                    ) implies pos_covers(positions@, i + 1, r, c) by {
                    let k = choose|k: int|
                        0 <= k < i && positions@[k] == (Position {
                            row: r as usize,
                            col: c as usize,
                        });
                    assert(0 <= k < i + 1 && positions@[k] == (Position {
                        row: r as usize,
                        col: c as usize,
                    }));
                }
            }
            i = i + 1;
        }
    }
}

/// Some position among the first `n` of the path denotes the cell at
/// `(r, c)`.
pub open spec fn pos_covers(ps: Seq<Position>, n: int, r: int, c: int) -> bool {
    exists|k: int|
        0 <= k < n && ps[k] == (Position { row: r as usize, col: c as usize })
}

} // verus!
