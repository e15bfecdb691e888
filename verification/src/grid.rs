//! Grids as sequences of rows: what the grid functions compute, stated on sequences.

use crate::scalar::{fits, Scalar};
use vstd::prelude::*;

verus! {

/// The sequences that the rows of a grid hold.
pub open spec fn rows<T>(grid: Seq<Vec<T>>) -> Seq<Seq<T>> {
    Seq::new(grid.len(), |i: int| grid[i]@)
}

/// Adding a row to a grid adds its sequence to the rows.
pub proof fn lemma_rows_push<T>(grid: Seq<Vec<T>>, row: Vec<T>)
    ensures
        rows(grid.push(row)) == rows(grid).push(row@),
{
    assert(rows(grid.push(row)) =~= rows(grid).push(row@));
}

/// Whether no row holds a cell. A grid without rows is such a grid.
pub open spec fn all_empty<T>(grid: Seq<Seq<T>>) -> bool {
    forall|i: int| 0 <= i < grid.len() ==> (#[trigger] grid[i]).len() == 0
}

/// A row of `width` cells that all hold `filler`.
pub open spec fn border<T>(width: nat, filler: T) -> Seq<T> {
    Seq::new(width, |j: int| filler)
}

/// A row with one `filler` before it and one behind it.
pub open spec fn framed_row<T>(row: Seq<T>, filler: T) -> Seq<T> {
    seq![filler] + row + seq![filler]
}

/// A grid with a frame of `filler` cells around it. The borders above and below are as
/// wide as the first row with its frame.
pub open spec fn framed<T>(grid: Seq<Seq<T>>, filler: T) -> Seq<Seq<T>>
    recommends
        grid.len() > 0,
{
    seq![border((grid[0].len() + 2) as nat, filler)] + Seq::new(
        grid.len(),
        |i: int| framed_row(grid[i], filler),
    ) + seq![border((grid[0].len() + 2) as nat, filler)]
}

/// The length of the longest row, zero for a grid without rows.
pub open spec fn widest<T>(grid: Seq<Seq<T>>) -> nat
    decreases grid.len(),
{
    if grid.len() == 0 {
        0
    } else if grid.last().len() > widest(grid.drop_last()) {
        grid.last().len()
    } else {
        widest(grid.drop_last())
    }
}

/// The cells at place `n` of the rows that reach so far, from the first row to the last.
/// A row that is too short gives no cell.
pub open spec fn column_cells<T>(grid: Seq<Seq<T>>, n: int) -> Seq<T>
    decreases grid.len(),
{
    if grid.len() == 0 {
        Seq::empty()
    } else if 0 <= n < grid.last().len() {
        column_cells(grid.drop_last(), n).push(grid.last()[n])
    } else {
        column_cells(grid.drop_last(), n)
    }
}

/// The grid turned over its diagonal: row `n` of the result is column `n` of `grid`.
/// There are as many rows as the longest row of `grid` has cells.
pub open spec fn transposed<T>(grid: Seq<Seq<T>>) -> Seq<Seq<T>> {
    Seq::new(widest(grid), |n: int| column_cells(grid, n))
}

/// Whether the grid has rows and every row has a cell at place `n`.
pub open spec fn has_column<T>(grid: Seq<Seq<T>>, n: int) -> bool {
    &&& grid.len() > 0
    &&& 0 <= n
    &&& forall|i: int| 0 <= i < grid.len() ==> n < (#[trigger] grid[i]).len()
}

/// Where every row has a cell at place `n`, the column holds one cell of each row.
pub proof fn lemma_column_len<T>(grid: Seq<Seq<T>>, n: int)
    requires
        0 <= n,
        forall|i: int| 0 <= i < grid.len() ==> n < (#[trigger] grid[i]).len(),
    ensures
        column_cells(grid, n).len() == grid.len(),
        forall|i: int| 0 <= i < grid.len() ==> (#[trigger] column_cells(grid, n)[i]) == grid[i][n],
    decreases grid.len(),
{
    if grid.len() > 0 {
        lemma_column_len(grid.drop_last(), n);
        assert forall|i: int| 0 <= i < grid.len() implies (#[trigger] column_cells(grid, n)[i])
            == grid[i][n] by {
            if i < grid.len() - 1 {
                assert(column_cells(grid.drop_last(), n)[i] == grid.drop_last()[i][n]);
            }
        }
    }
}

/// Whether every row of the grid has `width` cells.
pub open spec fn rectangular<T>(grid: Seq<Seq<T>>, width: nat) -> bool {
    forall|i: int| 0 <= i < grid.len() ==> (#[trigger] grid[i]).len() == width
}

/// The longest row of a rectangular grid is as long as every row.
pub proof fn lemma_widest_rectangular<T>(grid: Seq<Seq<T>>, width: nat)
    requires
        rectangular(grid, width),
        grid.len() > 0,
    ensures
        widest(grid) == width,
    decreases grid.len(),
{
    assert(grid.last().len() == width);
    if grid.len() > 1 {
        assert forall|i: int| 0 <= i < grid.drop_last().len() implies (#[trigger] grid.drop_last()[i]).len()
            == width by {
            assert(grid[i].len() == width);
        }
        lemma_widest_rectangular(grid.drop_last(), width);
    } else {
        assert(grid.drop_last().len() == 0);
        assert(widest(grid.drop_last()) == 0);
    }
}

/// A rectangular grid that is turned over has the shape turned over too, and the cell
/// of row `i` at place `n` becomes the cell of row `n` at place `i`.
pub proof fn lemma_transposed_rectangular<T>(grid: Seq<Seq<T>>, width: nat)
    requires
        rectangular(grid, width),
        grid.len() > 0,
    ensures
        transposed(grid).len() == width,
        rectangular(transposed(grid), grid.len()),
        forall|n: int, i: int|
            0 <= n < width && 0 <= i < grid.len() ==> #[trigger] transposed(grid)[n][i] == grid[i][n],
{
    lemma_widest_rectangular(grid, width);
    assert forall|n: int| 0 <= n < width implies (#[trigger] transposed(grid)[n]).len() == grid.len()
        && forall|i: int| 0 <= i < grid.len() ==> #[trigger] transposed(grid)[n][i] == grid[i][n] by {
        assert forall|i: int| 0 <= i < grid.len() implies n < (#[trigger] grid[i]).len() by {
            assert(grid[i].len() == width);
        }
        lemma_column_len(grid, n);
    }
}

/// Turning a rectangular grid over twice gives the grid again. A grid whose rows hold
/// no cell is left out: turned over it has no rows, and nothing remembers how many
/// rows there were.
pub proof fn lemma_transposed_twice<T>(grid: Seq<Seq<T>>, width: nat)
    requires
        rectangular(grid, width),
        grid.len() > 0 ==> width > 0,
    ensures
        transposed(transposed(grid)) == grid,
{
    if grid.len() == 0 {
        assert(transposed(grid).len() == 0);
        assert(transposed(transposed(grid)) =~= grid);
    } else {
        let once = transposed(grid);
        lemma_transposed_rectangular(grid, width);
        lemma_transposed_rectangular(once, grid.len());
        let twice = transposed(once);
        assert forall|i: int| 0 <= i < grid.len() implies #[trigger] twice[i] == grid[i] by {
            assert(twice[i].len() == width);
            assert(grid[i].len() == width);
            assert forall|n: int| 0 <= n < width implies twice[i][n] == grid[i][n] by {
                assert(twice[i][n] == once[n][i]);
            }
            assert(twice[i] =~= grid[i]);
        }
        assert(twice =~= grid);
    }
}

/// The integers that the cells stand for.
pub open spec fn values<T: Scalar>(cells: Seq<T>) -> Seq<int> {
    Seq::new(cells.len(), |i: int| cells[i].as_int())
}

/// The sum of the numbers of a sequence.
pub open spec fn total(s: Seq<int>) -> int
    decreases s.len(),
{
    if s.len() == 0 {
        0
    } else {
        total(s.drop_last()) + s.last()
    }
}

/// Whether `T` can hold the sum of the first `k` numbers of `s`, for every `k`: adding
/// them up from the left then never leaves the type.
pub open spec fn sums_fit<T: Scalar>(s: Seq<int>) -> bool {
    forall|k: int| 0 <= k <= s.len() ==> fits::<T>(total(#[trigger] s.take(k)))
}

/// Whether `m` occurs in `s` and nothing in `s` is smaller.
pub open spec fn is_least(m: int, s: Seq<int>) -> bool {
    &&& exists|i: int| 0 <= i < s.len() && s[i] == m
    &&& forall|i: int| 0 <= i < s.len() ==> m <= s[i]
}

/// Whether `m` occurs in `s` and nothing in `s` is larger.
pub open spec fn is_greatest(m: int, s: Seq<int>) -> bool {
    &&& exists|i: int| 0 <= i < s.len() && s[i] == m
    &&& forall|i: int| 0 <= i < s.len() ==> s[i] <= m
}

} // verus!
