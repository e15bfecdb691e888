//! Functions on grids of values and on the text they are read from.

use crate::arith::{
    floor_mod, lemma_minus_one, lemma_trunc_div_bounds, lemma_twice_reduced, trunc_div,
    trunc_rem, twice_reduced,
};
use crate::error::{ParseError, PatternError};
use crate::grid::{
    all_empty, border, column_cells, framed, framed_row, has_column, is_greatest, is_least,
    lemma_column_len, lemma_rows_push, rows, sums_fit, total, transposed, values, widest,
};
use crate::pattern::{joined, split_tokens, splits_lines, token_views, Matcher};
use crate::scalar::{fits, Scalar};
use crate::text::{lines_of, parse_number, parsed, text_lines};
use vstd::prelude::*;

verus! {

/// A row as wide as `row` with its frame, filled with `filler`.
fn border_row(row: &Vec<char>, filler: char) -> (b: Vec<char>)
    ensures
        b@ == border((row@.len() + 2) as nat, filler),
{
    let mut b: Vec<char> = Vec::new();
    b.push(filler);
    b.push(filler);
    let mut j: usize = 0;
    while j < row.len()
        invariant
            j <= row.len(),
            b@ == border((j + 2) as nat, filler),
        decreases row.len() - j,
    {
        b.push(filler);
        j += 1;
        assert(b@ =~= border((j + 2) as nat, filler));
    }
    b
}

/// A copy of `row` between two cells that hold `filler`.
fn frame_row(row: &Vec<char>, filler: char) -> (f: Vec<char>)
    ensures
        f@ == framed_row(row@, filler),
{
    let mut f: Vec<char> = Vec::new();
    f.push(filler);
    let mut j: usize = 0;
    while j < row.len()
        invariant
            j <= row.len(),
            f@ == seq![filler] + row@.take(j as int),
        decreases row.len() - j,
    {
        f.push(row[j]);
        j += 1;
        assert(f@ =~= seq![filler] + row@.take(j as int));
    }
    f.push(filler);
    assert(row@.take(row@.len() as int) == row@);
    f
}

/// Puts a frame of `filler` cells around a grid. The grid need not be rectangular: each
/// row keeps its width, and the borders above and below follow the first row. Without
/// a single cell to put a frame around there is no result.
pub fn pad_lines(lines: &[Vec<char>], filler: char) -> (r: Option<Vec<Vec<char>>>)
    ensures
        r is None <==> all_empty(rows(lines@)),
        r matches Some(g) ==> {
            &&& rows(g@) == framed(rows(lines@), filler)
            &&& g.len() == lines.len() + 2
            &&& forall|i: int| 0 <= i < lines.len() ==> (#[trigger] g[i + 1]).len() == lines[i].len() + 2
            &&& forall|i: int, j: int|
                0 <= i < lines.len() && 0 <= j < lines[i].len() ==> #[trigger] g[i + 1][j + 1]
                    == lines[i][j]
        },
{
    let mut i: usize = 0;
    let mut found = false;
    while i < lines.len() && !found
        invariant
            i <= lines.len(),
            !found ==> all_empty(rows(lines@.take(i as int))),
            found ==> !all_empty(rows(lines@)),
        decreases lines.len() - i + (if found { 0int } else { 1int }),
    {
        if lines[i].len() > 0 {
            found = true;
            assert(rows(lines@)[i as int].len() > 0);
        } else {
            i += 1;
            assert forall|k: int| 0 <= k < i implies (#[trigger] rows(lines@.take(i as int))[k]).len()
                == 0 by {
                if k < i - 1 {
                    assert(rows(lines@.take(i - 1))[k].len() == 0);
                }
            }
        }
    }
    if !found {
        assert(lines@.take(lines@.len() as int) == lines@);
        return None;
    }
    let ghost grid = rows(lines@);
    let mut result: Vec<Vec<char>> = Vec::new();
    let top = border_row(&lines[0], filler);
    result.push(top);
    let mut k: usize = 0;
    assert(rows(result@) =~= seq![border((grid[0].len() + 2) as nat, filler)] + Seq::new(
        0,
        |i: int| framed_row(grid[i], filler),
    ));
    while k < lines.len()
        invariant
            k <= lines.len(),
            grid == rows(lines@),
            lines.len() > 0,
            rows(result@) == seq![border((grid[0].len() + 2) as nat, filler)] + Seq::new(
                k as nat,
                |i: int| framed_row(grid[i], filler),
            ),
        decreases lines.len() - k,
    {
        let row = frame_row(&lines[k], filler);
        proof {
            lemma_rows_push(result@, row);
        }
        result.push(row);
        k += 1;
        assert(rows(result@) =~= seq![border((grid[0].len() + 2) as nat, filler)] + Seq::new(
            k as nat,
            |i: int| framed_row(grid[i], filler),
        ));
    }
    let bottom = border_row(&lines[0], filler);
    proof {
        lemma_rows_push(result@, bottom);
    }
    result.push(bottom);
    assert(rows(result@) =~= framed(grid, filler));
    assert forall|i: int| 0 <= i < lines.len() implies (#[trigger] result[i + 1]).len()
        == lines[i].len() + 2 by {
        assert(rows(result@)[i + 1] == framed_row(grid[i], filler));
    }
    assert forall|i: int, j: int| 0 <= i < lines.len() && 0 <= j < lines[i].len() implies #[trigger] result[i
        + 1][j + 1] == lines[i][j] by {
        assert(rows(result@)[i + 1] == framed_row(grid[i], filler));
    }
    Some(result)
}

/// Puts a frame of `filler` characters around the lines of a text: one row above, one
/// below, one character before each line and one behind it. A text without lines, or
/// with empty lines only, has no frame.
pub fn pad(input: &str, filler: char) -> (r: Option<Vec<Vec<char>>>)
    ensures
        r is None <==> all_empty(text_lines(input@)),
        r matches Some(g) ==> {
            let lines = text_lines(input@);
            &&& rows(g@) == framed(lines, filler)
            &&& g.len() == lines.len() + 2
            &&& forall|i: int| 0 <= i < lines.len() ==> (#[trigger] g[i + 1]).len() == lines[i].len() + 2
            &&& forall|i: int, j: int|
                0 <= i < lines.len() && 0 <= j < lines[i].len() ==> #[trigger] g[i + 1][j + 1]
                    == lines[i][j]
        },
{
    let lines = lines_of(input);
    let r = pad_lines(lines.as_slice(), filler);
    proof {
        let grid = text_lines(input@);
        assert forall|i: int| 0 <= i < grid.len() implies grid[i] == lines[i]@ by {
            assert(rows(lines@)[i] == lines[i]@);
        }
    }
    r
}

/// Removes every match of the pattern from `input`; what lies between the matches
/// stays, in its order. A pattern that does not compile is reported.
pub fn filter_by_regex(input: &str, regex_pattern: &str) -> (r: Result<String, PatternError>)
    ensures
        r matches Ok(rest) ==> rest@ == joined(split_tokens(regex_pattern@, input@)),
{
    filter_compiled(
        Matcher::new(regex_pattern),
        input,
    )
}

/// Splits `input` at the matches of the pattern. Empty tokens are kept: they show
/// where two matches stood side by side, or a match at an end of the text. A pattern
/// that does not compile is reported.
pub fn split_by_regex<'a>(input: &'a str, regex_pattern: &str) -> (r: Result<
    Vec<&'a str>,
    PatternError,
>)
    ensures
        r matches Ok(tokens) ==> token_views(tokens@) == split_tokens(regex_pattern@, input@),
{
    split_compiled(
        Matcher::new(regex_pattern),
        input,
    )
}

/// Splits each line of `input` at the matches of the pattern: one row of tokens for
/// each line. A pattern that does not compile is reported.
pub fn split_2d_by_regex<'a>(input: &'a str, regex_pattern: &str) -> (r: Result<
    Vec<Vec<&'a str>>,
    PatternError,
>)
    ensures
        r matches Ok(grid) ==> splits_lines(grid@, regex_pattern@, text_lines(input@)),
{
    split_2d_compiled(
        Matcher::new(regex_pattern),
        input,
    )
}

/// Whether the tokens before place `i` all denote numbers of the type `T`.
pub open spec fn parse_before<T: Scalar>(tokens: Seq<&str>, i: int) -> bool {
    forall|j: int| 0 <= j < i && j < tokens.len() ==> parsed::<T>((#[trigger] tokens[j])@) is Some
}

/// Whether the numbers are those that the tokens denote, one for one.
pub open spec fn numbers_of<T: Scalar>(numbers: Seq<T>, tokens: Seq<&str>) -> bool {
    &&& numbers.len() == tokens.len()
    &&& forall|i: int|
        0 <= i < tokens.len() ==> parsed::<T>((#[trigger] tokens[i])@) == Some(numbers[i].as_int())
}

/// Whether `e` reports the first of the tokens that denotes no number of the type `T`:
/// its place, and the token itself.
pub open spec fn reports<T: Scalar>(e: ParseError, tokens: Seq<&str>) -> bool {
    &&& e.index < tokens.len()
    &&& parse_before::<T>(tokens, e.index as int)
    &&& parsed::<T>(tokens[e.index as int]@) is None
    &&& e.token@ == tokens[e.index as int]@
}

/// Reads each token as a decimal number of the type `T`. The first token that does not
/// denote such a number is reported, with its place.
pub fn to_numeric<T: Scalar>(input: &[&str]) -> (r: Result<Vec<T>, ParseError>)
    ensures
        match r {
            Ok(numbers) => numbers_of(numbers@, input@),
            Err(e) => e.row == 0 && reports::<T>(e, input@),
        },
{
    let mut numbers: Vec<T> = Vec::new();
    let mut i: usize = 0;
    while i < input.len()
        invariant
            i <= input.len(),
            numbers.len() == i,
            forall|j: int|
                0 <= j < i ==> parsed::<T>((#[trigger] input[j])@) == Some(numbers[j].as_int()),
        decreases input.len() - i,
    {
        match parse_number::<T>(input[i]) {
            Some(v) => {
                numbers.push(v);
            },
            None => {
                return Err(ParseError { row: 0, index: i, token: input[i].to_owned() });
            },
        }
        i += 1;
    }
    Ok(numbers)
}

/// Reads each token of a grid of tokens as a decimal number of the type `T`, row by
/// row. The first token that does not denote such a number is reported, with its row
/// and its place in the row.
pub fn to_2d_numeric<T: Scalar>(input: &[Vec<&str>]) -> (r: Result<Vec<Vec<T>>, ParseError>)
    ensures
        match r {
            Ok(grid) => {
                &&& grid.len() == input.len()
                &&& forall|k: int| 0 <= k < input.len() ==> numbers_of((#[trigger] grid[k])@, input[k]@)
            },
            Err(e) => {
                &&& e.row < input.len()
                &&& forall|k: int|
                    0 <= k < e.row ==> parse_before::<T>(
                        (#[trigger] input[k])@,
                        input[k].len() as int,
                    )
                &&& reports::<T>(e, input[e.row as int]@)
            },
        },
{
    let mut grid: Vec<Vec<T>> = Vec::new();
    let mut k: usize = 0;
    while k < input.len()
        invariant
            k <= input.len(),
            grid.len() == k,
            forall|j: int| 0 <= j < k ==> numbers_of((#[trigger] grid[j])@, input[j]@),
        decreases input.len() - k,
    {
        match to_numeric::<T>(input[k].as_slice()) {
            Ok(numbers) => {
                grid.push(numbers);
            },
            Err(e) => {
                assert forall|j: int| 0 <= j < k implies parse_before::<T>(
                    (#[trigger] input[j])@,
                    input[j].len() as int,
                ) by {
                    assert(numbers_of(grid[j]@, input[j]@));
                }
                return Err(ParseError { row: k, index: e.index, token: e.token });
            },
        }
        k += 1;
    }
    Ok(grid)
}

/// The length of the longest row.
fn longest_row<T>(grid: &[Vec<T>]) -> (w: usize)
    ensures
        w == widest(rows(grid@)),
{
    let mut w: usize = 0;
    let mut i: usize = 0;
    assert(rows(grid@.take(0)) =~= Seq::empty());
    while i < grid.len()
        invariant
            i <= grid.len(),
            w == widest(rows(grid@.take(i as int))),
        decreases grid.len() - i,
    {
        assert(rows(grid@.take(i + 1)).drop_last() =~= rows(grid@.take(i as int)));
        assert(rows(grid@.take(i + 1)).last() == grid[i as int]@);
        if grid[i].len() > w {
            w = grid[i].len();
        }
        i += 1;
    }
    assert(grid@.take(grid@.len() as int) == grid@);
    w
}

/// The cells at place `n` of the rows that reach so far.
fn cells_at<T: Copy>(grid: &[Vec<T>], n: usize) -> (cells: Vec<T>)
    ensures
        cells@ == column_cells(rows(grid@), n as int),
{
    let mut cells: Vec<T> = Vec::new();
    let mut i: usize = 0;
    assert(rows(grid@.take(0)) =~= Seq::empty());
    while i < grid.len()
        invariant
            i <= grid.len(),
            cells@ == column_cells(rows(grid@.take(i as int)), n as int),
        decreases grid.len() - i,
    {
        assert(rows(grid@.take(i + 1)).drop_last() =~= rows(grid@.take(i as int)));
        assert(rows(grid@.take(i + 1)).last() == grid[i as int]@);
        if n < grid[i].len() {
            cells.push(grid[i][n]);
        }
        i += 1;
    }
    assert(grid@.take(grid@.len() as int) == grid@);
    cells
}

/// Turns a grid over its diagonal: row `n` of the result holds the cells at place `n`
/// of the rows of `grid`, from the first row to the last. The result has as many rows
/// as the longest row has cells; a shorter row gives nothing to the columns beyond its end.
pub fn rotate<T: Copy>(grid: &[Vec<T>]) -> (rotated: Vec<Vec<T>>)
    ensures
        rows(rotated@) == transposed(rows(grid@)),
{
    let width = longest_row(grid);
    let mut rotated: Vec<Vec<T>> = Vec::new();
    let mut n: usize = 0;
    assert(rows(rotated@) =~= Seq::new(0, |k: int| column_cells(rows(grid@), k)));
    while n < width
        invariant
            n <= width,
            rows(rotated@) == Seq::new(n as nat, |k: int| column_cells(rows(grid@), k)),
        decreases width - n,
    {
        let cells = cells_at(grid, n);
        proof {
            lemma_rows_push(rotated@, cells);
        }
        rotated.push(cells);
        n += 1;
        assert(rows(rotated@) =~= Seq::new(n as nat, |k: int| column_cells(rows(grid@), k)));
    }
    rotated
}

/// Whether every row of the grid has a cell at place `n`, and there is a row.
fn column_exists<T>(grid: &[Vec<T>], n: usize) -> (b: bool)
    ensures
        b == has_column(rows(grid@), n as int),
{
    if grid.len() == 0 {
        return false;
    }
    let mut i: usize = 0;
    while i < grid.len()
        invariant
            i <= grid.len(),
            forall|k: int| 0 <= k < i ==> n < (#[trigger] rows(grid@)[k]).len(),
        decreases grid.len() - i,
    {
        if n >= grid[i].len() {
            assert(rows(grid@)[i as int].len() <= n);
            return false;
        }
        i += 1;
    }
    true
}

/// The sum of the cells, added up from the left.
fn sum_cells<T: Scalar>(cells: &[T]) -> (sum: T)
    requires
        sums_fit::<T>(values(cells@)),
    ensures
        sum.as_int() == total(values(cells@)),
{
    let mut sum = T::zero();
    let mut i: usize = 0;
    assert(values(cells@).take(0) =~= Seq::empty());
    while i < cells.len()
        invariant
            i <= cells.len(),
            sums_fit::<T>(values(cells@)),
            sum.as_int() == total(values(cells@).take(i as int)),
        decreases cells.len() - i,
    {
        assert(values(cells@).take(i + 1).drop_last() =~= values(cells@).take(i as int));
        assert(values(cells@).take(i + 1).last() == cells[i as int].as_int());
        sum = sum.plus(cells[i]);
        i += 1;
    }
    assert(values(cells@).take(cells@.len() as int) =~= values(cells@));
    sum
}

/// The smallest of the cells, if there is a cell.
fn least_cell<T: Scalar>(cells: &[T]) -> (r: Option<T>)
    ensures
        r is None <==> cells.len() == 0,
        r matches Some(m) ==> is_least(m.as_int(), values(cells@)),
{
    if cells.len() == 0 {
        return None;
    }
    let mut least = cells[0];
    let mut i: usize = 1;
    let ghost mut at: int = 0;
    while i < cells.len()
        invariant
            1 <= i <= cells.len(),
            0 <= at < i,
            cells[at].as_int() == least.as_int(),
            forall|k: int| 0 <= k < i ==> least.as_int() <= (#[trigger] cells[k]).as_int(),
        decreases cells.len() - i,
    {
        if cells[i].is_less(least) {
            least = cells[i];
            proof {
                at = i as int;
            }
        }
        i += 1;
    }
    assert(values(cells@)[at] == least.as_int());
    Some(least)
}

/// The largest of the cells, if there is a cell.
fn greatest_cell<T: Scalar>(cells: &[T]) -> (r: Option<T>)
    ensures
        r is None <==> cells.len() == 0,
        r matches Some(m) ==> is_greatest(m.as_int(), values(cells@)),
{
    if cells.len() == 0 {
        return None;
    }
    let mut greatest = cells[0];
    let mut i: usize = 1;
    let ghost mut at: int = 0;
    while i < cells.len()
        invariant
            1 <= i <= cells.len(),
            0 <= at < i,
            cells[at].as_int() == greatest.as_int(),
            forall|k: int| 0 <= k < i ==> (#[trigger] cells[k]).as_int() <= greatest.as_int(),
        decreases cells.len() - i,
    {
        if greatest.is_less(cells[i]) {
            greatest = cells[i];
            proof {
                at = i as int;
            }
        }
        i += 1;
    }
    assert(values(cells@)[at] == greatest.as_int());
    Some(greatest)
}

/// The sum of column `n`. There is none for a grid without rows, nor where a row has
/// no cell at place `n`.
pub fn sum_column<T: Scalar>(grid: &[Vec<T>], n: usize) -> (r: Option<T>)
    requires
        has_column(rows(grid@), n as int) ==> sums_fit::<T>(
            values(column_cells(rows(grid@), n as int)),
        ),
    ensures
        r is Some <==> has_column(rows(grid@), n as int),
        r matches Some(sum) ==> sum.as_int() == total(values(column_cells(rows(grid@), n as int))),
{
    if !column_exists(grid, n) {
        return None;
    }
    let cells = cells_at(grid, n);
    Some(sum_cells(cells.as_slice()))
}

/// The sum of row `n`, zero for a row without cells. There is none where the grid has
/// no row `n`.
pub fn sum_row<T: Scalar>(grid: &[Vec<T>], n: usize) -> (r: Option<T>)
    requires
        n < grid.len() ==> sums_fit::<T>(values(grid[n as int]@)),
    ensures
        r is Some <==> n < grid.len(),
        r matches Some(sum) ==> sum.as_int() == total(values(grid[n as int]@)),
{
    if n >= grid.len() {
        return None;
    }
    Some(sum_cells(grid[n].as_slice()))
}

/// The smallest cell of column `n`. There is none for a grid without rows, nor where a
/// row has no cell at place `n`.
pub fn min_column<T: Scalar>(grid: &[Vec<T>], n: usize) -> (r: Option<T>)
    ensures
        r is Some <==> has_column(rows(grid@), n as int),
        r matches Some(m) ==> is_least(m.as_int(), values(column_cells(rows(grid@), n as int))),
{
    if !column_exists(grid, n) {
        return None;
    }
    let cells = cells_at(grid, n);
    proof {
        lemma_column_len(rows(grid@), n as int);
    }
    least_cell(cells.as_slice())
}

/// The largest cell of column `n`. There is none for a grid without rows, nor where a
/// row has no cell at place `n`.
pub fn max_column<T: Scalar>(grid: &[Vec<T>], n: usize) -> (r: Option<T>)
    ensures
        r is Some <==> has_column(rows(grid@), n as int),
        r matches Some(m) ==> is_greatest(
            m.as_int(),
            values(column_cells(rows(grid@), n as int)),
        ),
{
    if !column_exists(grid, n) {
        return None;
    }
    let cells = cells_at(grid, n);
    proof {
        lemma_column_len(rows(grid@), n as int);
    }
    greatest_cell(cells.as_slice())
}

/// The smallest cell of row `n`. There is none where the grid has no row `n`, nor for
/// a row without cells.
pub fn min_row<T: Scalar>(grid: &[Vec<T>], n: usize) -> (r: Option<T>)
    ensures
        r is Some <==> n < grid.len() && grid[n as int].len() > 0,
        r matches Some(m) ==> is_least(m.as_int(), values(grid[n as int]@)),
{
    if n >= grid.len() {
        return None;
    }
    least_cell(grid[n].as_slice())
}

/// The largest cell of row `n`. There is none where the grid has no row `n`, nor for a
/// row without cells.
pub fn max_row<T: Scalar>(grid: &[Vec<T>], n: usize) -> (r: Option<T>)
    ensures
        r is Some <==> n < grid.len() && grid[n as int].len() > 0,
        r matches Some(m) ==> is_greatest(m.as_int(), values(grid[n as int]@)),
{
    if n >= grid.len() {
        return None;
    }
    greatest_cell(grid[n].as_slice())
}

/// The remainder of `lhs` by `rhs` that lies between zero and `rhs`: for a positive
/// `rhs` it is never negative, whatever the sign of `lhs`. It is computed as the
/// remainder of `lhs`, with `rhs` added, reduced once more.
pub fn modulus<T: Scalar>(lhs: T, rhs: T) -> (m: T)
    requires
        rhs.as_int() != 0,
        fits::<T>(trunc_div(lhs.as_int(), rhs.as_int())),
        fits::<T>(trunc_rem(lhs.as_int(), rhs.as_int()) + rhs.as_int()),
    ensures
        m.as_int() == floor_mod(lhs.as_int(), rhs.as_int()),
        m.as_int() == twice_reduced(lhs.as_int(), rhs.as_int()),
        rhs.as_int() > 0 ==> 0 <= m.as_int() < rhs.as_int() && m.as_int() == lhs.as_int()
            % rhs.as_int(),
{
    proof {
        let once = trunc_rem(lhs.as_int(), rhs.as_int()) + rhs.as_int();
        lemma_twice_reduced(lhs.as_int(), rhs.as_int());
        lemma_trunc_div_bounds(once, rhs.as_int());
        lemma_minus_one(lhs.as_int());
        rhs.lemma_in_range();
        T::lemma_limits();
    }
    lhs.remainder(rhs).plus(rhs).remainder(rhs)
}

/// What filtering gives once the pattern has been through compiling. With a matcher,
/// filtering succeeds: every match is removed from `input`, and what lies between the
/// matches stays in its order. Without one, the error is handed on as it came.
pub fn filter_compiled(compiled: Result<Matcher, PatternError>, input: &str) -> (r: Result<
    String,
    PatternError,
>)
    ensures
        match compiled {
            Ok(m) => r matches Ok(rest) && rest@ == joined(split_tokens(m@, input@)),
            Err(e) => r == Err::<String, PatternError>(e),
        },
{
    match compiled {
        Ok(matcher) => Ok(matcher.filter(input)),
        Err(e) => Err(e),
    }
}

/// What splitting gives once the pattern has been through compiling. With a matcher,
/// splitting succeeds, and the tokens are the parts of `input` between the matches,
/// empty ones among them. Without one, the error is handed on as it came.
pub fn split_compiled<'a>(compiled: Result<Matcher, PatternError>, input: &'a str) -> (r: Result<
    Vec<&'a str>,
    PatternError,
>)
    ensures
        match compiled {
            Ok(m) => r matches Ok(tokens) && token_views(tokens@) == split_tokens(m@, input@),
            Err(e) => r == Err::<Vec<&'a str>, PatternError>(e),
        },
{
    match compiled {
        Ok(matcher) => Ok(matcher.split(input)),
        Err(e) => Err(e),
    }
}

/// What splitting line by line gives once the pattern has been through compiling. With
/// a matcher, it succeeds with one row of tokens for each line of `input`. Without one,
/// the error is handed on as it came.
pub fn split_2d_compiled<'a>(compiled: Result<Matcher, PatternError>, input: &'a str) -> (r:
    Result<Vec<Vec<&'a str>>, PatternError>)
    ensures
        match compiled {
            Ok(m) => r matches Ok(grid) && splits_lines(grid@, m@, text_lines(input@)),
            Err(e) => r == Err::<Vec<Vec<&'a str>>, PatternError>(e),
        },
{
    match compiled {
        Ok(matcher) => Ok(matcher.split_lines(input)),
        Err(e) => Err(e),
    }
}

} // verus!
