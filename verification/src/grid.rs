//! Cells of a rectangular grid, their neighbours, and the regions that
//! cells of one value form.
use vstd::prelude::*;
use vstd::arithmetic::div_mod::lemma_fundamental_div_mod_converse;
use crate::graph::links_are_inside;
use crate::graph::links_to;
use crate::graph::rows;
use crate::regions::count_enclosed;
use crate::regions::count_enclosed_regions;
use crate::regions::count_leaders;
use crate::regions::count_regions;
use crate::regions::links_join_members;

verus! {

/// The cell above, where there is one.
pub open spec fn above(row: usize, col: usize) -> Seq<(usize, usize)> {
    if row > 0 {
        seq![((row - 1) as usize, col)]
    } else {
        Seq::empty()
    }
}

/// The cell below, where there is one among `rows` rows.
pub open spec fn below(row: usize, col: usize, rows: usize) -> Seq<(usize, usize)> {
    if row + 1 < rows {
        seq![((row + 1) as usize, col)]
    } else {
        Seq::empty()
    }
}

/// The cell to the left, where there is one.
pub open spec fn left_of(row: usize, col: usize) -> Seq<(usize, usize)> {
    if col > 0 {
        seq![(row, (col - 1) as usize)]
    } else {
        Seq::empty()
    }
}

/// The cell to the right, where there is one among `cols` columns.
pub open spec fn right_of(row: usize, col: usize, cols: usize) -> Seq<(usize, usize)> {
    if col + 1 < cols {
        seq![(row, (col + 1) as usize)]
    } else {
        Seq::empty()
    }
}

/// The cells that share an edge with `(row, col)` in a grid of `rows` by
/// `cols`: above, below, left, right, in this order.
pub open spec fn adjacent(row: usize, col: usize, rows: usize, cols: usize) -> Seq<(usize, usize)> {
    above(row, col) + below(row, col, rows) + left_of(row, col) + right_of(row, col, cols)
}

/// The cells that share an edge with `(row, col)`.
pub fn neighbors(row: usize, col: usize, rows: usize, cols: usize) -> (r: Vec<(usize, usize)>)
    ensures
        r@ == adjacent(row, col, rows, cols),
{
    let mut out: Vec<(usize, usize)> = Vec::new();
    if row > 0 {
        out.push((row - 1, col));
    }
    assert(out@ =~= above(row, col));
    if rows > 0 && row < rows - 1 {
        out.push((row + 1, col));
    }
    assert(out@ =~= above(row, col) + below(row, col, rows));
    if col > 0 {
        out.push((row, col - 1));
    }
    assert(out@ =~= above(row, col) + below(row, col, rows) + left_of(row, col));
    if cols > 0 && col < cols - 1 {
        out.push((row, col + 1));
    }
    assert(out@ =~= adjacent(row, col, rows, cols));
    out
}

/// Every neighbour lies inside the grid, given that the cell itself does.
pub proof fn lemma_neighbors_stay_inside(row: usize, col: usize, rows: usize, cols: usize)
    requires
        row < rows,
        col < cols,
    ensures
        forall|i: int|
            0 <= i < adjacent(row, col, rows, cols).len() ==> (#[trigger] adjacent(
                row,
                col,
                rows,
                cols,
            )[i]).0 < rows && adjacent(row, col, rows, cols)[i].1 < cols,
{
}

/// The rows of a grid.
pub open spec fn cells(grid: Vec<Vec<bool>>) -> Seq<Seq<bool>> {
    Seq::new(grid@.len(), |i: int| grid@[i]@)
}

/// Every row has `cols` cells.
pub open spec fn is_rectangular(grid: Seq<Seq<bool>>, cols: int) -> bool {
    forall|r: int| 0 <= r < grid.len() ==> (#[trigger] grid[r]).len() == cols
}

/// The number of a cell: cells are counted row by row.
pub open spec fn cell_number(row: int, col: int, cols: int) -> int {
    row * cols + col
}

/// The value of the cell with the given number.
pub open spec fn value_of(grid: Seq<Seq<bool>>, cols: int, number: int) -> bool {
    grid[number / cols][number % cols]
}

/// For each cell by its number, whether its value is `value`.
pub open spec fn valued(grid: Seq<Seq<bool>>, cols: int, value: bool) -> Seq<bool> {
    Seq::new((grid.len() * cols) as nat, |number: int| value_of(grid, cols, number) == value)
}

/// For each cell by its number, whether it lies in the first or last row
/// or column.
pub open spec fn on_rim(grid: Seq<Seq<bool>>, cols: int) -> Seq<bool> {
    Seq::new(
        (grid.len() * cols) as nat,
        |number: int|
            number / cols == 0 || number % cols == 0 || number / cols + 1 == grid.len() || number
                % cols + 1 == cols,
    )
}

/// The numbers of those of the given cells whose value is `value`, in
/// their order.
pub open spec fn kindred(
    grid: Seq<Seq<bool>>,
    cols: int,
    value: bool,
    among: Seq<(usize, usize)>,
) -> Seq<usize>
    decreases among.len(),
{
    if among.len() == 0 {
        Seq::empty()
    } else {
        let before = kindred(grid, cols, value, among.drop_last());
        let (row, col) = among.last();
        if grid[row as int][col as int] == value {
            before.push(cell_number(row as int, col as int, cols) as usize)
        } else {
            before
        }
    }
}

/// The links between cells of value `value`: each such cell is linked to
/// those of its neighbours that have the same value.
pub open spec fn kin_links(grid: Seq<Seq<bool>>, cols: int, value: bool) -> Seq<Seq<usize>> {
    Seq::new(
        (grid.len() * cols) as nat,
        |number: int|
            if value_of(grid, cols, number) == value {
                kindred(
                    grid,
                    cols,
                    value,
                    adjacent(
                        (number / cols) as usize,
                        (number % cols) as usize,
                        grid.len() as usize,
                        cols as usize,
                    ),
                )
            } else {
                Seq::empty()
            },
    )
}

/// A cell inside the grid has a number below the number of cells, and row
/// and column can be read off the number.
pub proof fn lemma_cell_number(row: int, col: int, rows: int, cols: int)
    requires
        0 <= row < rows,
        0 <= col < cols,
    ensures
        0 <= cell_number(row, col, cols) < rows * cols,
        cell_number(row, col, cols) / cols == row,
        cell_number(row, col, cols) % cols == col,
{
    assert(0 <= row * cols + col < rows * cols) by (nonlinear_arith)
        requires
            0 <= row < rows,
            0 <= col < cols,
    ;
    lemma_fundamental_div_mod_converse(row * cols + col, cols, row, col);
}

/// The members of `kindred` are numbers of cells of the wanted value.
proof fn lemma_kindred_members(
    grid: Seq<Seq<bool>>,
    cols: int,
    value: bool,
    among: Seq<(usize, usize)>,
)
    requires
        is_rectangular(grid, cols),
        forall|i: int|
            0 <= i < among.len() ==> (#[trigger] among[i]).0 < grid.len() && among[i].1 < cols,
        grid.len() * cols <= usize::MAX,
    ensures
        forall|t: int|
            0 <= t < kindred(grid, cols, value, among).len() ==> {
                let number = #[trigger] kindred(grid, cols, value, among)[t];
                number < grid.len() * cols && value_of(grid, cols, number as int) == value
            },
    decreases among.len(),
{
    if among.len() > 0 {
        let before = kindred(grid, cols, value, among.drop_last());
        lemma_kindred_members(grid, cols, value, among.drop_last());
        let (row, col) = among.last();
        lemma_cell_number(row as int, col as int, grid.len() as int, cols);
        assert forall|t: int| 0 <= t < kindred(grid, cols, value, among).len() implies {
            let number = #[trigger] kindred(grid, cols, value, among)[t];
            number < grid.len() * cols && value_of(grid, cols, number as int) == value
        } by {
            if t < before.len() {
                assert(kindred(grid, cols, value, among)[t] == before[t]);
            }
        }
    }
}

/// The links between cells of one value stay inside the grid and join
/// cells of that value only.
pub proof fn lemma_kin_links_are_sound(grid: Seq<Seq<bool>>, cols: int, value: bool)
    requires
        grid.len() > 0,
        cols >= 0,
        is_rectangular(grid, cols),
        grid.len() * cols <= usize::MAX,
    ensures
        links_are_inside(kin_links(grid, cols, value)),
        links_join_members(kin_links(grid, cols, value), valued(grid, cols, value)),
{
    let links = kin_links(grid, cols, value);
    let n = grid.len() * cols;
    assert forall|u: int, i: int| 0 <= u < links.len() && 0 <= i < links[u].len() implies (
    #[trigger] links[u][i]) < links.len() && value_of(grid, cols, links[u][i] as int) == value
        && value_of(grid, cols, u) == value by {
        lemma_number_is_a_cell(u, grid.len() as int, cols);
        assert(grid.len() <= usize::MAX && cols <= usize::MAX) by (nonlinear_arith)
            requires
                grid.len() * cols <= usize::MAX,
                grid.len() > 0,
                cols > 0,
        ;
        let row = (u / cols) as usize;
        let col = (u % cols) as usize;
        lemma_neighbors_stay_inside(row, col, grid.len() as usize, cols as usize);
        lemma_kindred_members(
            grid,
            cols,
            value,
            adjacent(row, col, grid.len() as usize, cols as usize),
        );
    }
    assert forall|u: int, v: int| #[trigger] links_to(links, u, v) implies valued(
        grid,
        cols,
        value,
    )[u] && valued(grid, cols, value)[v] by {
        let i = choose|i: int| 0 <= i < links[u].len() && #[trigger] links[u][i] == v;
        assert(links[u][i] < links.len());
    }
}

/// A number below the number of cells is the number of a cell.
pub proof fn lemma_number_is_a_cell(number: int, rows: int, cols: int)
    requires
        0 <= number < rows * cols,
        cols >= 0,
    ensures
        0 <= number / cols < rows,
        0 <= number % cols < cols,
        cell_number(number / cols, number % cols, cols) == number,
{
    assert(cols > 0) by (nonlinear_arith)
        requires
            0 <= number < rows * cols,
            cols >= 0,
    ;
    vstd::arithmetic::div_mod::lemma_fundamental_div_mod(number, cols);
    vstd::arithmetic::div_mod::lemma_mod_bound(number, cols);
    assert(number / cols < rows) by (nonlinear_arith)
        requires
            cols > 0,
            number == cols * (number / cols) + number % cols,
            0 <= number % cols < cols,
            number < rows * cols,
    ;
    assert(0 <= number / cols) by (nonlinear_arith)
        requires
            cols > 0,
            number == cols * (number / cols) + number % cols,
            0 <= number % cols < cols,
            0 <= number,
    ;
    assert(cols * (number / cols) == (number / cols) * cols) by (nonlinear_arith);
}

/// The cells of value `value` with their links, and the cells on the rim:
/// per cell number its links, whether it has the value, and whether it lies
/// on the rim.
fn survey(grid: &Vec<Vec<bool>>, value: bool) -> (r: (Vec<Vec<usize>>, Vec<bool>, Vec<bool>))
    requires
        grid.len() > 0,
        is_rectangular(cells(*grid), grid@[0]@.len() as int),
        grid.len() * grid@[0]@.len() <= usize::MAX,
    ensures
        rows(r.0) == kin_links(cells(*grid), grid@[0]@.len() as int, value),
        r.1@ == valued(cells(*grid), grid@[0]@.len() as int, value),
        r.2@ == on_rim(cells(*grid), grid@[0]@.len() as int),
{
    let ghost field = cells(*grid);
    let row_count = grid.len();
    let col_count = grid[0].len();
    let ghost cols = col_count as int;
    let ghost total = row_count * col_count;
    let mut adjacency: Vec<Vec<usize>> = Vec::new();
    let mut member: Vec<bool> = Vec::new();
    let mut rim: Vec<bool> = Vec::new();
    let mut row: usize = 0;
    while row < row_count
        invariant
            field == cells(*grid),
            row_count == grid.len(),
            col_count == grid@[0]@.len(),
            cols == col_count,
            total == row_count * col_count,
            total <= usize::MAX,
            row_count > 0,
            is_rectangular(field, cols),
            row <= row_count,
            adjacency@.len() == row * col_count,
            member@.len() == row * col_count,
            rim@.len() == row * col_count,
            forall|number: int|
                0 <= number < row * col_count ==> (#[trigger] adjacency@[number])@ == kin_links(
                    field,
                    cols,
                    value,
                )[number],
            forall|number: int|
                0 <= number < row * col_count ==> #[trigger] member@[number] == valued(
                    field,
                    cols,
                    value,
                )[number],
            forall|number: int|
                0 <= number < row * col_count ==> #[trigger] rim@[number] == on_rim(
                    field,
                    cols,
                )[number],
        decreases row_count - row,
    {
        assert(grid@[row as int]@.len() == col_count) by {
            assert(field[row as int] == grid@[row as int]@);
        }
        let mut col: usize = 0;
        while col < col_count
            invariant
                field == cells(*grid),
                row_count == grid.len(),
                col_count == grid@[0]@.len(),
                cols == col_count,
                total == row_count * col_count,
                total <= usize::MAX,
                row_count > 0,
                is_rectangular(field, cols),
                row < row_count,
                col <= col_count,
                grid@[row as int]@.len() == col_count,
                adjacency@.len() == row * col_count + col,
                member@.len() == row * col_count + col,
                rim@.len() == row * col_count + col,
                forall|number: int|
                    0 <= number < row * col_count + col ==> (#[trigger] adjacency@[number])@
                        == kin_links(field, cols, value)[number],
                forall|number: int|
                    0 <= number < row * col_count + col ==> #[trigger] member@[number] == valued(
                        field,
                        cols,
                        value,
                    )[number],
                forall|number: int|
                    0 <= number < row * col_count + col ==> #[trigger] rim@[number] == on_rim(
                        field,
                        cols,
                    )[number],
            decreases col_count - col,
        {
            let ghost number = cell_number(row as int, col as int, cols);
            proof {
                lemma_cell_number(row as int, col as int, row_count as int, cols);
                assert(field[row as int] == grid@[row as int]@);
            }
            let here = grid[row][col] == value;
            let mut list: Vec<usize> = Vec::new();
            if here {
                let around = neighbors(row, col, row_count, col_count);
                proof {
                    lemma_neighbors_stay_inside(row, col, row_count, col_count);
                }
                let mut j: usize = 0;
                assert(around@.take(0) =~= Seq::<(usize, usize)>::empty());
                while j < around.len()
                    invariant
                        field == cells(*grid),
                        row_count == grid.len(),
                        cols == col_count,
                        total == row_count * col_count,
                        total <= usize::MAX,
                        is_rectangular(field, cols),
                        j <= around.len(),
                        forall|i: int|
                            0 <= i < around@.len() ==> (#[trigger] around@[i]).0 < row_count
                                && around@[i].1 < col_count,
                        list@ == kindred(field, cols, value, around@.take(j as int)),
                    decreases around.len() - j,
                {
                    let (nr, nc) = around[j];
                    proof {
                        assert(around@.take(j + 1).drop_last() =~= around@.take(j as int));
                        assert(around@.take(j + 1).last() == (nr, nc));
                        lemma_cell_number(nr as int, nc as int, row_count as int, cols);
                        assert(field[nr as int] == grid@[nr as int]@);
                        assert(grid@[nr as int]@.len() == col_count);
                        assert(nr * col_count + nc < total) by (nonlinear_arith)
                            requires
                                nr < row_count,
                                nc < col_count,
                                total == row_count * col_count,
                        ;
                        assert(nr * col_count <= nr * col_count + nc);
                    }
                    if grid[nr][nc] == value {
                        list.push(nr * col_count + nc);
                    }
                    j += 1;
                }
                assert(around@.take(around.len() as int) =~= around@);
            }
            let edge = row == 0 || col == 0 || row + 1 == row_count || col + 1 == col_count;
            adjacency.push(list);
            member.push(here);
            rim.push(edge);
            proof {
                assert(row * col_count + (col + 1) == row * col_count + col + 1);
                assert(adjacency@[number]@ == kin_links(field, cols, value)[number]);
                assert(member@[number] == valued(field, cols, value)[number]);
                assert(rim@[number] == on_rim(field, cols)[number]);
            }
            col += 1;
        }
        proof {
            assert((row + 1) * col_count == row * col_count + col_count) by (nonlinear_arith);
        }
        row += 1;
    }
    proof {
        assert(rows(adjacency) =~= kin_links(field, cols, value));
        assert(member@ =~= valued(field, cols, value));
        assert(rim@ =~= on_rim(field, cols));
    }
    (adjacency, member, rim)
}

/// Counts the regions that the `true` cells of the grid form, cells being
/// joined along their edges: the number of `true` cells that no earlier
/// `true` cell is joined to by a chain of `true` neighbours.
pub fn count_true_components(grid: &Vec<Vec<bool>>) -> (r: usize)
    requires
        grid.len() > 0,
        is_rectangular(cells(*grid), grid@[0]@.len() as int),
        grid.len() * grid@[0]@.len() <= usize::MAX,
    ensures
        r == count_leaders(
            kin_links(cells(*grid), grid@[0]@.len() as int, true),
            valued(cells(*grid), grid@[0]@.len() as int, true),
            (grid.len() * grid@[0]@.len()) as nat,
        ),
{
    let (adjacency, member, rim) = survey(grid, true);
    proof {
        lemma_kin_links_are_sound(cells(*grid), grid@[0]@.len() as int, true);
        assert(rows(adjacency).len() == adjacency@.len());
        assert(cells(*grid).len() == grid@.len());
    }
    count_regions(&adjacency, &member)
}

/// Counts the holes of the grid: the regions of `false` cells that do not
/// touch the rim.
pub fn count_false_holes(grid: &Vec<Vec<bool>>) -> (r: usize)
    requires
        grid.len() > 0,
        is_rectangular(cells(*grid), grid@[0]@.len() as int),
        grid.len() * grid@[0]@.len() <= usize::MAX,
    ensures
        r == count_enclosed(
            kin_links(cells(*grid), grid@[0]@.len() as int, false),
            valued(cells(*grid), grid@[0]@.len() as int, false),
            on_rim(cells(*grid), grid@[0]@.len() as int),
            (grid.len() * grid@[0]@.len()) as nat,
        ),
{
    let (adjacency, member, rim) = survey(grid, false);
    proof {
        lemma_kin_links_are_sound(cells(*grid), grid@[0]@.len() as int, false);
        assert(rows(adjacency).len() == adjacency@.len());
        assert(cells(*grid).len() == grid@.len());
    }
    count_enclosed_regions(&adjacency, &member, &rim)
}

} // verus!
