//! Dense Gaussian elimination with partial pivoting for the Newton matrix.
use vstd::prelude::*;

use crate::binary64::{computes, is_nan, is_zero, lt, magnitude, total, ScalarOp, ZERO_BITS};
use super::implicit::SolveError;

verus! {

/// Entry `(row, column)` of a row-major square matrix of order `n`.
pub open spec fn entry(matrix: Seq<u64>, n: int, row: int, column: int) -> u64 {
    matrix[row * n + column]
}

/// Entry `(row, column)` of a row-major square matrix of order `n` lies
/// within its `n * n` entries.
pub proof fn lemma_cell_in_bounds(row: int, column: int, n: int)
    requires
        0 <= row < n,
        0 <= column < n,
    ensures
        0 <= row * n + column < n * n,
{
    assert(0 <= row * n + column < n * n) by (nonlinear_arith)
        requires
            0 <= row < n,
            0 <= column < n,
    ;
}

/// Distinct cells of a row-major square matrix of order `n` lie at distinct
/// positions.
pub proof fn lemma_cells_distinct(row: int, column: int, other_row: int, other_column: int, n: int)
    requires
        0 <= column < n,
        0 <= other_column < n,
        row != other_row || column != other_column,
    ensures
        row * n + column != other_row * n + other_column,
{
    if row != other_row {
        assert(row * n + column != other_row * n + other_column) by (nonlinear_arith)
            requires
                0 <= column < n,
                0 <= other_column < n,
                row != other_row,
        ;
    }
}

/// The row that takes the place of `row` when rows `column` and `pivot` are
/// exchanged.
pub open spec fn swapped_row(row: int, column: int, pivot: int) -> int {
    if row == column {
        pivot
    } else if row == pivot {
        column
    } else {
        row
    }
}

/// Whether `pivot` is the partial pivot of `column`: the first row at or
/// below the diagonal whose entry in `column` has the strictly largest
/// magnitude, where an entry of NaN magnitude never replaces the diagonal
/// (and a NaN diagonal is kept).
pub open spec fn is_pivot(matrix: Seq<u64>, n: int, column: int, pivot: int) -> bool {
    &&& column <= pivot < n
    &&& forall|row: int|
        column <= row < n ==> !lt(
            magnitude(entry(matrix, n, pivot, column)),
            magnitude(#[trigger] entry(matrix, n, row, column)),
        )
    &&& forall|row: int|
        column <= row < pivot ==> lt(
            magnitude(#[trigger] entry(matrix, n, row, column)),
            magnitude(entry(matrix, n, pivot, column)),
        ) || (row != column && is_nan(entry(matrix, n, row, column)))
}

/// A column has exactly one partial pivot: [`is_pivot`] names a single row.
pub proof fn lemma_pivot_unique(matrix: Seq<u64>, n: int, column: int, first: int, second: int)
    requires
        is_pivot(matrix, n, column, first),
        is_pivot(matrix, n, column, second),
    ensures
        first == second,
{
    lemma_pivot_precedes(matrix, n, column, first, second);
    lemma_pivot_precedes(matrix, n, column, second, first);
}

/// No partial pivot lies below another.
proof fn lemma_pivot_precedes(matrix: Seq<u64>, n: int, column: int, first: int, second: int)
    requires
        is_pivot(matrix, n, column, first),
        is_pivot(matrix, n, column, second),
    ensures
        !(first < second),
{
    if first < second {
        let diagonal = entry(matrix, n, column, column);
        let upper = entry(matrix, n, first, column);
        let lower = entry(matrix, n, second, column);
        assert(!lt(magnitude(upper), magnitude(lower)));
        assert(lt(magnitude(upper), magnitude(lower)) || (first != column && is_nan(upper)));
        if column < first {
            assert(lt(magnitude(diagonal), magnitude(upper)));
        }
    }
}

/// Whether `result` is `Sub(value, Mul(factor, other))` through `arith`.
pub open spec fn subtracts_product<A: Fn(ScalarOp) -> u64>(
    arith: A,
    value: u64,
    factor: u64,
    other: u64,
    result: u64,
) -> bool {
    exists|product: u64|
        #![trigger computes(arith, ScalarOp::Mul(factor, other), product)]
        {
            &&& computes(arith, ScalarOp::Mul(factor, other), product)
            &&& computes(arith, ScalarOp::Sub(value, product), result)
        }
}

/// Whether lower row `row` of `(next_matrix, next_rhs)` is its source row of
/// `(matrix, rhs)` after the exchange with `pivot`, eliminated by one factor:
/// `factor = Div(a[source][column], a[pivot][column])`, and each entry right
/// of `column` and the right-hand side lose `factor` times the pivot row's.
pub open spec fn row_eliminated<A: Fn(ScalarOp) -> u64>(
    arith: A,
    n: int,
    column: int,
    pivot: int,
    matrix: Seq<u64>,
    rhs: Seq<u64>,
    next_matrix: Seq<u64>,
    next_rhs: Seq<u64>,
    row: int,
) -> bool {
    let source = swapped_row(row, column, pivot);
    exists|factor: u64|
        #![trigger computes(
            arith,
            ScalarOp::Div(entry(matrix, n, source, column), entry(matrix, n, pivot, column)),
            factor,
        )]
        {
            &&& computes(
                arith,
                ScalarOp::Div(entry(matrix, n, source, column), entry(matrix, n, pivot, column)),
                factor,
            )
            &&& forall|j: int|
                column < j < n ==> subtracts_product(
                    arith,
                    entry(matrix, n, source, j),
                    factor,
                    entry(matrix, n, pivot, j),
                    #[trigger] entry(next_matrix, n, row, j),
                )
            &&& subtracts_product(arith, rhs[source], factor, rhs[pivot], next_rhs[row])
        }
}

/// Whether `(next_matrix, next_rhs)` is one column of forward elimination of
/// `(matrix, rhs)` with the partial pivot `pivot`: rows `column` and `pivot`
/// exchanged, every row below the diagonal eliminated
/// ([`row_eliminated`]), and every other entry the exchanged one.
pub open spec fn eliminates_column<A: Fn(ScalarOp) -> u64>(
    arith: A,
    n: int,
    column: int,
    pivot: int,
    matrix: Seq<u64>,
    rhs: Seq<u64>,
    next_matrix: Seq<u64>,
    next_rhs: Seq<u64>,
) -> bool {
    &&& is_pivot(matrix, n, column, pivot)
    &&& next_matrix.len() == n * n
    &&& next_rhs.len() == n
    &&& forall|row: int, j: int|
        0 <= row < n && 0 <= j < n && (row <= column || j <= column) ==> #[trigger] entry(
            next_matrix,
            n,
            row,
            j,
        ) == entry(matrix, n, swapped_row(row, column, pivot), j)
    &&& forall|row: int|
        0 <= row <= column ==> #[trigger] next_rhs[row] == rhs[swapped_row(row, column, pivot)]
    &&& forall|row: int|
        column < row < n ==> #[trigger] row_eliminated(
            arith,
            n,
            column,
            pivot,
            matrix,
            rhs,
            next_matrix,
            next_rhs,
            row,
        )
}

/// Whether `matrices`, `rhss` and `pivots` record the first `steps` columns
/// of forward elimination from `(matrix, rhs)`, each with a pivot of nonzero
/// magnitude.
pub open spec fn eliminated<A: Fn(ScalarOp) -> u64>(
    arith: A,
    n: int,
    matrix: Seq<u64>,
    rhs: Seq<u64>,
    matrices: Seq<Seq<u64>>,
    rhss: Seq<Seq<u64>>,
    pivots: Seq<int>,
    steps: int,
) -> bool {
    &&& matrices.len() == steps + 1
    &&& rhss.len() == steps + 1
    &&& pivots.len() == steps
    &&& matrices[0] == matrix
    &&& rhss[0] == rhs
    &&& forall|k: int| 0 <= k < steps ==> !is_zero(entry(matrices[k], n, #[trigger] pivots[k], k))
    &&& forall|k: int|
        0 <= k < steps ==> #[trigger] eliminates_column(
            arith,
            n,
            k,
            pivots[k],
            matrices[k],
            rhss[k],
            matrices[k + 1],
            rhss[k + 1],
        )
}

/// Whether `result` is `initial` with `Mul(coefficient, value)` subtracted
/// for each `(coefficient, value)` of `terms`, in order, through `arith`.
pub open spec fn subtracts_all<A: Fn(ScalarOp) -> u64>(
    arith: A,
    terms: Seq<(u64, u64)>,
    initial: u64,
    result: u64,
) -> bool
    decreases terms.len(),
{
    if terms.len() == 0 {
        result == initial
    } else {
        exists|previous: u64|
            #![trigger subtracts_product(arith, previous, terms.last().0, terms.last().1, result)]
            {
                &&& subtracts_all(arith, terms.drop_last(), initial, previous)
                &&& subtracts_product(arith, previous, terms.last().0, terms.last().1, result)
            }
    }
}

/// The pairs `(a[row][j], x[j])` for the columns `j` from `row + 1` up to
/// `end`, exclusive.
pub open spec fn upper_terms(matrix: Seq<u64>, n: int, row: int, x: Seq<u64>, end: int) -> Seq<
    (u64, u64),
> {
    Seq::new((end - row - 1) as nat, |i: int| (entry(matrix, n, row, row + 1 + i), x[row + 1 + i]))
}

/// Whether `x[row]` is row `row` of the upper triangle of `matrix` solved
/// against `y[row]`: `y[row]` less each `a[row][j] * x[j]` right of the
/// diagonal, in column order, divided by the diagonal entry, through `arith`.
pub open spec fn row_solved<A: Fn(ScalarOp) -> u64>(
    arith: A,
    matrix: Seq<u64>,
    n: int,
    y: Seq<u64>,
    x: Seq<u64>,
    row: int,
) -> bool {
    exists|sum: u64|
        #![trigger computes(arith, ScalarOp::Div(sum, entry(matrix, n, row, row)), x[row])]
        {
            &&& subtracts_all(arith, upper_terms(matrix, n, row, x, n), y[row], sum)
            &&& computes(arith, ScalarOp::Div(sum, entry(matrix, n, row, row)), x[row])
        }
}

/// Whether `x` is the back substitution of `y` through the upper triangle of
/// `matrix`, row by row from the last.
pub open spec fn back_substituted<A: Fn(ScalarOp) -> u64>(
    arith: A,
    matrix: Seq<u64>,
    n: int,
    y: Seq<u64>,
    x: Seq<u64>,
) -> bool {
    &&& x.len() == n
    &&& forall|row: int| 0 <= row < n ==> #[trigger] row_solved(arith, matrix, n, y, x, row)
}

/// The partial pivot of `column` in a row-major square matrix of order
/// `dimension`, with its magnitude: scanning downward from the diagonal, the
/// candidate is replaced only by a strictly larger magnitude.
pub(crate) fn select_pivot(matrix: &[u64], dimension: usize, column: usize) -> (r: (usize, u64))
    requires
        matrix@.len() == dimension * dimension,
        column < dimension,
    ensures
        is_pivot(matrix@, dimension as int, column as int, r.0 as int),
        r.1 == magnitude(entry(matrix@, dimension as int, r.0 as int, column as int)),
{
    proof {
        lemma_cell_in_bounds(column as int, column as int, dimension as int);
    }
    let ghost m = matrix@;
    let ghost n = dimension as int;
    let ghost c = column as int;
    let cells = matrix.len();
    let mut pivot = column;
    let mut largest = crate::binary64::abs(matrix[column * dimension + column]);
    let mut row = column + 1;
    while row < dimension
        invariant
            m == matrix@,
            n == dimension,
            c == column,
            matrix@.len() == dimension * dimension,
            cells == matrix@.len(),
            0 <= column < dimension,
            column <= pivot < row <= dimension,
            largest == magnitude(entry(m, n, pivot as int, c)),
            is_nan(entry(m, n, c, c)) ==> pivot == column,
            forall|previous: int|
                c <= previous < row ==> !lt(largest, magnitude(#[trigger] entry(m, n, previous, c))),
            forall|previous: int|
                c <= previous < pivot ==> lt(
                    magnitude(#[trigger] entry(m, n, previous, c)),
                    largest,
                ) || (previous != c && is_nan(entry(m, n, previous, c))),
        decreases dimension - row,
    {
        proof {
            lemma_cell_in_bounds(row as int, column as int, dimension as int);
        }
        let candidate = crate::binary64::abs(matrix[row * dimension + column]);
        assert(candidate == magnitude(entry(m, n, row as int, c)));
        if crate::binary64::less_than(largest, candidate) {
            proof {
                assert forall|previous: int| c <= previous < row + 1 implies !lt(
                    candidate,
                    magnitude(#[trigger] entry(m, n, previous, c)),
                ) by {
                    crate::binary64::lemma_transitive(
                        largest,
                        candidate,
                        magnitude(entry(m, n, previous, c)),
                    );
                    if previous < row && !lt(largest, magnitude(entry(m, n, previous, c))) && !is_nan(
                        magnitude(entry(m, n, previous, c)),
                    ) {
                        crate::binary64::lemma_trichotomy(
                            largest,
                            magnitude(entry(m, n, previous, c)),
                        );
                    }
                }
                assert forall|previous: int| c <= previous < row implies lt(
                    magnitude(#[trigger] entry(m, n, previous, c)),
                    candidate,
                ) || (previous != c && is_nan(entry(m, n, previous, c))) by {
                    if !is_nan(entry(m, n, previous, c)) {
                        assert(!lt(largest, magnitude(entry(m, n, previous, c))));
                        crate::binary64::lemma_trichotomy(
                            largest,
                            magnitude(entry(m, n, previous, c)),
                        );
                    } else if previous == c {
                        assert(pivot == column);
                    }
                }
            }
            largest = candidate;
            pivot = row;
        }
        row = row + 1;
    }
    (pivot, largest)
}


/// The record of a solve that succeeded: `matrices`, `rhss` and `pivots`
/// eliminate all `n` columns of `(initial_matrix, initial_rhs)`, `matrix` is
/// the last eliminated matrix, and `rhs` is the back substitution of the last
/// eliminated right-hand side.
pub open spec fn solution_trace<A: Fn(ScalarOp) -> u64>(
    arith: A,
    initial_matrix: Seq<u64>,
    initial_rhs: Seq<u64>,
    matrix: Seq<u64>,
    rhs: Seq<u64>,
    matrices: Seq<Seq<u64>>,
    rhss: Seq<Seq<u64>>,
    pivots: Seq<int>,
) -> bool {
    let n = initial_rhs.len() as int;
    &&& eliminated(arith, n, initial_matrix, initial_rhs, matrices, rhss, pivots, n)
    &&& matrix == matrices[n]
    &&& back_substituted(arith, matrix, n, rhss[n], rhs)
}

/// The record of a solve that stopped at a singular column: `matrices`,
/// `rhss` and `pivots` eliminate the first `k` columns, `(matrix, rhs)` is
/// the system after them, and the partial pivot of column `k` has zero
/// magnitude.
pub open spec fn singular_trace<A: Fn(ScalarOp) -> u64>(
    arith: A,
    initial_matrix: Seq<u64>,
    initial_rhs: Seq<u64>,
    matrix: Seq<u64>,
    rhs: Seq<u64>,
    matrices: Seq<Seq<u64>>,
    rhss: Seq<Seq<u64>>,
    pivots: Seq<int>,
    k: int,
    pivot: int,
) -> bool {
    let n = initial_rhs.len() as int;
    &&& 0 <= k < n
    &&& eliminated(arith, n, initial_matrix, initial_rhs, matrices, rhss, pivots, k)
    &&& matrix == matrices[k]
    &&& rhs == rhss[k]
    &&& is_pivot(matrix, n, k, pivot)
    &&& is_zero(entry(matrix, n, pivot, k))
}

/// A lower row stays eliminated when its entries right of the pivot column
/// and its right-hand side are kept.
proof fn lemma_row_eliminated_frame<A: Fn(ScalarOp) -> u64>(
    arith: A,
    n: int,
    column: int,
    pivot: int,
    matrix: Seq<u64>,
    rhs: Seq<u64>,
    next_matrix: Seq<u64>,
    next_rhs: Seq<u64>,
    other_matrix: Seq<u64>,
    other_rhs: Seq<u64>,
    row: int,
)
    requires
        row_eliminated(arith, n, column, pivot, matrix, rhs, next_matrix, next_rhs, row),
        forall|j: int|
            column < j < n ==> #[trigger] entry(other_matrix, n, row, j) == entry(
                next_matrix,
                n,
                row,
                j,
            ),
        other_rhs[row] == next_rhs[row],
    ensures
        row_eliminated(arith, n, column, pivot, matrix, rhs, other_matrix, other_rhs, row),
{
    let source = swapped_row(row, column, pivot);
    let factor = choose|factor: u64|
        {
            &&& computes(
                arith,
                ScalarOp::Div(entry(matrix, n, source, column), entry(matrix, n, pivot, column)),
                factor,
            )
            &&& forall|j: int|
                column < j < n ==> subtracts_product(
                    arith,
                    entry(matrix, n, source, j),
                    factor,
                    entry(matrix, n, pivot, j),
                    #[trigger] entry(next_matrix, n, row, j),
                )
            &&& subtracts_product(arith, rhs[source], factor, rhs[pivot], next_rhs[row])
        };
    assert forall|j: int| column < j < n implies subtracts_product(
        arith,
        entry(matrix, n, source, j),
        factor,
        entry(matrix, n, pivot, j),
        #[trigger] entry(other_matrix, n, row, j),
    ) by {
        assert(entry(other_matrix, n, row, j) == entry(next_matrix, n, row, j));
    }
}

/// A solved row stays solved when the solution entries from its own on are
/// kept.
proof fn lemma_row_solved_frame<A: Fn(ScalarOp) -> u64>(
    arith: A,
    matrix: Seq<u64>,
    n: int,
    y: Seq<u64>,
    x: Seq<u64>,
    other_x: Seq<u64>,
    row: int,
)
    requires
        row_solved(arith, matrix, n, y, x, row),
        0 <= row < n,
        x.len() == n,
        other_x.len() == n,
        forall|j: int| row <= j < n ==> #[trigger] other_x[j] == x[j],
    ensures
        row_solved(arith, matrix, n, y, other_x, row),
{
    assert(upper_terms(matrix, n, row, other_x, n) =~= upper_terms(matrix, n, row, x, n));
    assert(other_x[row] == x[row]);
}

/// Dense Gaussian elimination with partial pivoting, in place.
///
/// `matrix` (row-major, of order `n = rhs.len()`) and `rhs` go through the
/// columns of forward elimination ([`eliminates_column`]). When a partial
/// pivot has zero magnitude the solve stops there with
/// [`SolveError::SingularMatrix`], leaving the partly eliminated system
/// ([`singular_trace`]). Otherwise `matrix` keeps the eliminated matrix and
/// `rhs` receives the back substitution of the eliminated right-hand side
/// through its upper triangle ([`solution_trace`]). Every rounding operation
/// goes through `arith`.
pub(crate) fn solve_dense<A: Fn(ScalarOp) -> u64>(matrix: &mut [u64], rhs: &mut [u64], arith: &A) -> (r: Result<
    (),
    SolveError,
>)
    requires
        total(*arith),
        old(matrix)@.len() == old(rhs)@.len() * old(rhs)@.len(),
    ensures
        final(matrix)@.len() == old(matrix)@.len(),
        final(rhs)@.len() == old(rhs)@.len(),
        r matches Err(error) ==> error == SolveError::SingularMatrix,
        r is Ok ==> exists|matrices: Seq<Seq<u64>>, rhss: Seq<Seq<u64>>, pivots: Seq<int>|
            #[trigger] solution_trace(
                *arith,
                old(matrix)@,
                old(rhs)@,
                final(matrix)@,
                final(rhs)@,
                matrices,
                rhss,
                pivots,
            ),
        r is Err ==> exists|
            matrices: Seq<Seq<u64>>,
            rhss: Seq<Seq<u64>>,
            pivots: Seq<int>,
            k: int,
            pivot: int,
        |
            #[trigger] singular_trace(
                *arith,
                old(matrix)@,
                old(rhs)@,
                final(matrix)@,
                final(rhs)@,
                matrices,
                rhss,
                pivots,
                k,
                pivot,
            ),
{
    let dimension = rhs.len();
    let cells = matrix.len();
    let ghost n = dimension as int;
    let ghost m0 = matrix@;
    let ghost r0 = rhs@;
    let ghost mut matrices: Seq<Seq<u64>> = seq![m0];
    let ghost mut rhss: Seq<Seq<u64>> = seq![r0];
    let ghost mut pivots: Seq<int> = Seq::empty();
    let mut column: usize = 0;
    while column < dimension
        invariant
            total(*arith),
            n == dimension,
            rhs@.len() == dimension,
            matrix@.len() == cells,
            cells == dimension * dimension,
            m0 == old(matrix)@,
            r0 == old(rhs)@,
            dimension == old(rhs)@.len(),
            cells == old(matrix)@.len(),
            0 <= column <= dimension,
            eliminated(*arith, n, m0, r0, matrices, rhss, pivots, column as int),
            matrices[column as int] == matrix@,
            rhss[column as int] == rhs@,
        decreases dimension - column,
    {
        let (pivot, largest) = select_pivot(matrix, dimension, column);
        let ghost c = column as int;
        let ghost p = pivot as int;
        if crate::binary64::less_equal(largest, ZERO_BITS) {
            proof {
                assert(is_zero(entry(matrix@, n, p, c)));
                assert(singular_trace(
                    *arith,
                    m0,
                    r0,
                    matrix@,
                    rhs@,
                    matrices,
                    rhss,
                    pivots,
                    c,
                    p,
                ));
            }
            return Err(SolveError::SingularMatrix);
        }
        let ghost before_m = matrix@;
        let ghost before_r = rhs@;
        if pivot != column {
            let mut j: usize = 0;
            while j < dimension
                invariant
                    n == dimension,
                    matrix@.len() == cells,
                    cells == dimension * dimension,
                    before_m.len() == cells,
                    0 <= column < dimension,
                    0 <= pivot < dimension,
                    c == column,
                    p == pivot,
                    0 <= j <= dimension,
                    forall|row: int, k: int|
                        0 <= row < n && 0 <= k < n ==> #[trigger] entry(matrix@, n, row, k) == if k
                            < j {
                            entry(before_m, n, swapped_row(row, c, p), k)
                        } else {
                            entry(before_m, n, row, k)
                        },
                decreases dimension - j,
            {
                proof {
                    lemma_cell_in_bounds(column as int, j as int, dimension as int);
                    lemma_cell_in_bounds(pivot as int, j as int, dimension as int);
                }
                let ghost old_m = matrix@;
                let upper = matrix[column * dimension + j];
                let lower = matrix[pivot * dimension + j];
                proof {
                    assert(upper == entry(old_m, n, c, j as int));
                    assert(lower == entry(old_m, n, p, j as int));
                    assert(entry(old_m, n, c, j as int) == entry(before_m, n, c, j as int));
                    assert(entry(old_m, n, p, j as int) == entry(before_m, n, p, j as int));
                }
                matrix[column * dimension + j] = lower;
                matrix[pivot * dimension + j] = upper;
                proof {
                    assert forall|row: int, k: int| 0 <= row < n && 0 <= k < n implies #[trigger] entry(
                        matrix@,
                        n,
                        row,
                        k,
                    ) == if k < j + 1 {
                        entry(before_m, n, swapped_row(row, c, p), k)
                    } else {
                        entry(before_m, n, row, k)
                    } by {
                        if row != c || k != j {
                            lemma_cells_distinct(row, k, c, j as int, n);
                        }
                        if row != p || k != j {
                            lemma_cells_distinct(row, k, p, j as int, n);
                        }
                        lemma_cell_in_bounds(row, k, n);
                        assert(entry(old_m, n, row, k) == if k < j {
                            entry(before_m, n, swapped_row(row, c, p), k)
                        } else {
                            entry(before_m, n, row, k)
                        });
                    }
                }
                j = j + 1;
            }
            let upper = rhs[column];
            let lower = rhs[pivot];
            rhs[column] = lower;
            rhs[pivot] = upper;
        }
        let ghost swapped_m = matrix@;
        let ghost swapped_r = rhs@;
        assert forall|row: int, k: int| 0 <= row < n && 0 <= k < n implies #[trigger] entry(
            swapped_m,
            n,
            row,
            k,
        ) == entry(before_m, n, swapped_row(row, c, p), k) by {}
        assert forall|row: int| 0 <= row < n implies #[trigger] swapped_r[row] == before_r[swapped_row(
            row,
            c,
            p,
        )] by {}
        let mut row = column + 1;
        while row < dimension
            invariant
                total(*arith),
                n == dimension,
                rhs@.len() == dimension,
                matrix@.len() == cells,
                cells == dimension * dimension,
                before_m.len() == cells,
                before_r.len() == dimension,
                0 <= column < dimension,
                c == column,
                p == pivot,
                column < pivot + 1,
                pivot < dimension,
                column < row <= dimension,
                forall|r: int, k: int|
                    0 <= r < n && 0 <= k < n ==> #[trigger] entry(swapped_m, n, r, k) == entry(
                        before_m,
                        n,
                        swapped_row(r, c, p),
                        k,
                    ),
                forall|r: int| 0 <= r < n ==> #[trigger] swapped_r[r] == before_r[swapped_row(r, c, p)],
                forall|r: int, k: int|
                    0 <= r < n && 0 <= k < n && (r <= c || k <= c || r >= row) ==> #[trigger] entry(
                        matrix@,
                        n,
                        r,
                        k,
                    ) == entry(swapped_m, n, r, k),
                forall|r: int| 0 <= r < n && (r <= c || r >= row) ==> #[trigger] rhs@[r] == swapped_r[r],
                forall|r: int|
                    c < r < row ==> #[trigger] row_eliminated(
                        *arith,
                        n,
                        c,
                        p,
                        before_m,
                        before_r,
                        matrix@,
                        rhs@,
                        r,
                    ),
            decreases dimension - row,
        {
            proof {
                lemma_cell_in_bounds(row as int, column as int, dimension as int);
                lemma_cell_in_bounds(column as int, column as int, dimension as int);
            }
            let ghost source = swapped_row(row as int, c, p);
            let factor = arith(
                ScalarOp::Div(matrix[row * dimension + column], matrix[column * dimension + column]),
            );
            proof {
                assert(entry(matrix@, n, row as int, c) == entry(before_m, n, source, c));
                assert(entry(matrix@, n, c, c) == entry(before_m, n, p, c));
                assert(computes(
                    *arith,
                    ScalarOp::Div(entry(before_m, n, source, c), entry(before_m, n, p, c)),
                    factor,
                ));
            }
            let ghost row_start_m = matrix@;
            let mut j = column + 1;
            while j < dimension
                invariant
                    total(*arith),
                    n == dimension,
                    matrix@.len() == cells,
                    cells == dimension * dimension,
                    0 <= column < dimension,
                    c == column,
                    p == pivot,
                    column < row < dimension,
                    column < j <= dimension,
                    source == swapped_row(row as int, c, p),
                    forall|k: int|
                        c < k < n ==> #[trigger] entry(row_start_m, n, row as int, k) == entry(
                            before_m,
                            n,
                            source,
                            k,
                        ),
                    forall|k: int|
                        c < k < n ==> #[trigger] entry(row_start_m, n, c, k) == entry(
                            before_m,
                            n,
                            p,
                            k,
                        ),
                    forall|r: int, k: int|
                        0 <= r < n && 0 <= k < n && !(r == row && c < k < j) ==> #[trigger] entry(
                            matrix@,
                            n,
                            r,
                            k,
                        ) == entry(row_start_m, n, r, k),
                    forall|k: int|
                        c < k < j ==> subtracts_product(
                            *arith,
                            entry(before_m, n, source, k),
                            factor,
                            entry(before_m, n, p, k),
                            #[trigger] entry(matrix@, n, row as int, k),
                        ),
                decreases dimension - j,
            {
                proof {
                    lemma_cell_in_bounds(row as int, j as int, dimension as int);
                    lemma_cell_in_bounds(column as int, j as int, dimension as int);
                }
                let ghost old_m = matrix@;
                let pivot_entry = matrix[column * dimension + j];
                let product = arith(ScalarOp::Mul(factor, pivot_entry));
                let updated = arith(ScalarOp::Sub(matrix[row * dimension + j], product));
                proof {
                    assert(entry(matrix@, n, c, j as int) == entry(before_m, n, p, j as int));
                    assert(entry(matrix@, n, row as int, j as int) == entry(
                        before_m,
                        n,
                        source,
                        j as int,
                    ));
                    assert(computes(
                        *arith,
                        ScalarOp::Mul(factor, entry(before_m, n, p, j as int)),
                        product,
                    ));
                    assert(computes(
                        *arith,
                        ScalarOp::Sub(entry(before_m, n, source, j as int), product),
                        updated,
                    ));
                    assert(subtracts_product(
                        *arith,
                        entry(before_m, n, source, j as int),
                        factor,
                        entry(before_m, n, p, j as int),
                        updated,
                    ));
                }
                matrix[row * dimension + j] = updated;
                proof {
                    assert forall|r: int, k: int|
                        0 <= r < n && 0 <= k < n && !(r == row && c < k < j + 1) implies #[trigger] entry(
                        matrix@,
                        n,
                        r,
                        k,
                    ) == entry(row_start_m, n, r, k) by {
                        lemma_cells_distinct(r, k, row as int, j as int, n);
                        lemma_cell_in_bounds(r, k, n);
                        assert(entry(old_m, n, r, k) == entry(row_start_m, n, r, k));
                    }
                    assert forall|k: int| c < k < j + 1 implies subtracts_product(
                        *arith,
                        entry(before_m, n, source, k),
                        factor,
                        entry(before_m, n, p, k),
                        #[trigger] entry(matrix@, n, row as int, k),
                    ) by {
                        if k < j {
                            lemma_cells_distinct(row as int, k, row as int, j as int, n);
                            lemma_cell_in_bounds(row as int, k, n);
                            assert(subtracts_product(
                                *arith,
                                entry(before_m, n, source, k),
                                factor,
                                entry(before_m, n, p, k),
                                entry(old_m, n, row as int, k),
                            ));
                        }
                    }
                }
                j = j + 1;
            }
            let product = arith(ScalarOp::Mul(factor, rhs[column]));
            let updated = arith(ScalarOp::Sub(rhs[row], product));
            let ghost rhs_before = rhs@;
            rhs[row] = updated;
            proof {
                assert(rhs_before[row as int] == before_r[source]);
                assert(rhs_before[c] == before_r[p]);
                assert(computes(*arith, ScalarOp::Mul(factor, before_r[p]), product));
                assert(computes(*arith, ScalarOp::Sub(before_r[source], product), updated));
                assert(subtracts_product(*arith, before_r[source], factor, before_r[p], rhs@[row as int]));
                assert(row_eliminated(*arith, n, c, p, before_m, before_r, matrix@, rhs@, row as int));
                assert forall|r: int| c < r < row + 1 implies #[trigger] row_eliminated(
                    *arith,
                    n,
                    c,
                    p,
                    before_m,
                    before_r,
                    matrix@,
                    rhs@,
                    r,
                ) by {
                    if r < row {
                        lemma_row_eliminated_frame(
                            *arith,
                            n,
                            c,
                            p,
                            before_m,
                            before_r,
                            row_start_m,
                            rhs_before,
                            matrix@,
                            rhs@,
                            r,
                        );
                    }
                }
            }
            row = row + 1;
        }
        proof {
            assert(eliminates_column(*arith, n, c, p, before_m, before_r, matrix@, rhs@));
            let ghost previous_matrices = matrices;
            let ghost previous_rhss = rhss;
            let ghost previous_pivots = pivots;
            matrices = matrices.push(matrix@);
            rhss = rhss.push(rhs@);
            pivots = pivots.push(p);
            assert forall|k: int| 0 <= k < c + 1 implies !is_zero(
                entry(matrices[k], n, #[trigger] pivots[k], k),
            ) by {
                if k < c {
                    assert(matrices[k] == previous_matrices[k]);
                    assert(pivots[k] == previous_pivots[k]);
                } else {
                    assert(!is_zero(entry(before_m, n, p, c)));
                }
            }
            assert forall|k: int| 0 <= k < c + 1 implies #[trigger] eliminates_column(
                *arith,
                n,
                k,
                pivots[k],
                matrices[k],
                rhss[k],
                matrices[k + 1],
                rhss[k + 1],
            ) by {
                if k < c {
                    assert(matrices[k] == previous_matrices[k]);
                    assert(matrices[k + 1] == previous_matrices[k + 1]);
                    assert(rhss[k] == previous_rhss[k]);
                    assert(rhss[k + 1] == previous_rhss[k + 1]);
                    assert(pivots[k] == previous_pivots[k]);
                    assert(eliminates_column(
                        *arith,
                        n,
                        k,
                        previous_pivots[k],
                        previous_matrices[k],
                        previous_rhss[k],
                        previous_matrices[k + 1],
                        previous_rhss[k + 1],
                    ));
                } else {
                    assert(matrices[k] == before_m);
                    assert(rhss[k] == before_r);
                    assert(matrices[k + 1] == matrix@);
                    assert(rhss[k + 1] == rhs@);
                    assert(pivots[k] == p);
                }
            }
            assert(matrices[0] == m0);
            assert(rhss[0] == r0);
        }
        column = column + 1;
    }
    let ghost eliminated_matrix = matrix@;
    let ghost y = rhs@;
    let mut remaining = dimension;
    while remaining > 0
        invariant
            total(*arith),
            n == dimension,
            rhs@.len() == dimension,
            matrix@.len() == cells,
            cells == dimension * dimension,
            matrix@ == eliminated_matrix,
            y.len() == dimension,
            0 <= remaining <= dimension,
            forall|j: int| 0 <= j < remaining ==> #[trigger] rhs@[j] == y[j],
            forall|r: int|
                remaining <= r < n ==> #[trigger] row_solved(*arith, eliminated_matrix, n, y, rhs@, r),
        decreases remaining,
    {
        let row = remaining - 1;
        let mut sum = rhs[row];
        let mut column = row + 1;
        assert(upper_terms(eliminated_matrix, n, row as int, rhs@, column as int) =~= Seq::empty());
        while column < dimension
            invariant
                total(*arith),
                n == dimension,
                rhs@.len() == dimension,
                matrix@.len() == cells,
                cells == dimension * dimension,
                matrix@ == eliminated_matrix,
                0 <= row < dimension,
                row + 1 <= column <= dimension,
                subtracts_all(
                    *arith,
                    upper_terms(eliminated_matrix, n, row as int, rhs@, column as int),
                    y[row as int],
                    sum,
                ),
            decreases dimension - column,
        {
            proof {
                lemma_cell_in_bounds(row as int, column as int, dimension as int);
            }
            let product = arith(ScalarOp::Mul(matrix[row * dimension + column], rhs[column]));
            let next = arith(ScalarOp::Sub(sum, product));
            proof {
                let terms = upper_terms(eliminated_matrix, n, row as int, rhs@, column + 1);
                assert(terms.drop_last() =~= upper_terms(
                    eliminated_matrix,
                    n,
                    row as int,
                    rhs@,
                    column as int,
                ));
                assert(terms.last() == (entry(eliminated_matrix, n, row as int, column as int), rhs@[column as int]));
                assert(computes(
                    *arith,
                    ScalarOp::Mul(entry(eliminated_matrix, n, row as int, column as int), rhs@[column as int]),
                    product,
                ));
                assert(subtracts_product(*arith, sum, terms.last().0, terms.last().1, next));
            }
            sum = next;
            column = column + 1;
        }
        proof {
            lemma_cell_in_bounds(row as int, row as int, dimension as int);
        }
        let solution = arith(ScalarOp::Div(sum, matrix[row * dimension + row]));
        let ghost rhs_before = rhs@;
        rhs[row] = solution;
        proof {
            assert(computes(
                *arith,
                ScalarOp::Div(sum, entry(eliminated_matrix, n, row as int, row as int)),
                rhs@[row as int],
            ));
            assert(upper_terms(eliminated_matrix, n, row as int, rhs@, n) =~= upper_terms(
                eliminated_matrix,
                n,
                row as int,
                rhs_before,
                n,
            ));
            assert(row_solved(*arith, eliminated_matrix, n, y, rhs@, row as int));
            assert forall|r: int| row <= r < n implies #[trigger] row_solved(
                *arith,
                eliminated_matrix,
                n,
                y,
                rhs@,
                r,
            ) by {
                if r > row {
                    lemma_row_solved_frame(*arith, eliminated_matrix, n, y, rhs_before, rhs@, r);
                }
            }
        }
        remaining = row;
    }
    proof {
        assert(solution_trace(*arith, m0, r0, matrix@, rhs@, matrices, rhss, pivots));
    }
    Ok(())
}

} // verus!
