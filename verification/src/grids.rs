//! Spec-level grid algebra.
//!
//! The matrix engine's contracts are stated over these functions on
//! `Seq<Seq<T::V>>`: cell-wise combination, the inner-dimension product,
//! identity grids, Laplace determinants, powers and the adjugate inverse.

use vstd::prelude::*;

use crate::group::{add_ident_elem, one_elem, zero_elem, Group, OperationType};

verus! {

/// A model grid that the matrix algorithms accept: non-empty, rectangular,
/// with well-formed cells.
pub open spec fn grid_wf<T: Group>(g: Seq<Seq<T::V>>) -> bool {
    &&& g.len() >= 1
    &&& g[0].len() >= 1
    &&& forall|i: int| 0 <= i < g.len() ==> (#[trigger] g[i]).len() == g[0].len()
    &&& forall|i: int, j: int|
        0 <= i < g.len() && 0 <= j < g[0].len() ==> T::sp_wf(#[trigger] g[i][j])
}

/// Cell-wise application of an operation kind to two grids of one shape.
pub open spec fn grid_map2<T: Group>(
    k: OperationType,
    a: Seq<Seq<T::V>>,
    b: Seq<Seq<T::V>>,
) -> Seq<Seq<T::V>> {
    Seq::new(a.len(), |i: int| Seq::new(a[0].len(), |j: int| T::sp_op(k, a[i][j], b[i][j])))
}

/// Whether two grids may be combined cell by cell under `k`.
pub open spec fn grid_compat<T: Group>(
    k: OperationType,
    a: Seq<Seq<T::V>>,
    b: Seq<Seq<T::V>>,
) -> bool {
    &&& grid_wf::<T>(a)
    &&& grid_wf::<T>(b)
    &&& a.len() == b.len()
    &&& a[0].len() == b[0].len()
    &&& forall|i: int, j: int|
        0 <= i < a.len() && 0 <= j < a[0].len() ==> T::sp_ok(k, #[trigger] a[i][j], b[i][j])
}

/// Column `j` of a grid, as a sequence.
pub open spec fn grid_col<T: Group>(g: Seq<Seq<T::V>>, j: int) -> Seq<T::V> {
    Seq::new(g.len(), |i: int| g[i][j])
}

/// The sum of `a[i] * b[i]` over `0 <= i < n`, accumulated from the first
/// term; no zero seeds the summation.
pub open spec fn dot<T: Group>(a: Seq<T::V>, b: Seq<T::V>, n: int) -> T::V
    decreases n,
{
    if n <= 1 {
        T::sp_op(OperationType::Mul, a[0], b[0])
    } else {
        T::sp_op(
            OperationType::Add,
            dot::<T>(a, b, n - 1),
            T::sp_op(OperationType::Mul, a[n - 1], b[n - 1]),
        )
    }
}

/// The inner-dimension product of two grids: cell `(i, j)` is the dot
/// product of row `i` of `a` with column `j` of `b`.
pub open spec fn grid_mul<T: Group>(a: Seq<Seq<T::V>>, b: Seq<Seq<T::V>>) -> Seq<Seq<T::V>> {
    Seq::new(
        a.len(),
        |i: int| Seq::new(b[0].len(), |j: int| dot::<T>(a[i], grid_col::<T>(b, j), a[0].len() as int)),
    )
}

/// The `n x n` multiplicative-identity grid: canonical one on the diagonal,
/// canonical zero elsewhere.
pub open spec fn identity_grid<T: Group>(n: int) -> Seq<Seq<T::V>> {
    Seq::new(
        n as nat,
        |i: int| Seq::new(n as nat, |j: int| if i == j { one_elem::<T>() } else { zero_elem::<T>() }),
    )
}

/// The `r x c` grid holding the element type's additive identity in every
/// cell.
pub open spec fn add_identity_grid<T: Group>(r: int, c: int) -> Seq<Seq<T::V>> {
    Seq::new(r as nat, |i: int| Seq::new(c as nat, |j: int| add_ident_elem::<T>()))
}

/// The grid with row `i` and column `j` removed.
pub open spec fn grid_minor<T: Group>(g: Seq<Seq<T::V>>, i: int, j: int) -> Seq<Seq<T::V>> {
    Seq::new(
        (g.len() - 1) as nat,
        |p: int|
            Seq::new(
                (g[0].len() - 1) as nat,
                |q: int| g[if p < i { p } else { p + 1 }][if q < j { q } else { q + 1 }],
            ),
    )
}

/// Term `j` of the Laplace expansion of `g` along its first row: the cell
/// `g[0][j]` times the determinant of its minor.
pub open spec fn det_term<T: Group>(g: Seq<Seq<T::V>>, j: int) -> T::V
    decreases g.len(), 0int when g.len() >= 2
{
    T::sp_op(OperationType::Mul, g[0][j], grid_det::<T>(grid_minor::<T>(g, 0, j)))
}

/// The alternating sum of the first `j` Laplace terms, accumulated from the
/// first term: terms with even index are added, terms with odd index are
/// subtracted.
pub open spec fn det_expand<T: Group>(g: Seq<Seq<T::V>>, j: int) -> T::V
    decreases g.len(), j when g.len() >= 2 && j >= 1
{
    if j <= 1 {
        det_term::<T>(g, 0)
    } else {
        if (j - 1) % 2 == 0 {
            T::sp_op(OperationType::Add, det_expand::<T>(g, j - 1), det_term::<T>(g, j - 1))
        } else {
            T::sp_op(OperationType::Sub, det_expand::<T>(g, j - 1), det_term::<T>(g, j - 1))
        }
    }
}

/// The determinant of a square grid: the single cell of a `1 x 1` grid, and
/// otherwise the cofactor expansion along the first row.
pub open spec fn grid_det<T: Group>(g: Seq<Seq<T::V>>) -> T::V
    decreases g.len(), g.len() + 1,
{
    if g.len() <= 1 {
        g[0][0]
    } else {
        det_expand::<T>(g, g.len() as int)
    }
}

/// The cofactor of cell `(i, j)` of a square grid: the signed determinant of
/// the minor, where an odd `i + j` negates by subtraction from the zero
/// element.  For a `1 x 1` grid the cofactor is the canonical one.
pub open spec fn grid_cofactor<T: Group>(g: Seq<Seq<T::V>>, i: int, j: int) -> T::V {
    if g.len() == 1 {
        one_elem::<T>()
    } else {
        if (i + j) % 2 == 0 {
            grid_det::<T>(grid_minor::<T>(g, i, j))
        } else {
            T::sp_op(OperationType::Sub, zero_elem::<T>(), grid_det::<T>(grid_minor::<T>(g, i, j)))
        }
    }
}

/// The adjugate-over-determinant inverse of a square grid: cell `(i, j)` is
/// the cofactor of `(j, i)` divided by the determinant.
pub open spec fn grid_inv<T: Group>(g: Seq<Seq<T::V>>) -> Seq<Seq<T::V>> {
    Seq::new(
        g.len(),
        |i: int|
            Seq::new(
                g.len(),
                |j: int|
                    T::sp_op(OperationType::Div, grid_cofactor::<T>(g, j, i), grid_det::<T>(g)),
            ),
    )
}

/// The `e`-th power of a square grid of side `n`, by repeated
/// multiplication: the zeroth power is the identity grid, the first is the
/// grid itself, and each further power multiplies by `g` once more.
pub open spec fn grid_pow<T: Group>(g: Seq<Seq<T::V>>, e: nat, n: int) -> Seq<Seq<T::V>>
    decreases e,
{
    if e == 0 {
        identity_grid::<T>(n)
    } else if e == 1 {
        g
    } else {
        grid_mul::<T>(grid_pow::<T>(g, (e - 1) as nat, n), g)
    }
}

} // verus!
