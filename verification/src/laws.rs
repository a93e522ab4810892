//! Proved algebra of the grid functions.
//!
//! Over any ring-like element type (one supporting addition, subtraction
//! and multiplication): the identity grid is neutral for the product on
//! either side, small powers unfold as expected, the determinant of the
//! identity grid is the multiplicative identity, and a grid with a zero row
//! has a zero determinant.  A one-sided inverse cancellation is proved for
//! single-cell grids.

use vstd::prelude::*;

use crate::grids::{
    det_expand, det_term, dot, grid_col, grid_det, grid_inv, grid_minor, grid_mul, grid_pow,
    grid_wf, identity_grid,
};
use crate::group::{one_elem, ring_ops, zero_elem, Group, OperationType};

verus! {

/// Over a ring-like type every value is well formed and its zero and
/// identity elements are the canonical ones.
proof fn lemma_ring_facts<T: Group>(x: T::V)
    requires
        ring_ops::<T>(),
    ensures
        T::sp_wf(x),
        T::sp_zero(x) == zero_elem::<T>(),
        T::sp_identity(OperationType::Add, x) == zero_elem::<T>(),
        T::sp_identity(OperationType::Sub, x) == zero_elem::<T>(),
        T::sp_identity(OperationType::Mul, x) == one_elem::<T>(),
    {
    T::law_total(OperationType::Mul, x, T::sp_empty());
    T::law_total(OperationType::Add, x, T::sp_empty());
    T::law_total(OperationType::Sub, x, T::sp_empty());
    T::law_total(OperationType::Add, T::sp_empty(), x);
    T::law_zero(x);
    T::law_zero(T::sp_empty());
}

/// The canonical zero is neutral for addition on either side, for
/// subtraction on the right, and absorbs under multiplication; the
/// canonical one is neutral for multiplication on either side.
proof fn lemma_elem_units<T: Group>(x: T::V)
    requires
        ring_ops::<T>(),
    ensures
        T::sp_op(OperationType::Add, x, zero_elem::<T>()) == x,
        T::sp_op(OperationType::Add, zero_elem::<T>(), x) == x,
        T::sp_op(OperationType::Sub, x, zero_elem::<T>()) == x,
        T::sp_op(OperationType::Mul, x, one_elem::<T>()) == x,
        T::sp_op(OperationType::Mul, one_elem::<T>(), x) == x,
        T::sp_op(OperationType::Mul, x, zero_elem::<T>()) == zero_elem::<T>(),
        T::sp_op(OperationType::Mul, zero_elem::<T>(), x) == zero_elem::<T>(),
{
    lemma_ring_facts::<T>(x);
    T::law_identity_right(OperationType::Add, x);
    T::law_identity_left(OperationType::Add, x);
    T::law_identity_right(OperationType::Sub, x);
    T::law_identity_right(OperationType::Mul, x);
    T::law_identity_left(OperationType::Mul, x);
    T::law_absorb(x);
    T::law_total(OperationType::Mul, x, zero_elem::<T>());
    T::law_total(OperationType::Mul, zero_elem::<T>(), x);
}

/// A dot product against a unit column: the terms before the unit index
/// sum to zero, and once the unit index is passed the sum is the matching
/// cell of `v`.
proof fn lemma_dot_unit_right<T: Group>(v: Seq<T::V>, n: int, c: int, m: int)
    requires
        ring_ops::<T>(),
        1 <= m <= n,
        0 <= c < n,
        v.len() >= n,
    ensures
        m <= c ==> dot::<T>(v, grid_col::<T>(identity_grid::<T>(n), c), m) == zero_elem::<T>(),
        m > c ==> dot::<T>(v, grid_col::<T>(identity_grid::<T>(n), c), m) == v[c],
    decreases m,
{
    let u = grid_col::<T>(identity_grid::<T>(n), c);
    assert(forall|k: int| 0 <= k < n ==> #[trigger] u[k] == (if k == c {
        one_elem::<T>()
    } else {
        zero_elem::<T>()
    }));
    if m == 1 {
        lemma_elem_units::<T>(v[0]);
    } else {
        lemma_dot_unit_right::<T>(v, n, c, m - 1);
        lemma_elem_units::<T>(v[m - 1]);
        lemma_elem_units::<T>(v[c]);
        lemma_elem_units::<T>(zero_elem::<T>());
        lemma_elem_units::<T>(dot::<T>(v, u, m - 1));
    }
}

/// A dot product of a unit row against any column: symmetric to
/// [`lemma_dot_unit_right`].
proof fn lemma_dot_unit_left<T: Group>(w: Seq<T::V>, n: int, i: int, m: int)
    requires
        ring_ops::<T>(),
        1 <= m <= n,
        0 <= i < n,
        w.len() >= n,
    ensures
        m <= i ==> dot::<T>(identity_grid::<T>(n)[i], w, m) == zero_elem::<T>(),
        m > i ==> dot::<T>(identity_grid::<T>(n)[i], w, m) == w[i],
    decreases m,
{
    let u = identity_grid::<T>(n)[i];
    assert(forall|k: int| 0 <= k < n ==> #[trigger] u[k] == (if k == i {
        one_elem::<T>()
    } else {
        zero_elem::<T>()
    }));
    if m == 1 {
        lemma_elem_units::<T>(w[0]);
    } else {
        lemma_dot_unit_left::<T>(w, n, i, m - 1);
        lemma_elem_units::<T>(w[m - 1]);
        lemma_elem_units::<T>(w[i]);
        lemma_elem_units::<T>(zero_elem::<T>());
        lemma_elem_units::<T>(dot::<T>(u, w, m - 1));
    }
}

/// Multiplying by the identity grid on the right leaves a grid unchanged.
pub proof fn lemma_mul_identity_right<T: Group>(a: Seq<Seq<T::V>>)
    requires
        ring_ops::<T>(),
        grid_wf::<T>(a),
    ensures
        grid_mul::<T>(a, identity_grid::<T>(a[0].len() as int)) == a,
{
    let n = a[0].len() as int;
    let r = grid_mul::<T>(a, identity_grid::<T>(n));
    assert forall|i: int, c: int|
        0 <= i < a.len() && 0 <= c < n implies #[trigger] r[i][c] == a[i][c] by {
        lemma_dot_unit_right::<T>(a[i], n, c, n);
    }
    assert forall|i: int| 0 <= i < a.len() implies #[trigger] r[i] == a[i] by {
        assert(r[i] =~= a[i]);
    }
    assert(r =~= a);
}

/// Multiplying by the identity grid on the left leaves a grid unchanged.
pub proof fn lemma_mul_identity_left<T: Group>(a: Seq<Seq<T::V>>)
    requires
        ring_ops::<T>(),
        grid_wf::<T>(a),
    ensures
        grid_mul::<T>(identity_grid::<T>(a.len() as int), a) == a,
{
    let n = a.len() as int;
    let idg = identity_grid::<T>(n);
    let r = grid_mul::<T>(idg, a);
    assert forall|i: int, c: int|
        0 <= i < n && 0 <= c < a[0].len() implies #[trigger] r[i][c] == a[i][c] by {
        assert forall|k: int| 0 <= k < n implies #[trigger] grid_col::<T>(a, c)[k] == a[k][c] by {
        }
        lemma_dot_unit_left::<T>(grid_col::<T>(a, c), n, i, n);
    }
    assert forall|i: int| 0 <= i < n implies #[trigger] r[i] == a[i] by {
        assert(r[i] =~= a[i]);
    }
    assert(r =~= a);
}

/// The zeroth power of a square grid is the identity grid, the first is
/// the grid itself, and the second is the grid times itself.
pub proof fn lemma_pow_small<T: Group>(a: Seq<Seq<T::V>>, n: int)
    ensures
        grid_pow::<T>(a, 0, n) == identity_grid::<T>(n),
        grid_pow::<T>(a, 1, n) == a,
        grid_pow::<T>(a, 2, n) == grid_mul::<T>(a, a),
{
    assert(grid_pow::<T>(a, 1, n) == a);
    assert(grid_pow::<T>(a, 2, n) == grid_mul::<T>(grid_pow::<T>(a, 1, n), a));
}

/// Every Laplace term of the expansion being zero makes the whole
/// alternating sum zero.
proof fn lemma_det_expand_zero<T: Group>(g: Seq<Seq<T::V>>, j: int)
    requires
        ring_ops::<T>(),
        g.len() >= 2,
        1 <= j <= g.len(),
        forall|t: int| 0 <= t < j ==> det_term::<T>(g, t) == zero_elem::<T>(),
    ensures
        det_expand::<T>(g, j) == zero_elem::<T>(),
    decreases j,
{
    if j == 1 {
        assert(det_expand::<T>(g, 1) == det_term::<T>(g, 0));
    } else {
        lemma_det_expand_zero::<T>(g, j - 1);
        lemma_elem_units::<T>(zero_elem::<T>());
        if (j - 1) % 2 == 0 {
            assert(det_expand::<T>(g, j) == T::sp_op(
                OperationType::Add,
                det_expand::<T>(g, j - 1),
                det_term::<T>(g, j - 1),
            ));
        } else {
            assert(det_expand::<T>(g, j) == T::sp_op(
                OperationType::Sub,
                det_expand::<T>(g, j - 1),
                det_term::<T>(g, j - 1),
            ));
        }
        assert(det_term::<T>(g, j - 1) == zero_elem::<T>());
    }
}

/// All Laplace terms past the first being zero leaves the alternating sum
/// at the first term.
proof fn lemma_det_expand_first<T: Group>(g: Seq<Seq<T::V>>, j: int)
    requires
        ring_ops::<T>(),
        g.len() >= 2,
        1 <= j <= g.len(),
        forall|t: int| 1 <= t < j ==> det_term::<T>(g, t) == zero_elem::<T>(),
    ensures
        det_expand::<T>(g, j) == det_term::<T>(g, 0),
    decreases j,
{
    if j == 1 {
        assert(det_expand::<T>(g, 1) == det_term::<T>(g, 0));
    } else {
        lemma_det_expand_first::<T>(g, j - 1);
        lemma_elem_units::<T>(det_expand::<T>(g, j - 1));
        if (j - 1) % 2 == 0 {
            assert(det_expand::<T>(g, j) == T::sp_op(
                OperationType::Add,
                det_expand::<T>(g, j - 1),
                det_term::<T>(g, j - 1),
            ));
        } else {
            assert(det_expand::<T>(g, j) == T::sp_op(
                OperationType::Sub,
                det_expand::<T>(g, j - 1),
                det_term::<T>(g, j - 1),
            ));
        }
        assert(det_term::<T>(g, j - 1) == zero_elem::<T>());
    }
}

/// The determinant of the identity grid is the multiplicative identity.
pub proof fn lemma_det_identity<T: Group>(n: int)
    requires
        ring_ops::<T>(),
        n >= 1,
    ensures
        grid_det::<T>(identity_grid::<T>(n)) == one_elem::<T>(),
    decreases n,
{
    let g = identity_grid::<T>(n);
    if n == 1 {
        assert(grid_det::<T>(g) == g[0][0]);
    } else {
        let m = grid_minor::<T>(g, 0, 0);
        let h = identity_grid::<T>(n - 1);
        assert forall|p: int| 0 <= p < n - 1 implies #[trigger] m[p] == h[p] by {
            assert(m[p] =~= h[p]);
        }
        assert(m =~= h);
        lemma_det_identity::<T>(n - 1);
        lemma_elem_units::<T>(one_elem::<T>());
        assert(det_term::<T>(g, 0) == one_elem::<T>());
        assert forall|t: int| 1 <= t < n implies #[trigger] det_term::<T>(g, t)
            == zero_elem::<T>() by {
            lemma_ring_facts::<T>(grid_det::<T>(grid_minor::<T>(g, 0, t)));
            lemma_elem_units::<T>(grid_det::<T>(grid_minor::<T>(g, 0, t)));
        }
        lemma_det_expand_first::<T>(g, n);
    }
}

/// A square grid with an all-zero row has a zero determinant.
pub proof fn lemma_det_zero_row<T: Group>(g: Seq<Seq<T::V>>, i: int)
    requires
        ring_ops::<T>(),
        grid_wf::<T>(g),
        g.len() == g[0].len(),
        0 <= i < g.len(),
        forall|j: int| 0 <= j < g[0].len() ==> g[i][j] == zero_elem::<T>(),
    ensures
        grid_det::<T>(g) == zero_elem::<T>(),
    decreases g.len(),
{
    let n = g.len() as int;
    if n == 1 {
        assert(grid_det::<T>(g) == g[0][0]);
    } else {
        assert forall|t: int| 0 <= t < n implies #[trigger] det_term::<T>(g, t)
            == zero_elem::<T>() by {
            let m = grid_minor::<T>(g, 0, t);
            if i == 0 {
                lemma_ring_facts::<T>(grid_det::<T>(m));
                lemma_elem_units::<T>(grid_det::<T>(m));
            } else {
                assert(grid_wf::<T>(m)) by {
                    assert forall|p: int, q: int|
                        0 <= p < m.len() && 0 <= q < m[0].len() implies T::sp_wf(
                        #[trigger] m[p][q],
                    ) by {
                        assert(m[p][q] == g[p + 1][if q < t {
                            q
                        } else {
                            q + 1
                        }]);
                    }
                }
                assert forall|q: int| 0 <= q < m[0].len() implies #[trigger] m[i - 1][q]
                    == zero_elem::<T>() by {
                    assert(m[i - 1][q] == g[i][if q < t {
                        q
                    } else {
                        q + 1
                    }]);
                }
                lemma_det_zero_row::<T>(m, i - 1);
                lemma_elem_units::<T>(g[0][t]);
            }
        }
        lemma_det_expand_zero::<T>(g, n);
    }
}

/// For a single-cell grid with a nonzero determinant, the inverse cancels
/// the grid from the left: the product of the inverse with the grid is the
/// identity grid.
pub proof fn lemma_inv_cancel_single<T: Group>(g: Seq<Seq<T::V>>)
    requires
        ring_ops::<T>(),
        T::sp_supports(OperationType::Div),
        grid_wf::<T>(g),
        g.len() == 1,
        g[0].len() == 1,
        grid_det::<T>(g) != zero_elem::<T>(),
    ensures
        grid_mul::<T>(grid_inv::<T>(g), g) == identity_grid::<T>(1),
{
    let x = g[0][0];
    let inv = grid_inv::<T>(g);
    lemma_ring_facts::<T>(x);
    lemma_ring_facts::<T>(one_elem::<T>());
    T::law_div_ok(one_elem::<T>(), x);
    T::law_div_cancel(one_elem::<T>(), x);
    let q = T::sp_op(OperationType::Div, one_elem::<T>(), x);
    assert(inv[0][0] == q);
    let r = grid_mul::<T>(inv, g);
    assert(r[0][0] == dot::<T>(inv[0], grid_col::<T>(g, 0), 1));
    assert(dot::<T>(inv[0], grid_col::<T>(g, 0), 1) == T::sp_op(OperationType::Mul, q, x));
    assert(r[0][0] == one_elem::<T>());
    assert(r[0] =~= identity_grid::<T>(1)[0]);
    assert(r =~= identity_grid::<T>(1));
}

} // verus!
