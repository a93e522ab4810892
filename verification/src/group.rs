//! The group capability interface.
//!
//! A [`Group`] is a loose notion of an algebraic structure: a type declares
//! which of the four operation kinds it supports, and exposes the identity
//! element of each supported kind.  Generic algorithms (notably the matrix
//! engine) look operations up by [`OperationType`] instead of depending on
//! concrete operator traits, so any element type — including a matrix of
//! elements — can flow through the same machinery.
//!
//! Every claim an algorithm needs about an implementation is a proof
//! obligation of the trait (the `law_*` members), so a malformed
//! implementation — one whose advertised identities are not identities, say —
//! is rejected by the verifier rather than tolerated at run time.

use vstd::prelude::*;

verus! {

/// The four operation kinds a [`Group`] may support.
#[derive(Clone, Copy, Debug, Hash, PartialEq, Eq, Structural)]
pub enum OperationType {
    Add,
    Sub,
    Mul,
    Div,
}

/// The description of one supported operation, as handed out by
/// [`Group::operation`]: the identity element of the operation, tagged by
/// whether the operation is closed.
///
/// A `Closed` operation stays within the element type (adding two elements
/// yields an element).  An `Open` operation may leave it (a reduction over a
/// structured type can yield a value of another shape); the distinction is
/// part of the capability contract so that callers know whether they may feed
/// the result back into the same machinery.
pub enum Operation<T> {
    /// The operation's result has the operand type; the payload is the
    /// operation's identity element.
    Closed(T),
    /// The operation's result may have another type; the payload is still the
    /// operation's identity element within `T`.
    Open(T),
}

/// The identity element recorded in an operation descriptor.
pub open spec fn operation_identity<T>(o: Operation<T>) -> T {
    match o {
        Operation::Closed(e) => e,
        Operation::Open(e) => e,
    }
}

/// A type with named binary operations and per-operation identity elements.
///
/// Contracts are stated over the mathematical model `Self::V` given by the
/// `View` of a value.  `sp_wf` restricts the models the laws speak about
/// (a matrix model must be rectangular); `sp_ok` says when a pair of operands
/// is acceptable to an operation (matrices must agree in size, a divisor must
/// not be the zero element).
pub trait Group: View + Sized {
    /// Whether the operation kind `k` is defined for this type.
    spec fn sp_supports(k: OperationType) -> bool;

    /// Which models the laws quantify over.
    spec fn sp_wf(v: Self::V) -> bool;

    /// The model of the canonical instance returned by [`Group::empty`].
    spec fn sp_empty() -> Self::V;

    /// The additive identity matching the shape of `v`; it also absorbs
    /// under multiplication (see [`Group::law_absorb`]).
    spec fn sp_zero(v: Self::V) -> Self::V;

    /// The identity element of operation `k`, matching the shape of `v`.
    /// Meaningful only when `k` is supported.
    spec fn sp_identity(k: OperationType, v: Self::V) -> Self::V;

    /// When the operands `a`, `b` are acceptable to operation `k`.
    spec fn sp_ok(k: OperationType, a: Self::V, b: Self::V) -> bool;

    /// The result of operation `k` on `a` and `b`.  Meaningful only when `k`
    /// is supported and `sp_ok(k, a, b)` holds.
    spec fn sp_op(k: OperationType, a: Self::V, b: Self::V) -> Self::V;

    /// A canonical instance used purely as a receiver for metadata queries
    /// such as [`Group::identity`]; it need not be numerically meaningful.
    fn empty() -> (r: Self)
        ensures
            r@ == Self::sp_empty(),
            Self::sp_wf(r@),
    ;

    /// The additive-identity element shaped like `self`.
    fn zero(&self) -> (r: Self)
        requires
            Self::sp_wf(self@),
        ensures
            r@ == Self::sp_zero(self@),
            Self::sp_wf(r@),
    ;

    /// An independent copy of `self`.
    fn dup(&self) -> (r: Self)
        requires
            Self::sp_wf(self@),
        ensures
            r@ == self@,
    ;

    /// Whether `self` is its own additive identity.
    fn is_zero(&self) -> (r: bool)
        requires
            Self::sp_wf(self@),
        ensures
            r == (self@ == Self::sp_zero(self@)),
    ;

    /// Whether `self` and `other` have the same model.
    fn same(&self, other: &Self) -> (r: bool)
        requires
            Self::sp_wf(self@),
            Self::sp_wf(other@),
        ensures
            r == (self@ == other@),
    ;

    /// Whether operation kind `k` is defined for this type.
    fn supports(k: OperationType) -> (r: bool)
        ensures
            r == Self::sp_supports(k),
    ;

    /// Whether `a` and `b` are acceptable operands for `k`.
    fn compat(k: OperationType, a: &Self, b: &Self) -> (r: bool)
        requires
            Self::sp_supports(k),
            Self::sp_wf(a@),
            Self::sp_wf(b@),
        ensures
            r == Self::sp_ok(k, a@, b@),
    ;

    /// Apply operation `k` to `a` and `b`.
    fn op(k: OperationType, a: &Self, b: &Self) -> (r: Self)
        requires
            Self::sp_supports(k),
            Self::sp_wf(a@),
            Self::sp_wf(b@),
            Self::sp_ok(k, a@, b@),
        ensures
            r@ == Self::sp_op(k, a@, b@),
            Self::sp_wf(r@),
    ;

    /// The identity element for `k` shaped like `self`, or `None` when `k`
    /// is unsupported.
    fn identity(&self, k: OperationType) -> (r: Option<Self>)
        requires
            Self::sp_wf(self@),
        ensures
            (r is Some) == Self::sp_supports(k),
            r is Some ==> r->Some_0@ == Self::sp_identity(k, self@) && Self::sp_wf(r->Some_0@),
    ;

    /// The descriptor of operation `k` — its identity element, tagged closed
    /// or open — or `None` when `k` is unsupported.  The identity it reports
    /// agrees with [`Group::identity`].
    fn operation(&self, k: OperationType) -> (r: Option<Operation<Self>>)
        requires
            Self::sp_wf(self@),
        ensures
            (r is Some) == Self::sp_supports(k),
            r is Some ==> operation_identity(r->Some_0)@ == Self::sp_identity(k, self@),
    ;

    /// Identities and zeros are well formed and acceptable next to the
    /// elements they are shaped after.
    proof fn law_identity_compat(k: OperationType, a: Self::V)
        requires
            Self::sp_supports(k),
            Self::sp_wf(a),
        ensures
            Self::sp_wf(Self::sp_identity(k, a)),
            Self::sp_ok(k, a, Self::sp_identity(k, a)),
            k != OperationType::Div ==> Self::sp_ok(k, Self::sp_identity(k, a), a),
    ;

    /// Operations are closed over well-formed values.
    proof fn law_op_wf(k: OperationType, a: Self::V, b: Self::V)
        requires
            Self::sp_supports(k),
            Self::sp_wf(a),
            Self::sp_wf(b),
            Self::sp_ok(k, a, b),
        ensures
            Self::sp_wf(Self::sp_op(k, a, b)),
    ;

    /// The advertised identity is a right identity of its operation.
    proof fn law_identity_right(k: OperationType, a: Self::V)
        requires
            Self::sp_supports(k),
            Self::sp_wf(a),
        ensures
            Self::sp_op(k, a, Self::sp_identity(k, a)) == a,
    ;

    /// For the symmetric kinds the identity is a left identity as well.
    proof fn law_identity_left(k: OperationType, a: Self::V)
        requires
            Self::sp_supports(k),
            Self::sp_wf(a),
            k == OperationType::Add || k == OperationType::Mul,
        ensures
            Self::sp_op(k, Self::sp_identity(k, a), a) == a,
    ;

    /// The zero element is exactly the identity of addition (and of
    /// subtraction, on its right), and is well formed.
    proof fn law_zero(a: Self::V)
        requires
            Self::sp_wf(a),
        ensures
            Self::sp_wf(Self::sp_zero(a)),
            Self::sp_supports(OperationType::Add) ==> Self::sp_identity(OperationType::Add, a)
                == Self::sp_zero(a),
            Self::sp_supports(OperationType::Sub) ==> Self::sp_identity(OperationType::Sub, a)
                == Self::sp_zero(a),
    ;

    /// The zero element absorbs under multiplication from either side.
    proof fn law_absorb(a: Self::V)
        requires
            Self::sp_supports(OperationType::Mul),
            Self::sp_wf(a),
        ensures
            Self::sp_ok(OperationType::Mul, a, Self::sp_zero(a)) ==> Self::sp_op(
                OperationType::Mul,
                a,
                Self::sp_zero(a),
            ) == Self::sp_zero(a),
            Self::sp_ok(OperationType::Mul, Self::sp_zero(a), a) ==> Self::sp_op(
                OperationType::Mul,
                Self::sp_zero(a),
                a,
            ) == Self::sp_zero(a),
    ;

    /// Addition is commutative.
    proof fn law_add_comm(a: Self::V, b: Self::V)
        requires
            Self::sp_supports(OperationType::Add),
            Self::sp_wf(a),
            Self::sp_wf(b),
            Self::sp_ok(OperationType::Add, a, b),
        ensures
            Self::sp_ok(OperationType::Add, b, a),
            Self::sp_op(OperationType::Add, a, b) == Self::sp_op(OperationType::Add, b, a),
    ;

    /// Addition is associative, and sums remain acceptable operands.
    proof fn law_add_assoc(a: Self::V, b: Self::V, c: Self::V)
        requires
            Self::sp_supports(OperationType::Add),
            Self::sp_wf(a),
            Self::sp_wf(b),
            Self::sp_wf(c),
            Self::sp_ok(OperationType::Add, a, b),
            Self::sp_ok(OperationType::Add, b, c),
            Self::sp_ok(OperationType::Add, a, c),
        ensures
            Self::sp_ok(OperationType::Add, Self::sp_op(OperationType::Add, a, b), c),
            Self::sp_ok(OperationType::Add, a, Self::sp_op(OperationType::Add, b, c)),
            Self::sp_op(OperationType::Add, Self::sp_op(OperationType::Add, a, b), c)
                == Self::sp_op(OperationType::Add, a, Self::sp_op(OperationType::Add, b, c)),
    ;

    /// Division accepts every divisor other than its zero.
    proof fn law_div_ok(a: Self::V, b: Self::V)
        requires
            Self::sp_supports(OperationType::Div),
            Self::sp_wf(a),
            Self::sp_wf(b),
            b != Self::sp_zero(b),
        ensures
            Self::sp_ok(OperationType::Div, a, b),
    ;

    /// Division is exact: multiplying a quotient back by the divisor
    /// restores the dividend.
    proof fn law_div_cancel(a: Self::V, b: Self::V)
        requires
            Self::sp_supports(OperationType::Div),
            Self::sp_supports(OperationType::Mul),
            Self::sp_wf(a),
            Self::sp_wf(b),
            Self::sp_ok(OperationType::Div, a, b),
        ensures
            Self::sp_wf(Self::sp_op(OperationType::Div, a, b)),
            Self::sp_ok(OperationType::Mul, Self::sp_op(OperationType::Div, a, b), b),
            Self::sp_op(OperationType::Mul, Self::sp_op(OperationType::Div, a, b), b) == a,
    ;

    /// A type that supports both addition and multiplication behaves like a
    /// scalar: every value is well formed, every pair of values is acceptable
    /// to the supported symmetric operations, and zeros and identities do not
    /// depend on the value they are shaped after.
    proof fn law_total(k: OperationType, a: Self::V, b: Self::V)
        requires
            Self::sp_supports(OperationType::Add),
            Self::sp_supports(OperationType::Mul),
        ensures
            Self::sp_wf(a),
            Self::sp_ok(OperationType::Add, a, b),
            Self::sp_ok(OperationType::Mul, a, b),
            Self::sp_supports(OperationType::Sub) ==> Self::sp_ok(OperationType::Sub, a, b),
            Self::sp_zero(a) == Self::sp_zero(b),
            Self::sp_identity(k, a) == Self::sp_identity(k, b),
    ;
}

/// Whether `T` offers the three operations the matrix algorithms for
/// products, determinants and powers lean on.
pub open spec fn ring_ops<T: Group>() -> bool {
    &&& T::sp_supports(OperationType::Add)
    &&& T::sp_supports(OperationType::Sub)
    &&& T::sp_supports(OperationType::Mul)
}

/// The canonical zero of a scalar-like type: the zero shaped after the
/// canonical instance.
pub open spec fn zero_elem<T: Group>() -> T::V {
    T::sp_zero(T::sp_empty())
}

/// The canonical multiplicative identity of a scalar-like type.
pub open spec fn one_elem<T: Group>() -> T::V {
    T::sp_identity(OperationType::Mul, T::sp_empty())
}

/// The canonical additive identity of a scalar-like type.
pub open spec fn add_ident_elem<T: Group>() -> T::V {
    T::sp_identity(OperationType::Add, T::sp_empty())
}

} // verus!
