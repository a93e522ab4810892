//! Two ready-made element types.
//!
//! [`Gf2`] is the two-element field: addition and subtraction are exclusive
//! or, multiplication is conjunction, and division by the nonzero element is
//! the identity map.  Since it supports all four operation kinds it can
//! exercise every matrix algorithm, inversion included.
//!
//! [`Z64`] is the ring of integers modulo 2^64, carried by an `i64` with
//! wrapping arithmetic.  Its operations are total, so matrix sums, products
//! and determinants over it never reject a value; it has no exact division
//! and therefore does not support the division kind.

use vstd::arithmetic::div_mod::{lemma_mod_add_multiples_vanish, lemma_small_mod};
use vstd::prelude::*;
use vstd::wrapping::i64_specs;

use crate::group::{Group, Operation, OperationType};

verus! {

/// An element of the two-element field.
pub struct Gf2(pub bool);

impl View for Gf2 {
    type V = bool;

    open spec fn view(&self) -> bool {
        self.0
    }
}

impl Group for Gf2 {
    open spec fn sp_supports(k: OperationType) -> bool {
        true
    }

    open spec fn sp_wf(v: bool) -> bool {
        true
    }

    open spec fn sp_empty() -> bool {
        false
    }

    open spec fn sp_zero(v: bool) -> bool {
        false
    }

    open spec fn sp_identity(k: OperationType, v: bool) -> bool {
        match k {
            OperationType::Add => false,
            OperationType::Sub => false,
            OperationType::Mul => true,
            OperationType::Div => true,
        }
    }

    open spec fn sp_ok(k: OperationType, a: bool, b: bool) -> bool {
        match k {
            OperationType::Div => b,
            _ => true,
        }
    }

    open spec fn sp_op(k: OperationType, a: bool, b: bool) -> bool {
        match k {
            OperationType::Add => a != b,
            OperationType::Sub => a != b,
            OperationType::Mul => a && b,
            OperationType::Div => a,
        }
    }

    fn empty() -> (r: Self) {
        Gf2(false)
    }

    fn zero(&self) -> (r: Self) {
        Gf2(false)
    }

    fn dup(&self) -> (r: Self) {
        Gf2(self.0)
    }

    fn is_zero(&self) -> (r: bool) {
        !self.0
    }

    fn same(&self, other: &Self) -> (r: bool) {
        self.0 == other.0
    }

    fn supports(k: OperationType) -> (r: bool) {
        true
    }

    fn compat(k: OperationType, a: &Self, b: &Self) -> (r: bool) {
        match k {
            OperationType::Div => b.0,
            _ => true,
        }
    }

    fn op(k: OperationType, a: &Self, b: &Self) -> (r: Self) {
        match k {
            OperationType::Add => Gf2(a.0 ^ b.0),
            OperationType::Sub => Gf2(a.0 ^ b.0),
            OperationType::Mul => Gf2(a.0 && b.0),
            OperationType::Div => Gf2(a.0),
        }
    }

    fn identity(&self, k: OperationType) -> (r: Option<Self>) {
        match k {
            OperationType::Add => Some(Gf2(false)),
            OperationType::Sub => Some(Gf2(false)),
            OperationType::Mul => Some(Gf2(true)),
            OperationType::Div => Some(Gf2(true)),
        }
    }

    fn operation(&self, k: OperationType) -> (r: Option<Operation<Self>>) {
        match k {
            OperationType::Add => Some(Operation::Closed(Gf2(false))),
            OperationType::Sub => Some(Operation::Closed(Gf2(false))),
            OperationType::Mul => Some(Operation::Closed(Gf2(true))),
            OperationType::Div => Some(Operation::Closed(Gf2(true))),
        }
    }

    proof fn law_identity_compat(k: OperationType, a: bool) {
    }

    proof fn law_op_wf(k: OperationType, a: bool, b: bool) {
    }

    proof fn law_identity_right(k: OperationType, a: bool) {
    }

    proof fn law_identity_left(k: OperationType, a: bool) {
    }

    proof fn law_zero(a: bool) {
    }

    proof fn law_absorb(a: bool) {
    }

    proof fn law_add_comm(a: bool, b: bool) {
    }

    proof fn law_add_assoc(a: bool, b: bool, c: bool) {
    }

    proof fn law_div_ok(a: bool, b: bool) {
    }

    proof fn law_div_cancel(a: bool, b: bool) {
    }

    proof fn law_total(k: OperationType, a: bool, b: bool) {
    }
}

/// An integer modulo 2^64, represented by the `i64` of the same residue.
pub struct Z64(pub i64);

impl View for Z64 {
    type V = i64;

    open spec fn view(&self) -> i64 {
        self.0
    }
}

/// Reducing an in-range value modulo 2^64 gives the value back.
proof fn lemma_crop_in_range(a: i64)
    ensures
        i64_specs::signed_crop(a as int) == a,
{
    let r: int = 0x1_0000_0000_0000_0000;
    if a >= 0 {
        lemma_small_mod(a as nat, r as nat);
    } else {
        lemma_mod_add_multiples_vanish(a as int, r);
        lemma_small_mod((a + r) as nat, r as nat);
    }
}

impl Group for Z64 {
    open spec fn sp_supports(k: OperationType) -> bool {
        k != OperationType::Div
    }

    open spec fn sp_wf(v: i64) -> bool {
        true
    }

    open spec fn sp_empty() -> i64 {
        0
    }

    open spec fn sp_zero(v: i64) -> i64 {
        0
    }

    open spec fn sp_identity(k: OperationType, v: i64) -> i64 {
        match k {
            OperationType::Mul => 1,
            _ => 0,
        }
    }

    open spec fn sp_ok(k: OperationType, a: i64, b: i64) -> bool {
        true
    }

    open spec fn sp_op(k: OperationType, a: i64, b: i64) -> i64 {
        match k {
            OperationType::Add => i64_specs::wrapping_add(a, b),
            OperationType::Sub => i64_specs::wrapping_sub(a, b),
            OperationType::Mul => i64_specs::wrapping_mul(a, b),
            OperationType::Div => a,
        }
    }

    fn empty() -> (r: Self) {
        Z64(0)
    }

    fn zero(&self) -> (r: Self) {
        Z64(0)
    }

    fn dup(&self) -> (r: Self) {
        Z64(self.0)
    }

    fn is_zero(&self) -> (r: bool) {
        self.0 == 0
    }

    fn same(&self, other: &Self) -> (r: bool) {
        self.0 == other.0
    }

    fn supports(k: OperationType) -> (r: bool) {
        match k {
            OperationType::Div => false,
            _ => true,
        }
    }

    fn compat(k: OperationType, a: &Self, b: &Self) -> (r: bool) {
        true
    }

    fn op(k: OperationType, a: &Self, b: &Self) -> (r: Self) {
        match k {
            OperationType::Add => Z64(a.0.wrapping_add(b.0)),
            OperationType::Sub => Z64(a.0.wrapping_sub(b.0)),
            OperationType::Mul => Z64(a.0.wrapping_mul(b.0)),
            OperationType::Div => vstd::pervasive::unreached(),
        }
    }

    fn identity(&self, k: OperationType) -> (r: Option<Self>) {
        match k {
            OperationType::Add => Some(Z64(0)),
            OperationType::Sub => Some(Z64(0)),
            OperationType::Mul => Some(Z64(1)),
            OperationType::Div => None,
        }
    }

    fn operation(&self, k: OperationType) -> (r: Option<Operation<Self>>) {
        match k {
            OperationType::Add => Some(Operation::Closed(Z64(0))),
            OperationType::Sub => Some(Operation::Closed(Z64(0))),
            OperationType::Mul => Some(Operation::Closed(Z64(1))),
            OperationType::Div => None,
        }
    }

    proof fn law_identity_compat(k: OperationType, a: i64) {
    }

    proof fn law_op_wf(k: OperationType, a: i64, b: i64) {
    }

    proof fn law_identity_right(k: OperationType, a: i64) {
        if k == OperationType::Mul {
            assert(a as int * 1 == a as int);
            lemma_crop_in_range(a);
        }
    }

    proof fn law_identity_left(k: OperationType, a: i64) {
        if k == OperationType::Mul {
            assert(1 * (a as int) == a as int);
            lemma_crop_in_range(a);
        }
    }

    proof fn law_zero(a: i64) {
    }

    proof fn law_absorb(a: i64) {
        assert(a as int * 0 == 0);
        assert(0 * (a as int) == 0);
        lemma_crop_in_range(0);
    }

    proof fn law_add_comm(a: i64, b: i64) {
    }

    proof fn law_add_assoc(a: i64, b: i64, c: i64) {
    }

    proof fn law_div_ok(a: i64, b: i64) {
    }

    proof fn law_div_cancel(a: i64, b: i64) {
    }

    proof fn law_total(k: OperationType, a: i64, b: i64) {
    }
}

} // verus!
