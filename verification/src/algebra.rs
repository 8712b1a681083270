//! The arithmetic of the scalar field, as functions on natural numbers.

use vstd::arithmetic::div_mod::lemma_add_mod_noop;
use vstd::arithmetic::div_mod::lemma_mul_mod_noop_general;
use vstd::arithmetic::div_mod::lemma_small_mod;
use vstd::arithmetic::div_mod::lemma_sub_mod_noop;
use vstd::prelude::*;

verus! {

/// The order of the scalar field of BLS12-377, a prime of 253 bits.
pub open spec fn modulus() -> nat {
    8444461749428370424248824938781546531375899335154063827935233455917409239041nat
}

/// Whether `a` is the canonical representative of a field element.
pub open spec fn canonical(a: nat) -> bool {
    a < modulus()
}

/// Sum in the field.
#[verifier::opaque]
pub open spec fn f_add(a: nat, b: nat) -> nat {
    (a + b) % modulus()
}

/// Difference in the field.
#[verifier::opaque]
pub open spec fn f_sub(a: nat, b: nat) -> nat {
    ((a as int - b as int) % (modulus() as int)) as nat
}

/// Additive inverse in the field.
pub open spec fn f_neg(a: nat) -> nat {
    f_sub(0, a)
}

/// Product in the field.
#[verifier::opaque]
pub open spec fn f_mul(a: nat, b: nat) -> nat {
    (a * b) % modulus()
}

/// Whether `b` is the multiplicative inverse of `a`.
pub open spec fn is_inverse(a: nat, b: nat) -> bool {
    canonical(b) && f_mul(a, b) == 1
}

/// The multiplicative inverse of `a`, where one exists.
pub open spec fn f_inv(a: nat) -> nat {
    choose|b: nat| is_inverse(a, b)
}

/// Two integers that leave the same remainder.
pub open spec fn congruent(a: int, b: int) -> bool {
    a % (modulus() as int) == b % (modulus() as int)
}

/// Each field operation yields the canonical value that is congruent to the
/// integer operation it stands for.
pub proof fn lemma_ops_congruent(a: nat, b: nat)
    ensures
        congruent(f_add(a, b) as int, (a + b) as int),
        congruent(f_sub(a, b) as int, a - b),
        congruent(f_neg(a) as int, -(a as int)),
        congruent(f_mul(a, b) as int, (a * b) as int),
        canonical(f_add(a, b)),
        canonical(f_sub(a, b)),
        canonical(f_neg(a)),
        canonical(f_mul(a, b)),
{
    reveal(f_add);
    reveal(f_sub);
    reveal(f_mul);
    let m = modulus() as int;
    vstd::arithmetic::div_mod::lemma_mod_twice((a + b) as int, m);
    vstd::arithmetic::div_mod::lemma_mod_twice(a - b, m);
    vstd::arithmetic::div_mod::lemma_mod_twice(0 - a, m);
    vstd::arithmetic::div_mod::lemma_mod_twice((a * b) as int, m);
}

/// Congruence is kept by sums, differences and products.
pub proof fn lemma_congruent_ops(a: int, a2: int, b: int, b2: int)
    requires
        congruent(a, a2),
        congruent(b, b2),
    ensures
        congruent(a + b, a2 + b2),
        congruent(a - b, a2 - b2),
        congruent(a * b, a2 * b2),
{
    let m = modulus() as int;
    lemma_add_mod_noop(a, b, m);
    lemma_add_mod_noop(a2, b2, m);
    lemma_sub_mod_noop(a, b, m);
    lemma_sub_mod_noop(a2, b2, m);
    lemma_mul_mod_noop_general(a, b, m);
    lemma_mul_mod_noop_general(a2, b2, m);
}

/// Two canonical values that are congruent are equal.
pub proof fn lemma_congruent_canonical(a: nat, b: nat)
    requires
        canonical(a),
        canonical(b),
        congruent(a as int, b as int),
    ensures
        a == b,
{
    lemma_small_mod(a, modulus());
    lemma_small_mod(b, modulus());
}

/// An element has at most one inverse.
pub proof fn lemma_inverse_unique(a: nat, x: nat, y: nat)
    requires
        is_inverse(a, x),
        is_inverse(a, y),
    ensures
        x == y,
{
    reveal(f_mul);
    let m = modulus() as int;
    let ax = (a * x) as int;
    let ay = (a * y) as int;
    // x = x * (a * y) = (a * x) * y = y, modulo the field order
    lemma_mul_mod_noop_general(x as int, ay, m);
    lemma_mul_mod_noop_general(ax, y as int, m);
    assert(x * ay == ax * y) by (nonlinear_arith)
        requires
            ax == a * x,
            ay == a * y,
    ;
    lemma_small_mod(x, modulus());
    lemma_small_mod(y, modulus());
    assert(ay % m == 1);
    assert(ax % m == 1);
    assert((x as int % m) * (ay % m) == x);
    assert((ax % m) * (y as int % m) == y);
}

/// Addition and multiplication in the field are commutative.
pub proof fn lemma_commutative(a: nat, b: nat)
    ensures
        f_add(a, b) == f_add(b, a),
        f_mul(a, b) == f_mul(b, a),
{
    reveal(f_add);
    reveal(f_mul);
    assert(a * b == b * a) by (nonlinear_arith);
}

/// The constants 0 and 1 are neutral, and twice a value is the value added
/// to itself.
pub proof fn lemma_neutral(a: nat)
    requires
        canonical(a),
    ensures
        f_add(a, 0) == a,
        f_add(0, a) == a,
        f_mul(a, 1) == a,
        f_mul(1, a) == a,
        f_mul(a, 2) == f_add(a, a),
{
    reveal(f_add);
    reveal(f_mul);
    lemma_small_mod(a, modulus());
    assert(a * 1 == a) by (nonlinear_arith);
    assert(1 * a == a) by (nonlinear_arith);
    assert(a * 2 == a + a) by (nonlinear_arith);
}


/// A field sum is congruent to the sum of what its operands are congruent to.
pub proof fn lemma_add_congruent(a: nat, b: nat, ia: int, ib: int)
    requires
        congruent(a as int, ia),
        congruent(b as int, ib),
    ensures
        congruent(f_add(a, b) as int, ia + ib),
        canonical(f_add(a, b)),
{
    lemma_ops_congruent(a, b);
    lemma_congruent_ops(a as int, ia, b as int, ib);
}

/// A field difference is congruent to the difference of what its operands
/// are congruent to.
pub proof fn lemma_sub_congruent(a: nat, b: nat, ia: int, ib: int)
    requires
        congruent(a as int, ia),
        congruent(b as int, ib),
    ensures
        congruent(f_sub(a, b) as int, ia - ib),
        canonical(f_sub(a, b)),
{
    lemma_ops_congruent(a, b);
    lemma_congruent_ops(a as int, ia, b as int, ib);
}

/// A field product is congruent to the product of what its operands are
/// congruent to.
pub proof fn lemma_mul_congruent(a: nat, b: nat, ia: int, ib: int)
    requires
        congruent(a as int, ia),
        congruent(b as int, ib),
    ensures
        congruent(f_mul(a, b) as int, ia * ib),
        canonical(f_mul(a, b)),
{
    lemma_ops_congruent(a, b);
    lemma_congruent_ops(a as int, ia, b as int, ib);
}

/// A field negation is congruent to the negation of what its operand is
/// congruent to.
pub proof fn lemma_neg_congruent(a: nat, ia: int)
    requires
        congruent(a as int, ia),
    ensures
        congruent(f_neg(a) as int, -ia),
        canonical(f_neg(a)),
{
    lemma_sub_congruent(0, a, 0, ia);
}

/// Two field values that are congruent to the same integer are equal if
/// both are results of field operations, or canonical for another reason.
pub proof fn lemma_congruent_equal(a: nat, b: nat, i: int)
    requires
        canonical(a),
        canonical(b),
        congruent(a as int, i),
        congruent(b as int, i),
    ensures
        a == b,
{
    lemma_congruent_canonical(a, b);
}


/// Multiplication distributes over addition.
pub proof fn lemma_distributive(a: nat, b: nat, k: nat)
    ensures
        f_add(f_mul(a, k), f_mul(b, k)) == f_mul(f_add(a, b), k),
{
    let (ia, ib, ik) = (a as int, b as int, k as int);
    lemma_mul_congruent(a, k, ia, ik);
    lemma_mul_congruent(b, k, ib, ik);
    lemma_add_congruent(f_mul(a, k), f_mul(b, k), ia * ik, ib * ik);
    lemma_add_congruent(a, b, ia, ib);
    lemma_mul_congruent(f_add(a, b), k, ia + ib, ik);
    assert(ia * ik + ib * ik == (ia + ib) * ik) by (nonlinear_arith);
    lemma_congruent_equal(f_add(f_mul(a, k), f_mul(b, k)), f_mul(f_add(a, b), k), (ia + ib) * ik);
}

/// Multiplication is associative.
pub proof fn lemma_associative(a: nat, b: nat, c: nat)
    ensures
        f_mul(f_mul(a, b), c) == f_mul(a, f_mul(b, c)),
{
    let (ia, ib, ic) = (a as int, b as int, c as int);
    lemma_mul_congruent(a, b, ia, ib);
    lemma_mul_congruent(f_mul(a, b), c, ia * ib, ic);
    lemma_mul_congruent(b, c, ib, ic);
    lemma_mul_congruent(a, f_mul(b, c), ia, ib * ic);
    assert((ia * ib) * ic == ia * (ib * ic)) by (nonlinear_arith);
    lemma_congruent_equal(f_mul(f_mul(a, b), c), f_mul(a, f_mul(b, c)), ia * (ib * ic));
}

/// The factors of a product of two products can be paired the other way.
pub proof fn lemma_regroup(a: nat, b: nat, c: nat, d: nat)
    ensures
        f_mul(f_mul(a, b), f_mul(c, d)) == f_mul(f_mul(a, d), f_mul(b, c)),
{
    let (ia, ib, ic, id) = (a as int, b as int, c as int, d as int);
    lemma_mul_congruent(a, b, ia, ib);
    lemma_mul_congruent(c, d, ic, id);
    lemma_mul_congruent(f_mul(a, b), f_mul(c, d), ia * ib, ic * id);
    lemma_mul_congruent(a, d, ia, id);
    lemma_mul_congruent(b, c, ib, ic);
    lemma_mul_congruent(f_mul(a, d), f_mul(b, c), ia * id, ib * ic);
    assert((ia * ib) * (ic * id) == (ia * id) * (ib * ic)) by (nonlinear_arith);
    lemma_congruent_equal(
        f_mul(f_mul(a, b), f_mul(c, d)),
        f_mul(f_mul(a, d), f_mul(b, c)),
        (ia * id) * (ib * ic),
    );
}

/// 0 has no inverse.
pub proof fn lemma_zero_not_invertible(b: nat)
    ensures
        !is_inverse(0, b),
{
    reveal(f_mul);
    assert(0 * b == 0) by (nonlinear_arith);
}

/// The inverse that `f_inv` names is the inverse, where there is one.
pub proof fn lemma_inverse_named(a: nat, b: nat)
    requires
        is_inverse(a, b),
    ensures
        f_inv(a) == b,
        a != 0,
{
    lemma_inverse_unique(a, b, f_inv(a));
    lemma_zero_not_invertible(b);
}

} // verus!
