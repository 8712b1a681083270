//! Elements of the scalar field, held as four little-endian limbs of 64 bits.
//!
//! The arithmetic itself is that of `ark_ff`, reached through the private
//! functions at the end of this file; what each of them is taken to compute
//! is stated there.

use crate::algebra::canonical;
use crate::algebra::f_add;
use crate::algebra::f_mul;
use crate::algebra::f_neg;
use crate::algebra::f_sub;
use crate::algebra::is_inverse;
use crate::algebra::modulus;
use crate::bytes::le_bytes;
use crate::bytes::le_value;
use ark_ff::FftField;
use ark_ff::Field;
use ark_ff::PrimeField;
use ark_serialize::CanonicalDeserialize;
use ark_serialize::CanonicalSerialize;
use std::str::FromStr;
use vstd::arithmetic::div_mod::lemma_fundamental_div_mod_converse;
use vstd::prelude::*;

verus! {

/// The number of bytes of an element on the wire.
pub const ELEMENT_BYTES: usize = 32;

/// The value of four little-endian limbs.
pub open spec fn limbs_value(l0: u64, l1: u64, l2: u64, l3: u64) -> nat {
    (l0 as nat) + (l1 as nat) * 0x1_0000_0000_0000_0000nat + (l2 as nat)
        * 0x1_0000_0000_0000_0000_0000_0000_0000_0000nat + (l3 as nat)
        * 0x1_0000_0000_0000_0000_0000_0000_0000_0000_0000_0000_0000_0000nat
}

/// The bytes of a canonical value on the wire: 32 bytes, least significant
/// first.
pub open spec fn encoding(v: nat) -> Seq<u8> {
    le_bytes(v, 32)
}

/// The multiplicative generator of the field.
pub open spec fn generator() -> nat {
    22
}

/// The two-adicity of the field: the order minus one is `2^47` times an odd
/// number.
pub const TWO_ADICITY: u32 = 47;

/// The root of unity of order `2^47`: the generator to the power of the odd
/// part of the order minus one.
pub open spec fn two_adic_root() -> nat {
    8065159656716812877374967518403273466521432693661810619979959746626482506078nat
}

/// Whether a character is one of the digits `0` to `9`.
pub open spec fn is_digit(c: char) -> bool {
    48 <= c as u32 <= 57
}

/// Whether a string is a decimal numeral: not empty, digits only, and no
/// leading 0 but in the numeral `0` itself.
pub open spec fn is_decimal(s: Seq<char>) -> bool {
    &&& s.len() > 0
    &&& forall|i: int| 0 <= i < s.len() ==> is_digit(#[trigger] s[i])
    &&& (s.len() == 1 || s[0] as u32 != 48)
}

/// The number that a string of digits stands for.
pub open spec fn decimal_value(s: Seq<char>) -> nat
    decreases s.len(),
{
    if s.len() == 0 {
        0
    } else {
        (10 * decimal_value(s.drop_last()) + (s.last() as u32 - 48)) as nat
    }
}

/// The first 32 bytes of a byte string, with zeros where it has fewer.
pub open spec fn padded(bytes: Seq<u8>) -> Seq<u8> {
    Seq::new(
        32,
        |i: int|
            if i < bytes.len() {
                bytes[i]
            } else {
                0u8
            },
    )
}

/// The number that a string of random bytes proposes: that of its first 32
/// bytes, of which the low 253 bits are kept.
pub open spec fn proposed(bytes: Seq<u8>) -> nat {
    le_value(padded(bytes))
        % 0x2000_0000_0000_0000_0000_0000_0000_0000_0000_0000_0000_0000_0000_0000_0000_0000nat
}

/// An element of the scalar field in canonical form.
#[derive(Clone, Copy, Debug, PartialEq, Eq, Hash, Structural)]
pub struct Fr {
    l0: u64,
    l1: u64,
    l2: u64,
    l3: u64,
}

impl View for Fr {
    type V = nat;

    closed spec fn view(&self) -> nat {
        limbs_value(self.l0, self.l1, self.l2, self.l3)
    }
}

impl Fr {
    #[verifier::type_invariant]
    closed spec fn canonical_limbs(self) -> bool {
        canonical(limbs_value(self.l0, self.l1, self.l2, self.l3))
    }

    /// Two elements with the same value are the same element.
    pub proof fn lemma_view_injective(a: Fr, b: Fr)
        ensures
            a@ == b@ <==> a == b,
    {
        if a@ == b@ {
            let base = 0x1_0000_0000_0000_0000int;
            let a2 = a.l2 as int + base * (a.l3 as int);
            let b2 = b.l2 as int + base * (b.l3 as int);
            let a1 = a.l1 as int + base * a2;
            let b1 = b.l1 as int + base * b2;
            assert(a@ == a.l0 as int + base * a1);
            assert(b@ == b.l0 as int + base * b1);
            lemma_fundamental_div_mod_converse(a@ as int, base, a1, a.l0 as int);
            lemma_fundamental_div_mod_converse(b@ as int, base, b1, b.l0 as int);
            lemma_fundamental_div_mod_converse(a1, base, a2, a.l1 as int);
            lemma_fundamental_div_mod_converse(b1, base, b2, b.l1 as int);
            lemma_fundamental_div_mod_converse(a2, base, a.l3 as int, a.l2 as int);
            lemma_fundamental_div_mod_converse(b2, base, b.l3 as int, b.l2 as int);
        }
    }

    /// The value of an element is canonical. This costs nothing at run
    /// time; it hands the fact to a proof.
    pub fn canonical_view(&self)
        ensures
            canonical(self@),
    {
        proof {
            use_type_invariant(self);
        }
    }

    /// The element 0.
    pub fn zero() -> (r: Fr)
        ensures
            r@ == 0,
    {
        Fr { l0: 0, l1: 0, l2: 0, l3: 0 }
    }

    /// The element 1.
    pub fn one() -> (r: Fr)
        ensures
            r@ == 1,
    {
        Fr { l0: 1, l1: 0, l2: 0, l3: 0 }
    }

    /// The element that a 64-bit number stands for.
    pub fn from_u64(x: u64) -> (r: Fr)
        ensures
            r@ == x,
    {
        Fr { l0: x, l1: 0, l2: 0, l3: 0 }
    }

    /// The element that a 128-bit number stands for.
    pub fn from_u128(x: u128) -> (r: Fr)
        ensures
            r@ == x,
    {
        let low: u64 = (x % 0x1_0000_0000_0000_0000) as u64;
        let high: u64 = (x / 0x1_0000_0000_0000_0000) as u64;
        Fr { l0: low, l1: high, l2: 0, l3: 0 }
    }

    /// The element 1 for `true` and 0 for `false`.
    pub fn from_bool(b: bool) -> (r: Fr)
        ensures
            r@ == (if b {
                1nat
            } else {
                0nat
            }),
    {
        if b {
            Fr::one()
        } else {
            Fr::zero()
        }
    }

    /// The multiplicative generator of the field.
    pub fn multiplicative_generator() -> (r: Fr)
        ensures
            r@ == generator(),
    {
        ark_multiplicative_generator()
    }

    /// The root of unity of order `2^47`.
    pub fn two_adic_root_of_unity() -> (r: Fr)
        ensures
            r@ == two_adic_root(),
    {
        ark_two_adic_root_of_unity()
    }

    /// The root of unity of a subgroup of mixed order. This field has none.
    pub fn large_subgroup_root_of_unity() -> (r: Option<Fr>)
        ensures
            r is None,
    {
        ark_large_subgroup_root_of_unity()
    }

    /// Reads a decimal numeral as the element that it is congruent to.
    pub fn from_str(s: &str) -> (r: Option<Fr>)
        ensures
            match r {
                Some(x) => is_decimal(s@) && x@ == decimal_value(s@) % modulus(),
                None => !is_decimal(s@),
            },
    {
        ark_from_str(s)
    }

    /// The element that a string of random bytes proposes, if it is below
    /// the field order.
    pub fn from_random_bytes(bytes: &[u8]) -> (r: Option<Fr>)
        ensures
            match r {
                Some(x) => x@ == proposed(bytes@) && canonical(x@),
                None => !canonical(proposed(bytes@)),
            },
    {
        ark_from_random_bytes(bytes)
    }

    /// The element with the given limbs, least significant first, if they
    /// hold a number below the field order.
    pub fn from_repr(limbs: [u64; 4]) -> (r: Option<Fr>)
        ensures
            match r {
                Some(x) => x@ == limbs_value(limbs[0], limbs[1], limbs[2], limbs[3]) && canonical(
                    x@,
                ),
                None => !canonical(limbs_value(limbs[0], limbs[1], limbs[2], limbs[3])),
            },
    {
        let l0: u64 = limbs[0];
        let l1: u64 = limbs[1];
        let l2: u64 = limbs[2];
        let l3: u64 = limbs[3];
        let below = l3 < 1345280370688173398 || (l3 == 1345280370688173398 && (l2
            < 6968279316240510977 || (l2 == 6968279316240510977 && (l1 < 6461107452199829505 || (l1
            == 6461107452199829505 && l0 < 725501752471715841)))));
        if below {
            Some(Fr { l0, l1, l2, l3 })
        } else {
            None
        }
    }

    /// The limbs of the element, least significant first.
    pub fn into_repr(&self) -> (limbs: [u64; 4])
        ensures
            limbs_value(limbs[0], limbs[1], limbs[2], limbs[3]) == self@,
    {
        [self.l0, self.l1, self.l2, self.l3]
    }

    /// Whether the element is 0.
    pub fn is_zero(&self) -> (b: bool)
        ensures
            b == (self@ == 0),
    {
        self.l0 == 0 && self.l1 == 0 && self.l2 == 0 && self.l3 == 0
    }

    /// Whether two elements have the same value.
    pub fn same(&self, other: &Fr) -> (b: bool)
        ensures
            b == (self@ == other@),
    {
        proof {
            Fr::lemma_view_injective(*self, *other);
        }
        self.l0 == other.l0 && self.l1 == other.l1 && self.l2 == other.l2 && self.l3 == other.l3
    }

    /// The sum of two elements.
    pub fn add(&self, other: &Fr) -> (r: Fr)
        ensures
            r@ == f_add(self@, other@),
    {
        proof {
            use_type_invariant(self);
            use_type_invariant(other);
        }
        ark_add(self, other)
    }

    /// The difference of two elements.
    pub fn sub(&self, other: &Fr) -> (r: Fr)
        ensures
            r@ == f_sub(self@, other@),
    {
        proof {
            use_type_invariant(self);
            use_type_invariant(other);
        }
        ark_sub(self, other)
    }

    /// The additive inverse of an element.
    pub fn neg(&self) -> (r: Fr)
        ensures
            r@ == f_neg(self@),
    {
        proof {
            use_type_invariant(self);
        }
        ark_neg(self)
    }

    /// The product of two elements.
    pub fn mul(&self, other: &Fr) -> (r: Fr)
        ensures
            r@ == f_mul(self@, other@),
    {
        proof {
            use_type_invariant(self);
            use_type_invariant(other);
        }
        ark_mul(self, other)
    }

    /// The multiplicative inverse of an element; 0 has none.
    pub fn inverse(&self) -> (r: Option<Fr>)
        ensures
            match r {
                Some(x) => self@ != 0 && is_inverse(self@, x@),
                None => self@ == 0,
            },
    {
        proof {
            use_type_invariant(self);
        }
        let r = ark_inverse(self);
        proof {
            if let Some(x) = r {
                use_type_invariant(&x);
            }
        }
        r
    }

    /// Appends the wire form of the element to `out`.
    pub fn write_to(&self, out: &mut Vec<u8>)
        ensures
            final(out)@ == old(out)@ + encoding(self@),
    {
        proof {
            use_type_invariant(self);
        }
        let _ = ark_serialize(self, out);
    }

    /// Reads an element from its wire form: 32 bytes that stand for a number
    /// below the field order.
    pub fn read_from(bytes: &[u8]) -> (r: Option<Fr>)
        ensures
            match r {
                Some(x) => bytes@.len() == 32 && x@ == le_value(bytes@) && canonical(x@),
                None => bytes@.len() != 32 || !canonical(le_value(bytes@)),
            },
    {
        if bytes.len() != ELEMENT_BYTES {
            return None;
        }
        assert(bytes@.subrange(0, 32) =~= bytes@);
        match ark_deserialize(bytes) {
            Ok(x) => Some(x),
            Err(_) => None,
        }
    }
}

/// `ark_serialize::SerializationError`, carried from the calls that may fail
/// to the place where it is mapped to an error of this crate.
#[verifier::external_type_specification]
#[verifier::external_body]
pub struct ExSerializationError(ark_serialize::SerializationError);

/// Field addition of `ark_ff`, `Fp256 + Fp256`, between two conversions of
/// limbs (`from_repr`, `into_repr`). Taken on trust: the result is the
/// canonical representative of the sum modulo the field order.
#[verifier::external_body]
fn ark_add(a: &Fr, b: &Fr) -> (r: Fr)
    requires
        canonical(a@),
        canonical(b@),
    ensures
        r@ == f_add(a@, b@),
{
    let x = ark_bls12_377::Fr::from_repr(ark_ff::BigInteger256([a.l0, a.l1, a.l2, a.l3])).unwrap();
    let y = ark_bls12_377::Fr::from_repr(ark_ff::BigInteger256([b.l0, b.l1, b.l2, b.l3])).unwrap();
    let z = (x + y).into_repr().0;
    Fr { l0: z[0], l1: z[1], l2: z[2], l3: z[3] }
}

/// Field subtraction of `ark_ff`, `Fp256 - Fp256`. Taken on trust: the result
/// is the canonical representative of the difference modulo the field order.
#[verifier::external_body]
fn ark_sub(a: &Fr, b: &Fr) -> (r: Fr)
    requires
        canonical(a@),
        canonical(b@),
    ensures
        r@ == f_sub(a@, b@),
{
    let x = ark_bls12_377::Fr::from_repr(ark_ff::BigInteger256([a.l0, a.l1, a.l2, a.l3])).unwrap();
    let y = ark_bls12_377::Fr::from_repr(ark_ff::BigInteger256([b.l0, b.l1, b.l2, b.l3])).unwrap();
    let z = (x - y).into_repr().0;
    Fr { l0: z[0], l1: z[1], l2: z[2], l3: z[3] }
}

/// Field negation of `ark_ff`, `-Fp256`. Taken on trust: the result is the
/// canonical representative of the negated value modulo the field order.
#[verifier::external_body]
fn ark_neg(a: &Fr) -> (r: Fr)
    requires
        canonical(a@),
    ensures
        r@ == f_neg(a@),
{
    let x = ark_bls12_377::Fr::from_repr(ark_ff::BigInteger256([a.l0, a.l1, a.l2, a.l3])).unwrap();
    let z = (-x).into_repr().0;
    Fr { l0: z[0], l1: z[1], l2: z[2], l3: z[3] }
}

/// Field multiplication of `ark_ff`, `Fp256 * Fp256`. Taken on trust: the
/// result is the canonical representative of the product modulo the field
/// order.
#[verifier::external_body]
fn ark_mul(a: &Fr, b: &Fr) -> (r: Fr)
    requires
        canonical(a@),
        canonical(b@),
    ensures
        r@ == f_mul(a@, b@),
{
    let x = ark_bls12_377::Fr::from_repr(ark_ff::BigInteger256([a.l0, a.l1, a.l2, a.l3])).unwrap();
    let y = ark_bls12_377::Fr::from_repr(ark_ff::BigInteger256([b.l0, b.l1, b.l2, b.l3])).unwrap();
    let z = (x * y).into_repr().0;
    Fr { l0: z[0], l1: z[1], l2: z[2], l3: z[3] }
}

/// `Field::inverse` of `ark_ff` on `Fp256`. Taken on trust: 0 gives `None`;
/// any other element gives the canonical value whose product with it is 1.
#[verifier::external_body]
fn ark_inverse(a: &Fr) -> (r: Option<Fr>)
    requires
        canonical(a@),
    ensures
        match r {
            Some(x) => a@ != 0 && is_inverse(a@, x@),
            None => a@ == 0,
        },
{
    let x = ark_bls12_377::Fr::from_repr(ark_ff::BigInteger256([a.l0, a.l1, a.l2, a.l3])).unwrap();
    match x.inverse() {
        Some(y) => {
            let z = y.into_repr().0;
            Some(Fr { l0: z[0], l1: z[1], l2: z[2], l3: z[3] })
        },
        None => None,
    }
}

/// `CanonicalSerialize::serialize` of `ark_serialize` on `Fp256`, writing
/// into a vector. Taken on trust: it appends the 32 bytes of the canonical
/// value, least significant first, and does not fail.
#[verifier::external_body]
fn ark_serialize(a: &Fr, out: &mut Vec<u8>) -> (r: Result<(), ark_serialize::SerializationError>)
    requires
        canonical(a@),
    ensures
        r is Ok,
        final(out)@ == old(out)@ + le_bytes(a@, 32),
{
    let x = ark_bls12_377::Fr::from_repr(ark_ff::BigInteger256([a.l0, a.l1, a.l2, a.l3])).unwrap();
    x.serialize(out)
}

/// `CanonicalDeserialize::deserialize` of `ark_serialize` for `Fp256`,
/// reading from a slice. Taken on trust: it reads the first 32 bytes as a
/// little-endian number and succeeds exactly if there are that many and the
/// number is below the field order, which is then the element's value.
#[verifier::external_body]
fn ark_deserialize(bytes: &[u8]) -> (r: Result<Fr, ark_serialize::SerializationError>)
    ensures
        match r {
            Ok(x) => bytes@.len() >= 32 && x@ == le_value(bytes@.subrange(0, 32)) && canonical(
                x@,
            ),
            Err(_) => bytes@.len() < 32 || !canonical(le_value(bytes@.subrange(0, 32))),
        },
{
    match ark_bls12_377::Fr::deserialize(bytes) {
        Ok(x) => {
            let z = x.into_repr().0;
            Ok(Fr { l0: z[0], l1: z[1], l2: z[2], l3: z[3] })
        },
        Err(e) => Err(e),
    }
}

/// `FftField::multiplicative_generator` of `ark_ff` for `Fp256`. Taken on
/// trust: it is the element 22, which the parameters of the field hold in
/// Montgomery form.
#[verifier::external_body]
fn ark_multiplicative_generator() -> (r: Fr)
    ensures
        r@ == generator(),
{
    let z = ark_bls12_377::Fr::multiplicative_generator().into_repr().0;
    Fr { l0: z[0], l1: z[1], l2: z[2], l3: z[3] }
}

/// `FftField::two_adic_root_of_unity` of `ark_ff` for `Fp256`. Taken on
/// trust: it is the element that the parameters of the field hold in
/// Montgomery form, the generator to the power of the odd part of the order
/// minus one.
#[verifier::external_body]
fn ark_two_adic_root_of_unity() -> (r: Fr)
    ensures
        r@ == two_adic_root(),
{
    let z = ark_bls12_377::Fr::two_adic_root_of_unity().into_repr().0;
    Fr { l0: z[0], l1: z[1], l2: z[2], l3: z[3] }
}

/// `FftField::large_subgroup_root_of_unity` of `ark_ff` for `Fp256`. Taken
/// on trust: the parameters of this field name no such subgroup, so there is
/// no root.
#[verifier::external_body]
fn ark_large_subgroup_root_of_unity() -> (r: Option<Fr>)
    ensures
        r is None,
{
    match ark_bls12_377::Fr::large_subgroup_root_of_unity() {
        Some(x) => {
            let z = x.into_repr().0;
            Some(Fr { l0: z[0], l1: z[1], l2: z[2], l3: z[3] })
        },
        None => None,
    }
}

/// `FromStr::from_str` of `ark_ff` for `Fp256`. Taken on trust: it accepts
/// exactly the decimal numerals without a needless leading 0, and gives the
/// element that the numeral is congruent to.
#[verifier::external_body]
fn ark_from_str(s: &str) -> (r: Option<Fr>)
    ensures
        match r {
            Some(x) => is_decimal(s@) && x@ == decimal_value(s@) % modulus(),
            None => !is_decimal(s@),
        },
{
    match ark_bls12_377::Fr::from_str(s) {
        Ok(x) => {
            let z = x.into_repr().0;
            Some(Fr { l0: z[0], l1: z[1], l2: z[2], l3: z[3] })
        },
        Err(_) => None,
    }
}

/// `Field::from_random_bytes` of `ark_ff` for `Fp256`. Taken on trust: it
/// takes the first 32 bytes, with zeros for missing ones, as a
/// little-endian number, clears the bits from the 253rd on, and gives the
/// element of that value if it is below the field order.
#[verifier::external_body]
fn ark_from_random_bytes(bytes: &[u8]) -> (r: Option<Fr>)
    ensures
        match r {
            Some(x) => x@ == proposed(bytes@) && canonical(x@),
            None => !canonical(proposed(bytes@)),
        },
{
    match ark_bls12_377::Fr::from_random_bytes(bytes) {
        Some(x) => {
            let z = x.into_repr().0;
            Some(Fr { l0: z[0], l1: z[1], l2: z[2], l3: z[3] })
        },
        None => None,
    }
}

} // verus!
