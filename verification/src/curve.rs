//! The parameters of the first source group of the curve CP6-782: a
//! short Weierstrass curve `y^2 = x^3 + a*x + b` over a field of 782 bits,
//! whose group of prime order is the one that the scalar field belongs to.
//!
//! The numbers are held as little-endian limbs of 64 bits, in plain (not
//! Montgomery) form.

use vstd::prelude::*;

verus! {

/// The order of the base field.
pub open spec fn base_modulus() -> nat {
    22369874298875696930346742206501054934775599465297184582183496627646774052458024540232479018147881220178054575403841904557897715222633333372134756426301062487682326574958588001132586331462553235407484089304633076250782629492557320825577nat
}

/// The order of the scalar field: the order of the group.
pub open spec fn scalar_modulus() -> nat {
    258664426012969094010652733694893533536393512754914660539884262666720468348340822774968888139573360124440321458177nat
}

/// The coefficient `b` of the curve.
pub open spec fn coeff_b_value() -> nat {
    17764315118651679038286329069295091506801468118146712649886336045535808055361274148466772191243305528312843236347777260247138934336850548243151534538734724191505953341403463040067571652261229308333392040104884438208594329793895206056414nat
}

/// The cofactor of the group of prime order in the curve.
pub open spec fn cofactor_value() -> nat {
    86482221941698704497288378992285180119495364068003923046442785886272123124361700722982503222189455144364945735564951561028nat
}

/// The inverse of the cofactor in the scalar field.
pub open spec fn cofactor_inv_value() -> nat {
    163276846538158998893990986356139314746223949404500031940624325017036397274793417940375498603127780919653358641788nat
}

/// The first coordinate of the generator.
pub open spec fn generator_x_value() -> nat {
    5511163824921585887915590525772884263960974614921003940645351443740084257508990841338974915037175497689287870585840954231884082785026301437744745393958283053278991955159266640440849940136976927372133743626748847559939620888818486853646nat
}

/// The second coordinate of the generator.
pub open spec fn generator_y_value() -> nat {
    7913123550914612057135582061699117755797758113868200992327595317370485234417808273674357776714522052694559358668442301647906991623400754234679697332299689255516547752391831738454121261248793568285885897998257357202903170202349380518443nat
}

/// The number that little-endian limbs stand for.
pub open spec fn limbs_nat(s: Seq<u64>) -> nat
    decreases s.len(),
{
    if s.len() == 0 {
        0
    } else {
        (s[0] as nat) + 0x1_0000_0000_0000_0000nat * limbs_nat(s.drop_first())
    }
}

/// The first coordinate of the generator of the group.
pub const G1_GENERATOR_X: [u64; 13] = [
    0x290019736917c00e,
    0x6b9bd5d34ee12b44,
    0x25b3f5edfbdf5e1c,
    0xf3927578e4efbe3,
    0xdedade9abebef66,
    0xdbd0cea8e77f4753,
    0x19416580e5b67c43,
    0x7d361af3a2ea0ebe,
    0xa4fb86c6714af477,
    0x6e7976ce0336b848,
    0x9b7406a68b031815,
    0xd29680c771759a01,
    0xddd,
];

/// The second coordinate of the generator of the group.
pub const G1_GENERATOR_Y: [u64; 13] = [
    0xd2e1f08d97bf422b,
    0x8a33075c0687a2d,
    0x66365f0753358f10,
    0xf55c37d2389d3e4c,
    0x8d0671603ff5c29c,
    0xf448cd5f193566f8,
    0x11a4224b5936abe8,
    0x720355eb6bca3314,
    0x7ae0c40f642e1cf1,
    0xc87f0324a13b407b,
    0x883af4aad5dd1917,
    0xf5ea095b73a443f4,
    0x13e8,
];

/// The parameters of the group.
#[derive(Clone, Copy, Debug, Default, PartialEq, Eq)]
pub struct Parameters;

impl Parameters {
    /// The coefficient `a` of the curve: 5.
    pub fn coeff_a() -> (r: [u64; 13])
        ensures
            limbs_nat(r@) == 5,
    {
        let r: [u64; 13] = [5, 0, 0, 0, 0, 0, 0, 0, 0, 0, 0, 0, 0];
        proof {
            lemma_limbs_13(r@);
        }
        r
    }

    /// The coefficient `b` of the curve.
    pub fn coeff_b() -> (r: [u64; 13])
        ensures
            limbs_nat(r@) == coeff_b_value(),
    {
        let r: [u64; 13] = [
            0xaefe9e08c2e171de,
            0x919605cd5f4c4aac,
            0xb7e11a732e201cf2,
            0x8c34a82cdcf1b9fc,
            0x1f3e383f77a1f36d,
            0xb29a26000e3f51b3,
            0xb629b6afdadce8d8,
            0x9058a68fc984aed1,
            0x61dbf155b5f68692,
            0x487938eab7833f55,
            0x156f35a693ad0e1d,
            0x42783886aa09fc09,
            0x2cb2,
        ];
        proof {
            lemma_limbs_13(r@);
        }
        r
    }

    /// The cofactor.
    pub fn cofactor() -> (r: [u64; 7])
        ensures
            limbs_nat(r@) == cofactor_value(),
    {
        let r: [u64; 7] = [
            0x5657b9b57b942344,
            0x84f9a65f3bd54eaf,
            0x5ea4214e35cd127,
            0xe3cbcbc14ec1501d,
            0xf196cb845a3092ab,
            0x7e14627ad0e19017,
            0x217db4,
        ];
        proof {
            lemma_limbs_7(r@);
        }
        r
    }

    /// The inverse of the cofactor in the scalar field.
    pub fn cofactor_inv() -> (r: [u64; 6])
        ensures
            limbs_nat(r@) == cofactor_inv_value(),
    {
        let r: [u64; 6] = [
            0x8ab71af5000c227c,
            0x904dde8909beaafb,
            0x8ac3516add3c230a,
            0xe32f1c4fd2536e65,
            0x6297eada7a5a97d3,
            0x10f92a023250aba,
        ];
        proof {
            lemma_limbs_6(r@);
        }
        r
    }

    /// The coordinates of the generator.
    pub fn affine_generator_coeffs() -> (r: ([u64; 13], [u64; 13]))
        ensures
            limbs_nat(r.0@) == generator_x_value(),
            limbs_nat(r.1@) == generator_y_value(),
    {
        let x: [u64; 13] = G1_GENERATOR_X;
        let y: [u64; 13] = G1_GENERATOR_Y;
        proof {
            lemma_limbs_13(x@);
            lemma_limbs_13(y@);
        }
        (x, y)
    }
}

/// The generator lies on the curve.
pub proof fn law_generator_on_curve()
    ensures
        (generator_y_value() * generator_y_value()) % base_modulus() == (generator_x_value()
            * generator_x_value() * generator_x_value() + 5 * generator_x_value()
            + coeff_b_value()) % base_modulus(),
{
    let x = generator_x_value() as int;
    let y = generator_y_value() as int;
    let q = base_modulus() as int;
    let k = -7482839316745241297053811487599378889058158327928919107481470176302388895652677113967471275845264305174200165922954538848135835936520503962907287529290960367182374173114163308277369694226057765872352722309387610338704603603842398943021468437103896374175316985168803097165174320847254983320914573589362961592651513044977832949406071946866128268208267255475147607702950954654411488271363977474096267569827435381114778125413688971967740351407514283249284093702186396639403int;
    let rhs = x * x * x + 5 * x + coeff_b_value();
    assert(y * y == rhs + k * q) by (nonlinear_arith)
        requires
            x == generator_x_value(),
            y == generator_y_value(),
            q == base_modulus(),
            k == -7482839316745241297053811487599378889058158327928919107481470176302388895652677113967471275845264305174200165922954538848135835936520503962907287529290960367182374173114163308277369694226057765872352722309387610338704603603842398943021468437103896374175316985168803097165174320847254983320914573589362961592651513044977832949406071946866128268208267255475147607702950954654411488271363977474096267569827435381114778125413688971967740351407514283249284093702186396639403int,
            rhs == x * x * x + 5 * x + coeff_b_value(),
    ;
    vstd::arithmetic::div_mod::lemma_mod_multiples_vanish(k, rhs, q);
}

/// The cofactor times its inverse is 1 in the scalar field.
pub proof fn law_cofactor_inverse()
    ensures
        (cofactor_value() * cofactor_inv_value()) % scalar_modulus() == 1,
{
    let c = cofactor_value() as int;
    let d = cofactor_inv_value() as int;
    let r = scalar_modulus() as int;
    let k = 54590206693307570683141825660430237481531392447804245108008624512141085513984793105809319817916288902001292659301875195119int;
    assert(c * d == 1 + k * r) by (nonlinear_arith)
        requires
            c == cofactor_value(),
            d == cofactor_inv_value(),
            r == scalar_modulus(),
            k == 54590206693307570683141825660430237481531392447804245108008624512141085513984793105809319817916288902001292659301875195119int,
    ;
    vstd::arithmetic::div_mod::lemma_mod_multiples_vanish(k, 1, r);
    vstd::arithmetic::div_mod::lemma_small_mod(1, scalar_modulus());
}

/// The number that limbs stand for, from the most significant limb down.
pub open spec fn horner(s: Seq<u64>, from: int) -> nat
    decreases s.len() - from,
{
    if from >= s.len() {
        0
    } else {
        (s[from] as nat) + 0x1_0000_0000_0000_0000nat * horner(s, from + 1)
    }
}

/// `limbs_nat` of the limbs from `from` on is their `horner` value.
pub proof fn lemma_horner(s: Seq<u64>, from: int)
    requires
        0 <= from <= s.len(),
    ensures
        limbs_nat(s.subrange(from, s.len() as int)) == horner(s, from),
    decreases s.len() - from,
{
    let t = s.subrange(from, s.len() as int);
    if from < s.len() {
        assert(t.drop_first() =~= s.subrange(from + 1, s.len() as int));
        lemma_horner(s, from + 1);
    }
}

/// The number that 6 limbs stand for, written out.
pub proof fn lemma_limbs_6(s: Seq<u64>)
    requires
        s.len() == 6,
    ensures
        limbs_nat(s) == (s[0] as nat) + (s[1] as nat) * 0x1_0000_0000_0000_0000nat + (s[2] as nat) * 0x1_0000_0000_0000_0000_0000_0000_0000_0000nat + (s[3] as nat) * 0x1_0000_0000_0000_0000_0000_0000_0000_0000_0000_0000_0000_0000nat + (s[4] as nat) * 0x1_0000_0000_0000_0000_0000_0000_0000_0000_0000_0000_0000_0000_0000_0000_0000_0000nat + (s[5] as nat) * 0x1_0000_0000_0000_0000_0000_0000_0000_0000_0000_0000_0000_0000_0000_0000_0000_0000_0000_0000_0000_0000nat,
{
    lemma_horner(s, 0);
    assert(s.subrange(0, 6) =~= s);
    reveal_with_fuel(horner, 7);
}

/// The number that 7 limbs stand for, written out.
pub proof fn lemma_limbs_7(s: Seq<u64>)
    requires
        s.len() == 7,
    ensures
        limbs_nat(s) == (s[0] as nat) + (s[1] as nat) * 0x1_0000_0000_0000_0000nat + (s[2] as nat) * 0x1_0000_0000_0000_0000_0000_0000_0000_0000nat + (s[3] as nat) * 0x1_0000_0000_0000_0000_0000_0000_0000_0000_0000_0000_0000_0000nat + (s[4] as nat) * 0x1_0000_0000_0000_0000_0000_0000_0000_0000_0000_0000_0000_0000_0000_0000_0000_0000nat + (s[5] as nat) * 0x1_0000_0000_0000_0000_0000_0000_0000_0000_0000_0000_0000_0000_0000_0000_0000_0000_0000_0000_0000_0000nat + (s[6] as nat) * 0x1_0000_0000_0000_0000_0000_0000_0000_0000_0000_0000_0000_0000_0000_0000_0000_0000_0000_0000_0000_0000_0000_0000_0000_0000nat,
{
    lemma_horner(s, 0);
    assert(s.subrange(0, 7) =~= s);
    reveal_with_fuel(horner, 8);
}

/// The number that 13 limbs stand for, written out.
pub proof fn lemma_limbs_13(s: Seq<u64>)
    requires
        s.len() == 13,
    ensures
        limbs_nat(s) == (s[0] as nat) + (s[1] as nat) * 0x1_0000_0000_0000_0000nat + (s[2] as nat) * 0x1_0000_0000_0000_0000_0000_0000_0000_0000nat + (s[3] as nat) * 0x1_0000_0000_0000_0000_0000_0000_0000_0000_0000_0000_0000_0000nat + (s[4] as nat) * 0x1_0000_0000_0000_0000_0000_0000_0000_0000_0000_0000_0000_0000_0000_0000_0000_0000nat + (s[5] as nat) * 0x1_0000_0000_0000_0000_0000_0000_0000_0000_0000_0000_0000_0000_0000_0000_0000_0000_0000_0000_0000_0000nat + (s[6] as nat) * 0x1_0000_0000_0000_0000_0000_0000_0000_0000_0000_0000_0000_0000_0000_0000_0000_0000_0000_0000_0000_0000_0000_0000_0000_0000nat + (s[7] as nat) * 0x1_0000_0000_0000_0000_0000_0000_0000_0000_0000_0000_0000_0000_0000_0000_0000_0000_0000_0000_0000_0000_0000_0000_0000_0000_0000_0000_0000_0000nat + (s[8] as nat) * 0x1_0000_0000_0000_0000_0000_0000_0000_0000_0000_0000_0000_0000_0000_0000_0000_0000_0000_0000_0000_0000_0000_0000_0000_0000_0000_0000_0000_0000_0000_0000_0000_0000nat + (s[9] as nat) * 0x1_0000_0000_0000_0000_0000_0000_0000_0000_0000_0000_0000_0000_0000_0000_0000_0000_0000_0000_0000_0000_0000_0000_0000_0000_0000_0000_0000_0000_0000_0000_0000_0000_0000_0000_0000_0000nat + (s[10] as nat) * 0x1_0000_0000_0000_0000_0000_0000_0000_0000_0000_0000_0000_0000_0000_0000_0000_0000_0000_0000_0000_0000_0000_0000_0000_0000_0000_0000_0000_0000_0000_0000_0000_0000_0000_0000_0000_0000_0000_0000_0000_0000nat + (s[11] as nat) * 0x1_0000_0000_0000_0000_0000_0000_0000_0000_0000_0000_0000_0000_0000_0000_0000_0000_0000_0000_0000_0000_0000_0000_0000_0000_0000_0000_0000_0000_0000_0000_0000_0000_0000_0000_0000_0000_0000_0000_0000_0000_0000_0000_0000_0000nat + (s[12] as nat) * 0x1_0000_0000_0000_0000_0000_0000_0000_0000_0000_0000_0000_0000_0000_0000_0000_0000_0000_0000_0000_0000_0000_0000_0000_0000_0000_0000_0000_0000_0000_0000_0000_0000_0000_0000_0000_0000_0000_0000_0000_0000_0000_0000_0000_0000_0000_0000_0000_0000nat,
{
    lemma_horner(s, 0);
    assert(s.subrange(0, 13) =~= s);
    reveal_with_fuel(horner, 14);
}

} // verus!
