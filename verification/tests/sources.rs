use mpc_algebra::beaver::BeaverSource;
use mpc_algebra::field::Fr;
use mpc_algebra::protocol::Step;
use mpc_algebra::share::AdditiveShare;
use mpc_algebra::wire::MpcField;

/// A source that hands out the shares it was made with, over and over.
struct Fixed {
    triple: (AdditiveShare, AdditiveShare, AdditiveShare),
    pair: (AdditiveShare, AdditiveShare),
}

impl BeaverSource for Fixed {
    fn triple(&mut self) -> (AdditiveShare, AdditiveShare, AdditiveShare) {
        self.triple
    }

    fn inv_pair(&mut self) -> (AdditiveShare, AdditiveShare) {
        self.pair
    }
}

fn share(x: Fr) -> AdditiveShare {
    AdditiveShare::from_add_shared(x)
}

/// The two parties' sources for the triple `(a, b, a * b)` and the pair
/// `(r, s)`, each split into a fixed summand and the rest.
fn sources(a: u64, b: u64, r: Fr, s: Fr) -> (Fixed, Fixed) {
    let split = |v: Fr, first: u64| (share(Fr::from_u64(first)), share(v.sub(&Fr::from_u64(first))));
    let (a0, a1) = split(Fr::from_u64(a), 1111);
    let (b0, b1) = split(Fr::from_u64(b), 2222);
    let (c0, c1) = split(Fr::from_u64(a).mul(&Fr::from_u64(b)), 3333);
    let (r0, r1) = split(r, 4444);
    let (s0, s1) = split(s, 5555);
    (Fixed { triple: (a0, b0, c0), pair: (r0, s0) }, Fixed { triple: (a1, b1, c1), pair: (r1, s1) })
}

fn both(s0: Step, s1: Step) -> Fr {
    let mut s0 = s0;
    let mut s1 = s1;
    loop {
        match (s0, s1) {
            (Step::Done(a), Step::Done(b)) => {
                assert_eq!(a.is_shared(), b.is_shared());
                if !a.is_shared() {
                    assert_eq!(a, b);
                    return a.unwrap_as_public();
                }
                s0 = a.publicize(true);
                s1 = b.publicize(true);
            }
            (Step::Exchange(p0), Step::Exchange(p1)) => {
                let m0 = p0.payload();
                let m1 = p1.payload();
                s0 = p0.resume(&m1, true).unwrap();
                s1 = p1.resume(&m0, false).unwrap();
            }
            _ => panic!("the parties' tags disagree"),
        }
    }
}

#[test]
fn multiplication_with_a_true_triple() {
    let (mut src0, mut src1) = sources(123456789, 987654321, Fr::one(), Fr::one());
    let x = (MpcField::from_add_shared(Fr::from_u64(1000)), MpcField::from_add_shared(Fr::from_u64(7)));
    let y = (MpcField::from_add_shared(Fr::from_u64(5)), MpcField::from_add_shared(Fr::from_u64(95)));
    let product = both(x.0.mul(y.0, &mut src0), x.1.mul(y.1, &mut src1));
    assert_eq!(product, Fr::from_u64(100700));
}

#[test]
fn inversion_with_a_pair_that_is_its_own_inverse() {
    let minus_one = Fr::one().neg();
    let (mut src0, mut src1) = sources(31, 37, minus_one, minus_one);
    let x = (MpcField::from_add_shared(Fr::from_u64(50)), MpcField::from_add_shared(Fr::from_u64(14)));
    let inverse = both(x.0.inv(&mut src0).unwrap(), x.1.inv(&mut src1).unwrap());
    assert_eq!(inverse.mul(&Fr::from_u64(64)), Fr::one());
    let quotient = both(
        MpcField::from_u64(128).div(x.0, &mut src0),
        MpcField::from_u64(128).div(x.1, &mut src1),
    );
    assert_eq!(quotient, Fr::from_u64(2));
}

#[test]
fn inversion_with_any_valid_pair() {
    let half = Fr::from_u64(2).inverse().unwrap();
    let (mut src0, mut src1) = sources(3, 5, Fr::from_u64(2), half);
    let x = (MpcField::from_add_shared(Fr::from_u64(50)), MpcField::from_add_shared(Fr::from_u64(14)));
    let result = both(x.0.inv(&mut src0).unwrap(), x.1.inv(&mut src1).unwrap());
    assert_eq!(result.mul(&Fr::from_u64(64)), Fr::one());
    assert_eq!(result, Fr::from_u64(64).inverse().unwrap());
    // the shared 1 by the shared 1, the public 6 by the shared 3
    let one = (MpcField::from_add_shared(Fr::from_u64(1)), MpcField::from_add_shared(Fr::zero()));
    assert_eq!(both(one.0.inv(&mut src0).unwrap(), one.1.inv(&mut src1).unwrap()), Fr::one());
    assert_eq!(both(one.0.div(one.0, &mut src0), one.1.div(one.1, &mut src1)), Fr::one());
    let three = (MpcField::from_add_shared(Fr::from_u64(1)), MpcField::from_add_shared(Fr::from_u64(2)));
    let six = MpcField::from_u64(6);
    assert_eq!(both(six.div(three.0, &mut src0), six.div(three.1, &mut src1)), Fr::from_u64(2));
    // a shared dividend: 192 / 64
    let y = (MpcField::from_add_shared(Fr::from_u64(200)), MpcField::from_add_shared(Fr::from_u64(8).neg()));
    assert_eq!(both(y.0.div(x.0, &mut src0), y.1.div(x.1, &mut src1)), Fr::from_u64(3));
}
