use ark_ff::BigInteger256;
use ark_ff::Field;
use ark_ff::PrimeField;
use ark_serialize::CanonicalSerialize;
use mpc_algebra::field::Fr;

type ArkFr = ark_bls12_377::Fr;

/// A fixed sequence of limbs that covers small, large and mixed values.
fn samples() -> Vec<[u64; 4]> {
    let mut out = vec![
        [0, 0, 0, 0],
        [1, 0, 0, 0],
        [u64::MAX, 0, 0, 0],
        [0, 1, 0, 0],
        [u64::MAX, u64::MAX, u64::MAX, 0],
        [725501752471715840, 6461107452199829505, 6968279316240510977, 1345280370688173398],
    ];
    let mut state: u64 = 42;
    for _ in 0..40 {
        let mut limbs = [0u64; 4];
        for limb in limbs.iter_mut() {
            state = state.wrapping_mul(6364136223846793005).wrapping_add(1442695040888963407);
            *limb = state;
        }
        limbs[3] &= 0x0fff_ffff_ffff_ffff;
        out.push(limbs);
    }
    out
}

fn ark(limbs: [u64; 4]) -> ArkFr {
    ArkFr::from_repr(BigInteger256(limbs)).unwrap()
}

fn back(x: ArkFr) -> [u64; 4] {
    x.into_repr().0
}

#[test]
fn arithmetic_agrees_with_the_field_crate() {
    let all = samples();
    for a in &all {
        let x = Fr::from_repr(*a).unwrap();
        assert_eq!(x.neg().into_repr(), back(-ark(*a)));
        assert_eq!(x.inverse().map(|i| i.into_repr()), ark(*a).inverse().map(back));
        let mut bytes = Vec::new();
        x.write_to(&mut bytes);
        let mut expected = Vec::new();
        ark(*a).serialize(&mut expected).unwrap();
        assert_eq!(bytes, expected);
        assert_eq!(Fr::read_from(&bytes), Some(x));
        for b in &all {
            let y = Fr::from_repr(*b).unwrap();
            assert_eq!(x.add(&y).into_repr(), back(ark(*a) + ark(*b)));
            assert_eq!(x.sub(&y).into_repr(), back(ark(*a) - ark(*b)));
            assert_eq!(x.mul(&y).into_repr(), back(ark(*a) * ark(*b)));
        }
    }
}

#[test]
fn from_repr_agrees_with_the_field_crate() {
    let mut state: u64 = 7;
    for _ in 0..200 {
        let mut limbs = [0u64; 4];
        for limb in limbs.iter_mut() {
            state = state.wrapping_mul(6364136223846793005).wrapping_add(1442695040888963407);
            *limb = state;
        }
        limbs[3] &= 0x1fff_ffff_ffff_ffff;
        let theirs = ArkFr::from_repr(BigInteger256(limbs)).map(back);
        assert_eq!(Fr::from_repr(limbs).map(|x| x.into_repr()), theirs);
    }
}

#[test]
fn random_bytes_agree_with_the_field_crate() {
    let mut state: u64 = 99;
    for len in 0..48 {
        let mut bytes = Vec::new();
        for _ in 0..len {
            state = state.wrapping_mul(6364136223846793005).wrapping_add(1442695040888963407);
            bytes.push((state >> 33) as u8);
        }
        let theirs = ArkFr::from_random_bytes(&bytes).map(back);
        assert_eq!(Fr::from_random_bytes(&bytes).map(|x| x.into_repr()), theirs);
    }
}
