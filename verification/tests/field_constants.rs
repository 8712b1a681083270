use mpc_algebra::error::MpcError;
use mpc_algebra::field::Fr;
use mpc_algebra::share::AdditiveShare;
use mpc_algebra::wire::MpcField;

fn pow(base: Fr, exponent_bits: &[bool]) -> Fr {
    // most significant bit first
    let mut acc = Fr::one();
    for bit in exponent_bits {
        acc = acc.mul(&acc);
        if *bit {
            acc = acc.mul(&base);
        }
    }
    acc
}

fn bits_of(limbs: [u64; 4]) -> Vec<bool> {
    let mut bits = Vec::new();
    for limb in limbs.iter().rev() {
        for i in (0..64).rev() {
            bits.push((limb >> i) & 1 == 1);
        }
    }
    bits
}

#[test]
fn generator_is_22() {
    assert_eq!(Fr::multiplicative_generator(), Fr::from_u64(22));
    assert_eq!(
        MpcField::multiplicative_generator(),
        MpcField::from_public(Fr::from_u64(22))
    );
}

#[test]
fn two_adic_root_has_order_two_to_the_47() {
    let root = Fr::two_adic_root_of_unity();
    assert_eq!(
        root.into_repr(),
        [
            5147320413305080158,
            11191566996928196682,
            6973424315369300271,
            1284854061110734017
        ]
    );
    // the generator to the power (q - 1) / 2^47
    let t = [0xedfda00000021423u64, 0x9a3cb86f6002b354, 0xcabd34594aacc168, 0x2556];
    assert_eq!(pow(Fr::from_u64(22), &bits_of(t)), root);
    let mut x = root;
    for _ in 0..46 {
        x = x.mul(&x);
    }
    assert_eq!(x, Fr::one().neg());
    assert_eq!(x.mul(&x), Fr::one());
    assert_eq!(MpcField::two_adic_root_of_unity(), MpcField::from_public(root));
}

#[test]
fn there_is_no_large_subgroup_root() {
    assert_eq!(Fr::large_subgroup_root_of_unity(), None);
    assert_eq!(MpcField::large_subgroup_root_of_unity(), None);
}

#[test]
fn from_str_reads_decimal_numerals() {
    assert_eq!(Fr::from_str("0"), Some(Fr::zero()));
    assert_eq!(Fr::from_str("7"), Some(Fr::from_u64(7)));
    assert_eq!(Fr::from_str("18446744073709551616").unwrap().into_repr(), [0, 1, 0, 0]);
    assert_eq!(Fr::from_str(""), None);
    assert_eq!(Fr::from_str("00"), None);
    assert_eq!(Fr::from_str("07"), None);
    assert_eq!(Fr::from_str("-7"), None);
    assert_eq!(Fr::from_str("+7"), None);
    assert_eq!(Fr::from_str("7a"), None);
    assert_eq!(Fr::from_str(" 7"), None);
    assert_eq!(Fr::from_str("\u{0663}"), None);
    // the order itself is congruent to 0, and the order plus 5 to 5
    assert_eq!(
        Fr::from_str("8444461749428370424248824938781546531375899335154063827935233455917409239041"),
        Some(Fr::zero())
    );
    assert_eq!(
        Fr::from_str("8444461749428370424248824938781546531375899335154063827935233455917409239046"),
        Some(Fr::from_u64(5))
    );
    assert_eq!(MpcField::from_str("12"), Ok(MpcField::from_u64(12)));
    assert_eq!(MpcField::from_str("012"), Err(()));
}

#[test]
fn from_random_bytes_keeps_253_bits_of_32_bytes() {
    assert_eq!(Fr::from_random_bytes(&[]), Some(Fr::zero()));
    assert_eq!(Fr::from_random_bytes(&[5]), Some(Fr::from_u64(5)));
    assert_eq!(Fr::from_random_bytes(&[1, 1]), Some(Fr::from_u64(257)));
    // bytes past the 32nd are not looked at
    let mut long = vec![0u8; 40];
    long[0] = 9;
    long[32] = 0xff;
    long[39] = 0xff;
    assert_eq!(Fr::from_random_bytes(&long), Some(Fr::from_u64(9)));
    // the three top bits of the 32nd byte are dropped
    let mut top = vec![0u8; 32];
    top[0] = 3;
    top[31] = 0xe0;
    assert_eq!(Fr::from_random_bytes(&top), Some(Fr::from_u64(3)));
    top[31] = 0xe1;
    assert_eq!(
        Fr::from_random_bytes(&top).unwrap().into_repr(),
        [3, 0, 0, 1 << 56]
    );
    // what is left may still be too large
    assert_eq!(Fr::from_random_bytes(&[0xffu8; 32]), None);
    top[31] = 0x13;
    assert_eq!(Fr::from_random_bytes(&top), None);
    top[31] = 0x12;
    assert!(Fr::from_random_bytes(&top).is_some());
}

#[test]
fn random_bytes_become_a_shared_public_constant() {
    let five = AdditiveShare::from_public(Fr::from_u64(5), true);
    assert_eq!(MpcField::from_random_bytes(&[5], true), Some(MpcField::Shared(five)));
    assert_eq!(
        MpcField::from_random_bytes(&[5], false),
        Some(MpcField::from_add_shared(Fr::zero()))
    );
    assert_eq!(MpcField::from_random_bytes(&[0xffu8; 32], true), None);
}

#[test]
fn constructors_from_numbers() {
    assert_eq!(Fr::from_u128(1u128 << 64).into_repr(), [0, 1, 0, 0]);
    assert_eq!(Fr::from_u128(u128::MAX).into_repr(), [u64::MAX, u64::MAX, 0, 0]);
    assert_eq!(Fr::from_u128(77), Fr::from_u64(77));
    assert_eq!(Fr::from_bool(true), Fr::one());
    assert_eq!(Fr::from_bool(false), Fr::zero());
    assert_eq!(MpcField::from_u128(77), MpcField::from_u64(77));
    assert_eq!(MpcField::from_bool(true), MpcField::one());
    assert_eq!(MpcField::from_bool(false), MpcField::zero());
}

#[test]
fn representations() {
    assert_eq!(MpcField::from_repr([4, 0, 0, 0]), Some(MpcField::from_u64(4)));
    assert_eq!(MpcField::from_repr([u64::MAX; 4]), None);
    assert_eq!(MpcField::from_u64(4).into_repr(), [4, 0, 0, 0]);
    assert_eq!(MpcField::from_add_shared(Fr::from_u64(6)).into_repr(), [6, 0, 0, 0]);
}

#[test]
fn base_prime_field_elements() {
    let p = MpcField::from_u64(3);
    let s = MpcField::from_add_shared(Fr::from_u64(3));
    assert_eq!(MpcField::from_base_prime_field_elems(&[p]), Some(p));
    assert_eq!(MpcField::from_base_prime_field_elems(&[s]), Some(s));
    assert_eq!(MpcField::from_base_prime_field_elems(&[p, p]), None);
    assert_eq!(MpcField::from_base_prime_field_elems(&[s, s, s]), None);
}

#[test]
fn operations_without_a_protocol_fail() {
    let mut v = MpcField::from_u64(4);
    assert_eq!(MpcField::extension_degree(), Err(MpcError::ProtocolUnsupported));
    assert_eq!(v.frobenius_map(1), Err(MpcError::ProtocolUnsupported));
    assert_eq!(v.legendre(), Err(MpcError::ProtocolUnsupported));
    assert_eq!(v.sqrt(), Err(MpcError::ProtocolUnsupported));
    assert_eq!(v.sqrt_in_place(), Err(MpcError::ProtocolUnsupported));
    assert_eq!(v, MpcField::from_u64(4));
}

#[test]
fn error_names() {
    assert_eq!(MpcError::ChannelTransport.name(), "ChannelTransport");
    assert_eq!(MpcError::Desynchronized.name(), "Desynchronized");
    assert_eq!(MpcError::ProtocolUnsupported.name(), "ProtocolUnsupported");
    assert_eq!(MpcError::SerializationError.name(), "SerializationError");
    assert_eq!(MpcError::AssignmentMissing.name(), "AssignmentMissing");
    assert_eq!(MpcError::NotInvertible.name(), "NotInvertible");
}
