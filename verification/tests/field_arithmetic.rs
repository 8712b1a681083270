use mpc_algebra::field::Fr;

// The field order minus one, as limbs.
fn minus_one() -> Fr {
    Fr::from_repr([
        725501752471715840,
        6461107452199829505,
        6968279316240510977,
        1345280370688173398,
    ])
    .unwrap()
}

#[test]
fn from_repr_accepts_below_the_order_only() {
    let order = [
        725501752471715841u64,
        6461107452199829505,
        6968279316240510977,
        1345280370688173398,
    ];
    assert!(Fr::from_repr(order).is_none());
    assert!(Fr::from_repr([u64::MAX; 4]).is_none());
    assert!(Fr::from_repr([0, 0, 0, 1345280370688173399]).is_none());
    let top = minus_one();
    assert_eq!(top.into_repr()[0], 725501752471715840);
    assert_eq!(Fr::from_repr([7, 0, 0, 0]).unwrap(), Fr::from_u64(7));
}

#[test]
fn addition_wraps_at_the_order() {
    assert_eq!(Fr::from_u64(3).add(&Fr::from_u64(5)), Fr::from_u64(8));
    assert_eq!(minus_one().add(&Fr::one()), Fr::zero());
    assert_eq!(minus_one().add(&Fr::from_u64(5)), Fr::from_u64(4));
    assert_eq!(Fr::from_u64(u64::MAX).add(&Fr::one()).into_repr(), [0, 1, 0, 0]);
}

#[test]
fn subtraction_wraps_below_zero() {
    assert_eq!(Fr::from_u64(5).sub(&Fr::from_u64(3)), Fr::from_u64(2));
    assert_eq!(Fr::zero().sub(&Fr::one()), minus_one());
    assert_eq!(Fr::from_u64(3).sub(&Fr::from_u64(5)).add(&Fr::from_u64(2)), Fr::zero());
}

#[test]
fn negation_is_the_additive_inverse() {
    assert_eq!(Fr::zero().neg(), Fr::zero());
    assert_eq!(Fr::one().neg(), minus_one());
    assert_eq!(Fr::from_u64(42).neg().add(&Fr::from_u64(42)), Fr::zero());
}

#[test]
fn multiplication_reduces() {
    assert_eq!(Fr::from_u64(3).mul(&Fr::from_u64(5)), Fr::from_u64(15));
    assert_eq!(minus_one().mul(&minus_one()), Fr::one());
    assert_eq!(
        Fr::from_u64(u64::MAX).mul(&Fr::from_u64(u64::MAX)).into_repr(),
        [1, u64::MAX - 1, 0, 0]
    );
    assert_eq!(Fr::from_u64(9).mul(&Fr::zero()), Fr::zero());
}

#[test]
fn inverse_of_zero_is_none_and_others_multiply_to_one() {
    assert!(Fr::zero().inverse().is_none());
    assert_eq!(Fr::one().inverse().unwrap(), Fr::one());
    let two = Fr::from_u64(2);
    let half = two.inverse().unwrap();
    assert_eq!(half.mul(&two), Fr::one());
    // (q + 1) / 2
    assert_eq!(
        half.into_repr(),
        [
            9586122913090633729,
            12453925762954690560,
            3484139658120255488,
            672640185344086699
        ]
    );
    assert_eq!(minus_one().inverse().unwrap(), minus_one());
}

#[test]
fn is_zero_and_same_compare_values() {
    assert!(Fr::zero().is_zero());
    assert!(!Fr::one().is_zero());
    assert!(Fr::from_u64(7).same(&Fr::from_u64(7)));
    assert!(!Fr::from_u64(7).same(&Fr::from_u64(8)));
    assert!(!Fr::from_repr([0, 1, 0, 0]).unwrap().is_zero());
}

#[test]
fn wire_form_is_32_little_endian_bytes() {
    let mut out = vec![0xffu8];
    Fr::from_u64(0x0102030405060708).write_to(&mut out);
    let mut expected = vec![0xffu8, 8, 7, 6, 5, 4, 3, 2, 1];
    expected.extend(vec![0u8; 24]);
    assert_eq!(out, expected);

    let mut top = Vec::new();
    minus_one().write_to(&mut top);
    assert_eq!(top.len(), 32);
    assert_eq!(top[0], 0x00);
    assert_eq!(top[31], 0x12);
}

#[test]
fn reading_accepts_canonical_encodings_only() {
    let mut bytes = Vec::new();
    Fr::from_u64(258).write_to(&mut bytes);
    assert_eq!(Fr::read_from(&bytes), Some(Fr::from_u64(258)));
    assert_eq!(Fr::read_from(&bytes[..31]), None);
    bytes.push(0);
    assert_eq!(Fr::read_from(&bytes), None);

    // the order itself is not canonical
    let mut order = Vec::new();
    minus_one().write_to(&mut order);
    assert_eq!(Fr::read_from(&order), Some(minus_one()));
    order[0] = 0x01;
    assert_eq!(Fr::read_from(&order), None);
    assert_eq!(Fr::read_from(&[0xffu8; 32]), None);
    assert_eq!(Fr::read_from(&[0u8; 32]), Some(Fr::zero()));
}

#[test]
fn canonical_views_cost_nothing() {
    let x = minus_one();
    x.canonical_view();
    assert_eq!(x, minus_one());
    let s = mpc_algebra::share::AdditiveShare::from_add_shared(x);
    s.canonical_view();
    assert_eq!(s.unwrap_as_public(), x);
    let v = mpc_algebra::wire::MpcField::Shared(s);
    v.canonical_view();
    mpc_algebra::wire::MpcField::from_public(x).canonical_view();
    assert_eq!(v.unwrap_as_public(), x);
}
