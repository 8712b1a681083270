use mpc_algebra::curve::Parameters;
use mpc_algebra::curve::G1_GENERATOR_X;
use mpc_algebra::curve::G1_GENERATOR_Y;

#[test]
fn coefficients() {
    let mut a = [0u64; 13];
    a[0] = 5;
    assert_eq!(Parameters::coeff_a(), a);
    let b = Parameters::coeff_b();
    assert_eq!(b[0], 0xaefe9e08c2e171de);
    assert_eq!(b[12], 0x2cb2);
}

#[test]
fn cofactor_and_its_inverse() {
    assert_eq!(
        Parameters::cofactor(),
        [
            0x5657b9b57b942344,
            0x84f9a65f3bd54eaf,
            0x5ea4214e35cd127,
            0xe3cbcbc14ec1501d,
            0xf196cb845a3092ab,
            0x7e14627ad0e19017,
            0x217db4,
        ]
    );
    let inv = Parameters::cofactor_inv();
    assert_eq!(inv[0], 0x8ab71af5000c227c);
    assert_eq!(inv[5], 0x10f92a023250aba);
}

#[test]
fn generator() {
    let (x, y) = Parameters::affine_generator_coeffs();
    assert_eq!(x, G1_GENERATOR_X);
    assert_eq!(y, G1_GENERATOR_Y);
    assert_eq!(x[0], 0x290019736917c00e);
    assert_eq!(x[12], 0xddd);
    assert_eq!(y[0], 0xd2e1f08d97bf422b);
    assert_eq!(y[12], 0x13e8);
    assert_eq!(Parameters, Parameters::default());
}
