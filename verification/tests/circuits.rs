use mpc_algebra::beaver::DummyScalarTripleSource;
use mpc_algebra::circuit::RepeatedSquaringCircuit;
use mpc_algebra::circuit::SquareConstraint;
use mpc_algebra::dealing::mpc_squaring_circuit;
use mpc_algebra::dealing::read_all;
use mpc_algebra::dealing::write_all;
use mpc_algebra::error::MpcError;
use mpc_algebra::field::Fr;
use mpc_algebra::groth;
use mpc_algebra::marlin;
use mpc_algebra::squarings::MpcJob;
use mpc_algebra::squarings::MpcProgress;
use mpc_algebra::squarings::MpcRun;
use mpc_algebra::squarings::SquaringProgress;
use mpc_algebra::wire::MpcField;

fn chain_of(start: u64, values: &[u64]) -> RepeatedSquaringCircuit<Fr> {
    let c = RepeatedSquaringCircuit::<Fr>::from_start(Fr::from_u64(start), values.len() - 1);
    for (i, v) in values.iter().enumerate() {
        assert_eq!(c.value(i), Some(Fr::from_u64(*v)));
    }
    c
}

#[test]
fn without_data_has_the_shape_only() {
    let c = RepeatedSquaringCircuit::<Fr>::without_data(3);
    assert_eq!(c.len(), 4);
    assert_eq!(c.squarings(), 3);
    for i in 0..4 {
        assert_eq!(c.value(i), None);
    }
    assert_eq!(c.witness(), Err(MpcError::AssignmentMissing));
    assert_eq!(c.public_input(), Err(MpcError::AssignmentMissing));
    assert!(!c.is_satisfied());
    let none = RepeatedSquaringCircuit::<Fr>::without_data(0);
    assert_eq!(none.len(), 1);
    assert_eq!(none.squarings(), 0);
    assert_eq!(none.constraints(), vec![]);
}

#[test]
fn from_start_squares_repeatedly() {
    let c = chain_of(3, &[3, 9, 81, 6561, 43046721]);
    assert_eq!(c.squarings(), 4);
    assert!(c.is_satisfied());
    assert_eq!(c.public_input(), Ok(Fr::from_u64(43046721)));
    assert_eq!(
        c.witness(),
        Ok(vec![Fr::from_u64(3), Fr::from_u64(9), Fr::from_u64(81), Fr::from_u64(6561)])
    );
    let single = chain_of(7, &[7]);
    assert_eq!(single.witness(), Ok(vec![]));
    assert_eq!(single.public_input(), Ok(Fr::from_u64(7)));
}

#[test]
fn constraints_link_each_value_to_the_next() {
    let c = chain_of(2, &[2, 4, 16]);
    assert_eq!(
        c.constraints(),
        vec![SquareConstraint { root: 0, square: 1 }, SquareConstraint { root: 1, square: 2 }]
    );
}

#[test]
fn from_chain_takes_the_values_as_they_are() {
    let good =
        RepeatedSquaringCircuit::from_chain(vec![Fr::from_u64(2), Fr::from_u64(4), Fr::from_u64(16)]);
    assert!(good.is_satisfied());
    assert_eq!(good.squarings(), 2);
    let bad =
        RepeatedSquaringCircuit::from_chain(vec![Fr::from_u64(2), Fr::from_u64(4), Fr::from_u64(17)]);
    assert!(!bad.is_satisfied());
    assert_eq!(bad.public_input(), Ok(Fr::from_u64(17)));
    let empty = RepeatedSquaringCircuit::<Fr>::from_chain(vec![]);
    assert_eq!(empty.len(), 0);
    assert!(empty.is_satisfied());
    assert_eq!(empty.constraints(), vec![]);
}

#[test]
fn element_vectors_on_the_wire() {
    let elems = vec![Fr::from_u64(1), Fr::from_u64(258)];
    let bytes = write_all(&elems);
    assert_eq!(bytes.len(), 64);
    assert_eq!(bytes[0], 1);
    assert_eq!(&bytes[32..35], &[2, 1, 0]);
    assert_eq!(read_all(&bytes, 2), Ok(elems));
    assert_eq!(read_all(&bytes, 1), Err(MpcError::ChannelTransport));
    assert_eq!(read_all(&bytes, 3), Err(MpcError::ChannelTransport));
    assert_eq!(read_all(&bytes[..63], 2), Err(MpcError::ChannelTransport));
    assert_eq!(read_all(&[], 0), Ok(vec![]));
    let mut bad = bytes.clone();
    bad[63] = 0xff;
    assert_eq!(read_all(&bad, 2), Err(MpcError::SerializationError));
}

#[test]
fn dealing_splits_the_chain_into_shares() {
    let masks = vec![Fr::from_u64(100), Fr::from_u64(200), Fr::from_u64(300)];
    let start = Fr::from_u64(3);
    let d0 = mpc_squaring_circuit(start, 2, &masks, true);
    let d1 = mpc_squaring_circuit(start, 2, &masks, false);
    let out0 = d0.payload();
    let out1 = d1.payload();
    assert_eq!(out1, vec![0u8; 96]);
    assert_eq!(
        read_all(&out0, 3),
        Ok(vec![Fr::from_u64(100).neg(), Fr::from_u64(200).neg(), Fr::from_u64(300).neg()])
    );
    let c0 = d0.finish(&out1).unwrap();
    let c1 = d1.finish(&out0).unwrap();
    let expected = [3u64, 9, 81];
    let own = [103u64, 209, 381];
    for i in 0..3 {
        let s0 = c0.value(i).unwrap();
        let s1 = c1.value(i).unwrap();
        assert!(s0.is_shared() && s1.is_shared());
        assert_eq!(s0, MpcField::from_add_shared(Fr::from_u64(own[i])));
        assert_eq!(
            s0.unwrap_as_public().add(&s1.unwrap_as_public()),
            Fr::from_u64(expected[i])
        );
    }
}

#[test]
fn a_deal_refuses_a_malformed_reply() {
    let masks = vec![Fr::from_u64(1), Fr::from_u64(2)];
    let d = mpc_squaring_circuit(Fr::from_u64(3), 1, &masks, false);
    assert_eq!(d.finish(&[0u8; 32]).err(), Some(MpcError::ChannelTransport));
    let d = mpc_squaring_circuit(Fr::from_u64(3), 1, &masks, true);
    assert_eq!(d.finish(&[0xffu8; 64]).err(), Some(MpcError::SerializationError));
}

/// Runs the chains of two parties against each other and counts the rounds.
fn run_chains(
    p0: SquaringProgress,
    p1: SquaringProgress,
    src0: &mut DummyScalarTripleSource,
    src1: &mut DummyScalarTripleSource,
) -> (Vec<MpcField>, Vec<MpcField>, usize) {
    let mut p0 = p0;
    let mut p1 = p1;
    let mut rounds = 0;
    loop {
        match (p0, p1) {
            (SquaringProgress::Done(a), SquaringProgress::Done(b)) => return (a, b, rounds),
            (SquaringProgress::Exchange(r0), SquaringProgress::Exchange(r1)) => {
                let m0 = r0.payload();
                let m1 = r1.payload();
                p0 = r0.resume(&m1, true, src0).unwrap();
                p1 = r1.resume(&m0, false, src1).unwrap();
                rounds += 1;
            }
            _ => panic!("the parties are out of step"),
        }
    }
}

#[test]
fn repeated_squaring_of_a_shared_value() {
    let mut src0 = DummyScalarTripleSource::new(true);
    let mut src1 = DummyScalarTripleSource::new(false);
    // the value 3 as 1000 and -997
    let a0 = MpcField::from_add_shared(Fr::from_u64(1000));
    let a1 = MpcField::from_add_shared(Fr::from_u64(997).neg());
    let p0 = RepeatedSquaringCircuit::<MpcField>::from_start(a0, 5, &mut src0);
    let p1 = RepeatedSquaringCircuit::<MpcField>::from_start(a1, 5, &mut src1);
    let (c0, c1, rounds) = run_chains(p0, p1, &mut src0, &mut src1);
    assert_eq!(rounds, 5);
    assert_eq!(c0.len(), 6);
    assert_eq!(c1.len(), 6);
    let expected = [3u64, 9, 81, 6561, 43046721, 1853020188851841];
    for i in 0..6 {
        assert!(c0[i].is_shared() && c1[i].is_shared());
        assert_eq!(
            c0[i].unwrap_as_public().add(&c1[i].unwrap_as_public()),
            Fr::from_u64(expected[i])
        );
    }
    let plain = RepeatedSquaringCircuit::<Fr>::from_start(Fr::from_u64(3), 5);
    assert_eq!(plain.public_input(), Ok(Fr::from_u64(1853020188851841)));
    let circuit = RepeatedSquaringCircuit::from_chain(c0);
    assert_eq!(circuit.squarings(), 5);
}

#[test]
fn repeated_squaring_of_a_public_value_is_local() {
    let mut src = DummyScalarTripleSource::new(true);
    match RepeatedSquaringCircuit::<MpcField>::from_start(MpcField::from_u64(2), 3, &mut src) {
        SquaringProgress::Done(chain) => {
            assert_eq!(
                chain,
                vec![
                    MpcField::from_u64(2),
                    MpcField::from_u64(4),
                    MpcField::from_u64(16),
                    MpcField::from_u64(256)
                ]
            );
        }
        SquaringProgress::Exchange(_) => panic!("squaring a public value is local"),
    }
    match RepeatedSquaringCircuit::<MpcField>::from_start(
        MpcField::from_add_shared(Fr::one()),
        0,
        &mut src,
    ) {
        SquaringProgress::Done(chain) => assert_eq!(chain.len(), 1),
        SquaringProgress::Exchange(_) => panic!("nothing is to be squared"),
    }
}

#[test]
fn local_statements() {
    let job = groth::local(Fr::from_u64(3), 2);
    assert_eq!(job.prover, groth::Prover::Own);
    assert_eq!(job.public_inputs, vec![Fr::from_u64(81)]);
    assert!(job.circuit.is_satisfied());
    assert_eq!(job.circuit.squarings(), 2);
    let ark = groth::local_ark(Fr::from_u64(3), 2);
    assert_eq!(ark.prover, groth::Prover::Ark);
    assert_eq!(ark.public_inputs, vec![Fr::from_u64(81)]);
    let (bounds, job) = marlin::local(Fr::from_u64(3), 2).unwrap();
    assert_eq!(job.public_inputs, vec![Fr::from_u64(81)]);
    assert_eq!(
        bounds,
        marlin::MarlinBounds { num_constraints: 2, num_variables: 4, num_non_zero: 6 }
    );
}

#[test]
fn marlin_bounds() {
    assert_eq!(
        marlin::bounds(10),
        Some(marlin::MarlinBounds { num_constraints: 10, num_variables: 12, num_non_zero: 30 })
    );
    assert_eq!(
        marlin::bounds(0),
        Some(marlin::MarlinBounds { num_constraints: 0, num_variables: 2, num_non_zero: 0 })
    );
    assert_eq!(marlin::bounds(usize::MAX), None);
    assert_eq!(marlin::bounds(usize::MAX / 3 + 1), None);
    assert!(marlin::bounds(usize::MAX / 3).is_some());
    assert!(marlin::local(Fr::one(), usize::MAX).is_none());
}

/// Runs the preparations of two parties against each other. Counts the
/// rounds in which a squaring is under way, and the others.
fn run_jobs(
    p0: MpcProgress,
    p1: MpcProgress,
    src0: &mut DummyScalarTripleSource,
    src1: &mut DummyScalarTripleSource,
) -> (MpcJob, MpcJob, usize, usize) {
    let mut p0 = p0;
    let mut p1 = p1;
    let mut squarings = 0;
    let mut others = 0;
    loop {
        match (p0, p1) {
            (MpcProgress::Done(a), MpcProgress::Done(b)) => return (a, b, squarings, others),
            (MpcProgress::Exchange(r0), MpcProgress::Exchange(r1)) => {
                match (&r0, &r1) {
                    (MpcRun::Squaring { .. }, MpcRun::Squaring { .. }) => squarings += 1,
                    (MpcRun::Opening { .. }, MpcRun::Opening { .. }) => others += 1,
                    _ => panic!("the parties are out of step"),
                }
                let m0 = r0.payload();
                let m1 = r1.payload();
                p0 = r0.resume(&m1, true, src0).unwrap();
                p1 = r1.resume(&m0, false, src1).unwrap();
            }
            _ => panic!("the parties are out of step"),
        }
    }
}

#[test]
fn joint_statement_squares_then_opens_the_output() {
    let mut src0 = DummyScalarTripleSource::new(true);
    let mut src1 = DummyScalarTripleSource::new(false);
    // the start value 3 as 1000 and -997
    let share0 = Fr::from_u64(1000);
    let share1 = Fr::from_u64(997).neg();
    let p0 = groth::mpc(share0, 5, true, &mut src0);
    let p1 = groth::mpc(share1, 5, true, &mut src1);
    let (j0, j1, squarings, others) = run_jobs(p0, p1, &mut src0, &mut src1);
    // one round for each squaring, then the opening of the output and its
    // check
    assert_eq!(squarings, 5);
    assert_eq!(others, 2);
    assert_eq!(j0.public_inputs, vec![Fr::from_u64(1853020188851841)]);
    assert_eq!(j1.public_inputs, vec![Fr::from_u64(1853020188851841)]);
    assert_eq!(j0.circuit.squarings(), 5);
    assert_eq!(j0.circuit.value(0), Some(MpcField::from_add_shared(share0)));
    assert_eq!(j1.circuit.value(0), Some(MpcField::from_add_shared(share1)));
    let expected = [3u64, 9, 81, 6561, 43046721, 1853020188851841];
    for i in 0..6 {
        let s0 = j0.circuit.value(i).unwrap();
        let s1 = j1.circuit.value(i).unwrap();
        assert!(s0.is_shared() && s1.is_shared());
        assert_eq!(s0.unwrap_as_public().add(&s1.unwrap_as_public()), Fr::from_u64(expected[i]));
    }
}

#[test]
fn joint_statement_without_squarings_or_check() {
    let mut src0 = DummyScalarTripleSource::new(true);
    let mut src1 = DummyScalarTripleSource::new(false);
    let (b0, p0) = marlin::mpc(Fr::from_u64(4), 2, false, &mut src0).unwrap();
    let (_, p1) = marlin::mpc(Fr::from_u64(6), 2, false, &mut src1).unwrap();
    assert_eq!(b0.num_non_zero, 6);
    let (j0, _, squarings, others) = run_jobs(p0, p1, &mut src0, &mut src1);
    assert_eq!((squarings, others), (2, 1));
    assert_eq!(j0.public_inputs, vec![Fr::from_u64(10000)]);
    // nothing to square: the start value itself is opened
    let p0 = groth::mpc(Fr::from_u64(4), 0, true, &mut src0);
    let p1 = groth::mpc(Fr::from_u64(6), 0, true, &mut src1);
    let (j0, j1, squarings, others) = run_jobs(p0, p1, &mut src0, &mut src1);
    assert_eq!((squarings, others), (0, 2));
    assert_eq!(j0.public_inputs, vec![Fr::from_u64(10)]);
    assert_eq!(j1.circuit.len(), 1);
    assert!(marlin::mpc(Fr::one(), usize::MAX, true, &mut src0).is_none());
}

#[test]
fn a_joint_statement_refuses_a_malformed_reply() {
    let mut src = DummyScalarTripleSource::new(true);
    match groth::mpc(Fr::from_u64(4), 1, true, &mut src) {
        MpcProgress::Exchange(run) => {
            assert_eq!(run.payload().len(), 64);
            assert_eq!(run.resume(&[0u8; 5], true, &mut src).err(), Some(MpcError::ChannelTransport));
        }
        MpcProgress::Done(_) => panic!("a shared square needs a round"),
    }
}
