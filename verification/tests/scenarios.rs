use mpc_algebra::beaver::BeaverSource;
use mpc_algebra::beaver::DummyScalarTripleSource;
use mpc_algebra::channel::Channel;
use mpc_algebra::error::MpcError;
use mpc_algebra::field::Fr;
use mpc_algebra::protocol::Pending;
use mpc_algebra::protocol::Step;
use mpc_algebra::share::AdditiveShare;
use mpc_algebra::wire::MpcField;

/// The two ends of one connection.
struct Pair {
    first: Channel,
    second: Channel,
}

impl Pair {
    fn new() -> Pair {
        Pair { first: Channel::init(true), second: Channel::init(false) }
    }

    /// Runs the steps of the two parties against each other.
    fn run(&mut self, s0: Step, s1: Step) -> (Result<MpcField, MpcError>, Result<MpcField, MpcError>) {
        let mut s0 = s0;
        let mut s1 = s1;
        loop {
            match (s0, s1) {
                (Step::Done(v0), Step::Done(v1)) => return (Ok(v0), Ok(v1)),
                (Step::Exchange(p0), Step::Exchange(p1)) => {
                    let f0 = self.first.outgoing(&p0);
                    let f1 = self.second.outgoing(&p1);
                    let n0 = self.first.incoming(p0, &f1);
                    let n1 = self.second.incoming(p1, &f0);
                    match (n0, n1) {
                        (Ok(a), Ok(b)) => {
                            s0 = a;
                            s1 = b;
                        }
                        (a, b) => return (a.map(|_| MpcField::zero()), b.map(|_| MpcField::zero())),
                    }
                }
                _ => panic!("the parties' tags disagree"),
            }
        }
    }

    /// Runs the steps and expects both parties to finish.
    fn finish(&mut self, s0: Step, s1: Step) -> (MpcField, MpcField) {
        let (a, b) = self.run(s0, s1);
        (a.unwrap(), b.unwrap())
    }

    fn exchanges(&self) -> u64 {
        assert_eq!(self.first.stats().exchanges, self.second.stats().exchanges);
        self.first.stats().exchanges
    }
}

fn public(x: u64) -> MpcField {
    MpcField::from_public(Fr::from_u64(x))
}

fn shared(x: u64) -> MpcField {
    MpcField::from_add_shared(Fr::from_u64(x))
}

#[test]
fn public_add_mul() {
    let mut pair = Pair::new();
    let mut src0 = DummyScalarTripleSource::new(true);
    let mut src1 = DummyScalarTripleSource::new(false);
    let compute = |first: bool, src: &mut DummyScalarTripleSource| {
        let a = public(3);
        let b = public(5);
        let ab = a.mul(b, src).finished().unwrap();
        ab.add(a, first)
    };
    let r0 = compute(true, &mut src0);
    let r1 = compute(false, &mut src1);
    assert_eq!(pair.exchanges(), 0);
    let (v0, v1) = pair.finish(r0.reveal_value(true), r1.reveal_value(true));
    assert_eq!(v0, public(18));
    assert_eq!(v1, public(18));
    // the check of the revealed value is the only exchange
    assert_eq!(pair.exchanges(), 1);
    assert_eq!(pair.first.stats().bytes_sent, 32);
    assert_eq!(pair.first.stats().bytes_recv, 32);
}

#[test]
fn shared_add() {
    let mut pair = Pair::new();
    let a0 = shared(10);
    let a1 = shared(7);
    let b = public(4);
    let r0 = a0.add(b, true);
    let r1 = a1.add(b, false);
    assert!(r0.is_shared() && r1.is_shared());
    assert_eq!(r0, shared(14));
    assert_eq!(r1, shared(7));
    let (v0, v1) = pair.finish(r0.reveal_value(true), r1.reveal_value(true));
    assert_eq!(v0, public(21));
    assert_eq!(v1, public(21));
    // one round to open and one to check
    assert_eq!(pair.exchanges(), 2);
}

#[test]
fn shared_mul_beaver() {
    let mut pair = Pair::new();
    let mut src0 = DummyScalarTripleSource::new(true);
    let mut src1 = DummyScalarTripleSource::new(false);
    let s0 = shared(2).mul(shared(3), &mut src0);
    let s1 = shared(5).mul(shared(4), &mut src1);
    let (p0, p1) = pair.finish(s0, s1);
    assert!(p0.is_shared() && p1.is_shared());
    assert_eq!(pair.exchanges(), 1);
    let (v0, v1) = pair.finish(p0.reveal_value(true), p1.reveal_value(true));
    assert_eq!(v0, public(49));
    assert_eq!(v1, public(49));
    assert_eq!(pair.exchanges(), 3);
    // the multiplication round carries two elements each way
    assert_eq!(pair.first.stats().bytes_sent, 64 + 32 + 32);
}

#[test]
fn shared_inversion() {
    let mut pair = Pair::new();
    let mut src0 = DummyScalarTripleSource::new(true);
    let mut src1 = DummyScalarTripleSource::new(false);
    let a0 = shared(1);
    let a1 = shared(6);
    let (i0, i1) = pair.finish(a0.inv(&mut src0).unwrap(), a1.inv(&mut src1).unwrap());
    assert_eq!(pair.exchanges(), 2);
    let (m0, m1) = pair.finish(a0.mul(i0, &mut src0), a1.mul(i1, &mut src1));
    let (v0, v1) = pair.finish(m0.reveal_value(true), m1.reveal_value(true));
    assert_eq!(v0, public(1));
    assert_eq!(v1, public(1));
    // the inverse of 7 itself
    let (w0, w1) = pair.finish(i0.reveal_value(false), i1.reveal_value(false));
    assert_eq!(w0, MpcField::from_public(Fr::from_u64(7).inverse().unwrap()));
    assert_eq!(w1, w0);
}

#[test]
fn desync_detection() {
    let mut pair = Pair::new();
    // the second party's share is corrupted after the values were shared
    let x0 = shared(10);
    let x1 = shared(7);
    let corrupted = shared(8);
    let (v0, v1) = pair.finish(x0.publicize(false), x1.publicize(false));
    assert_eq!(v0, public(17));
    assert_eq!(v1, public(17));
    let (w0, _) = pair.finish(x0.publicize(false), corrupted.publicize(false));
    assert_eq!(w0, public(18));
    // party 0 holds 17 where party 1 holds 18: the check aborts both
    let (r0, r1) = pair.run(v0.publicize(true), w0.publicize(true));
    assert_eq!(r0, Err(MpcError::Desynchronized));
    assert_eq!(r1, Err(MpcError::Desynchronized));
    let c0 = Channel::check_eq(Fr::from_u64(17));
    let c1 = Channel::check_eq(Fr::from_u64(18));
    assert_eq!(c0.resume(&c1.payload(), true), Err(MpcError::Desynchronized));
    assert_eq!(
        c0.resume(&c0.payload(), true),
        Ok(Step::Done(public(17)))
    );
}

#[test]
fn linear_operations_are_local_and_keep_both_tags_in_step() {
    let k = Fr::from_u64(6);
    for first in [true, false] {
        let s = shared(5);
        let t = shared(9);
        assert_eq!(s.add(t, first), shared(14));
        assert_eq!(s.sub(t, first), MpcField::from_add_shared(Fr::from_u64(4).neg()));
        assert_eq!(s.neg(), MpcField::from_add_shared(Fr::from_u64(5).neg()));
        assert_eq!(s.scale(&k), shared(30));
        let mut src = DummyScalarTripleSource::new(first);
        assert_eq!(public(6).mul(s, &mut src), Step::Done(shared(30)));
        assert_eq!(s.mul(public(6), &mut src), Step::Done(shared(30)));
        assert_eq!(public(6).mul(public(7), &mut src), Step::Done(public(42)));
    }
    // a public summand goes to the first party's share only
    assert_eq!(shared(5).add(public(3), true), shared(8));
    assert_eq!(shared(5).add(public(3), false), shared(5));
    assert_eq!(public(3).add(shared(5), true), shared(8));
    assert_eq!(public(3).sub(shared(5), true), MpcField::from_add_shared(Fr::from_u64(2).neg()));
    assert_eq!(public(3).sub(shared(5), false), MpcField::from_add_shared(Fr::from_u64(5).neg()));
    assert_eq!(shared(5).sub(public(3), true), shared(2));
    assert_eq!(shared(5).sub(public(3), false), shared(5));
}

#[test]
fn publicize_of_a_public_value_takes_no_round() {
    let v = public(11);
    assert_eq!(v.publicize(false), Step::Done(v));
    assert_eq!(v.publicize(true), Step::Exchange(Pending::Check { value: Fr::from_u64(11) }));
    let mut pair = Pair::new();
    let (a, b) = pair.finish(v.publicize(false), v.publicize(false));
    assert_eq!((a, b), (v, v));
    assert_eq!(pair.exchanges(), 0);
}

#[test]
fn public_constants_are_neutral() {
    let mut src = DummyScalarTripleSource::new(true);
    for first in [true, false] {
        for x in [public(9), shared(9)] {
            assert_eq!(MpcField::zero().add(x, first), x);
            assert_eq!(x.add(MpcField::zero(), first), x);
            assert_eq!(MpcField::one().mul(x, &mut src), Step::Done(x));
            assert_eq!(x.mul(MpcField::one(), &mut src), Step::Done(x));
        }
    }
}

#[test]
fn double_is_add_self() {
    for first in [true, false] {
        for x in [public(21), shared(21)] {
            assert_eq!(x.double(), x.add(x, first));
        }
    }
    let mut y = shared(4);
    y.double_in_place();
    assert_eq!(y, shared(8));
}

#[test]
fn round_trips() {
    let mut pair = Pair::new();
    let v = public(1234);
    let (a, b) = pair.finish(v.reveal_value(false), v.reveal_value(false));
    assert_eq!(a.publicize(false).revealed(), Some(Fr::from_u64(1234)));
    assert_eq!(b, v);
    assert_eq!(pair.exchanges(), 0);
    let (a, b) = pair.finish(shared(1000).reveal_value(false), shared(234).reveal_value(false));
    assert_eq!(a, v);
    assert_eq!(b, v);
    assert_eq!(pair.exchanges(), 1);
}

#[test]
fn division_by_tags() {
    let mut pair = Pair::new();
    let mut src0 = DummyScalarTripleSource::new(true);
    let mut src1 = DummyScalarTripleSource::new(false);
    // public by public
    assert_eq!(public(42).div(public(6), &mut src0), Step::Done(public(7)));
    // shared by public
    let (q0, q1) = pair.finish(shared(30).div(public(6), &mut src0), shared(12).div(public(6), &mut src1));
    assert_eq!(pair.exchanges(), 0);
    let (v0, _) = pair.finish(q0.reveal_value(false), q1.reveal_value(false));
    assert_eq!(v0, public(7));
    // public by shared: 42 / (2 + 4)
    let mut pair = Pair::new();
    let (q0, q1) = pair.finish(public(42).div(shared(2), &mut src0), public(42).div(shared(4), &mut src1));
    assert_eq!(pair.exchanges(), 2);
    let (v0, v1) = pair.finish(q0.reveal_value(false), q1.reveal_value(false));
    assert_eq!(v0, public(7));
    assert_eq!(v1, public(7));
    // shared by shared: (40 + 2) / (2 + 4)
    let mut pair = Pair::new();
    let (q0, q1) = pair.finish(shared(40).div(shared(2), &mut src0), shared(2).div(shared(4), &mut src1));
    assert_eq!(pair.exchanges(), 3);
    let (v0, v1) = pair.finish(q0.reveal_value(false), q1.reveal_value(false));
    assert_eq!(v0, public(7));
    assert_eq!(v1, public(7));
}

#[test]
fn inverse_of_zero() {
    let mut src0 = DummyScalarTripleSource::new(true);
    let mut src1 = DummyScalarTripleSource::new(false);
    assert_eq!(public(0).inv(&mut src0), None);
    assert_eq!(public(0).inverse(&mut src0), None);
    assert_eq!(
        public(4).inv(&mut src0),
        Some(Step::Done(MpcField::from_public(Fr::from_u64(4).inverse().unwrap())))
    );
    // shares of zero: 5 and -5
    let mut pair = Pair::new();
    let z0 = shared(5);
    let z1 = MpcField::from_add_shared(Fr::from_u64(5).neg());
    let (r0, r1) = pair.run(z0.inv(&mut src0).unwrap(), z1.inv(&mut src1).unwrap());
    assert_eq!(r0, Err(MpcError::NotInvertible));
    assert_eq!(r1, Err(MpcError::NotInvertible));
}

#[test]
fn malformed_replies_are_refused() {
    let open = Pending::Open { share: AdditiveShare::from_add_shared(Fr::from_u64(1)), check: false };
    assert_eq!(open.resume(&[0u8; 31], true), Err(MpcError::ChannelTransport));
    assert_eq!(open.resume(&[0u8; 64], true), Err(MpcError::ChannelTransport));
    assert_eq!(open.resume(&[0xffu8; 32], true), Err(MpcError::SerializationError));
    assert_eq!(open.resume(&[0u8; 32], true), Ok(Step::Done(public(1))));

    let mut src = DummyScalarTripleSource::new(true);
    let mul = match shared(2).mul(shared(3), &mut src) {
        Step::Exchange(p) => p,
        Step::Done(_) => panic!("a product of shares needs a round"),
    };
    assert_eq!(mul.payload().len(), 64);
    assert_eq!(mul.resume(&[0u8; 32], true), Err(MpcError::ChannelTransport));
    let mut bad = vec![0u8; 64];
    bad[63] = 0xff;
    assert_eq!(mul.resume(&bad, true), Err(MpcError::SerializationError));
}

#[test]
fn set_shared_flips_the_tag_and_keeps_the_number() {
    let mut v = public(5);
    v.set_shared(false);
    assert_eq!(v, public(5));
    v.set_shared(true);
    assert_eq!(v, shared(5));
    assert!(v.is_shared());
    v.set_shared(true);
    assert_eq!(v, shared(5));
    v.set_shared(false);
    assert_eq!(v, public(5));
    assert!(!v.is_shared());
    assert_eq!(shared(9).unwrap_as_public(), Fr::from_u64(9));
    assert_eq!(MpcField::new(Fr::from_u64(3), true), shared(3));
    assert_eq!(MpcField::new(Fr::from_u64(3), false), public(3));
}

#[test]
fn dummy_source_hands_out_ones_to_the_first_party() {
    let one = AdditiveShare::from_add_shared(Fr::one());
    let zero = AdditiveShare::from_add_shared(Fr::zero());
    let mut first = DummyScalarTripleSource::new(true);
    let mut second = DummyScalarTripleSource::new(false);
    assert_eq!(first.triple(), (one, one, one));
    assert_eq!(second.triple(), (zero, zero, zero));
    assert_eq!(first.inv_pair(), (one, one));
    assert_eq!(second.inv_pair(), (zero, zero));
    assert_eq!(first.triple(), (one, one, one));
}
