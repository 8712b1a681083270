use mpc_algebra::channel::Channel;
use mpc_algebra::channel::Stats;
use mpc_algebra::driver::Computation;
use mpc_algebra::driver::FieldOpt;
use mpc_algebra::driver::PartyInfo;
use mpc_algebra::driver::Procedure;
use mpc_algebra::driver::ProofSystem;

fn party(n: u8) -> PartyInfo {
    PartyInfo {
        host: "localhost".to_string(),
        port: 8000,
        peer_host: "localhost".to_string(),
        peer_port: 8001,
        party: n,
    }
}

#[test]
fn the_first_ipv4_address_is_picked() {
    assert_eq!(PartyInfo::pick_address(&[]), None);
    assert_eq!(PartyInfo::pick_address(&[false, false]), None);
    assert_eq!(PartyInfo::pick_address(&[true]), Some(0));
    assert_eq!(PartyInfo::pick_address(&[false, true, true]), Some(1));
    assert_eq!(PartyInfo::pick_address(&[false, false, true]), Some(2));
}

#[test]
fn party_zero_is_the_first() {
    assert!(party(0).setup().am_first());
    assert!(!party(1).setup().am_first());
    assert!(!party(7).setup().am_first());
    let mut ch = party(0).setup();
    ch.send(&[1, 2, 3]);
    assert_eq!(
        party(0).teardown(ch),
        Stats { bytes_sent: 3, bytes_recv: 0, exchanges: 0 }
    );
}

#[test]
fn only_a_joint_run_has_a_channel() {
    let mpc = FieldOpt::Mpc { party_info: party(1) };
    let ch = mpc.setup().unwrap();
    assert!(!ch.am_first());
    assert_eq!(
        mpc.teardown(Some(ch)),
        Some(Stats { bytes_sent: 0, bytes_recv: 0, exchanges: 0 })
    );
    assert_eq!(mpc.teardown(None), None);
    assert!(FieldOpt::Local.setup().is_none());
    assert!(FieldOpt::ArkLocal.setup().is_none());
    assert_eq!(FieldOpt::Local.teardown(None), None);
    assert_eq!(FieldOpt::Local.teardown(Some(Channel::init(true))), None);
}

#[test]
fn every_combination_has_its_procedure_but_one() {
    let mpc = FieldOpt::Mpc { party_info: party(0) };
    assert_eq!(mpc.procedure(ProofSystem::Groth16), Some(Procedure::GrothMpc));
    assert_eq!(mpc.procedure(ProofSystem::Marlin), Some(Procedure::MarlinMpc));
    assert_eq!(FieldOpt::Local.procedure(ProofSystem::Groth16), Some(Procedure::GrothLocal));
    assert_eq!(FieldOpt::Local.procedure(ProofSystem::Marlin), Some(Procedure::MarlinLocal));
    assert_eq!(FieldOpt::ArkLocal.procedure(ProofSystem::Groth16), Some(Procedure::GrothLocalArk));
    assert_eq!(FieldOpt::ArkLocal.procedure(ProofSystem::Marlin), None);
}

#[test]
fn a_run_follows_the_procedure_of_its_combination() {
    let run = |f: &FieldOpt, p: ProofSystem| f.run(Computation::Squaring, p, 10).procedure;
    let mpc = FieldOpt::Mpc { party_info: party(0) };
    assert_eq!(run(&mpc, ProofSystem::Groth16), Procedure::GrothMpc);
    assert_eq!(run(&mpc, ProofSystem::Marlin), Procedure::MarlinMpc);
    assert_eq!(run(&FieldOpt::Local, ProofSystem::Groth16), Procedure::GrothLocal);
    assert_eq!(run(&FieldOpt::Local, ProofSystem::Marlin), Procedure::MarlinLocal);
    assert_eq!(run(&FieldOpt::ArkLocal, ProofSystem::Groth16), Procedure::GrothLocalArk);
}

#[test]
fn a_plan_carries_the_channel_and_the_size() {
    let plan =
        FieldOpt::Mpc { party_info: party(0) }.run(Computation::Squaring, ProofSystem::Groth16, 5);
    assert_eq!(plan.computation_size, 5);
    assert!(plan.channel.unwrap().am_first());
    let plan = FieldOpt::Local.run(Computation::Squaring, ProofSystem::Marlin, 0);
    assert_eq!(plan.computation_size, 0);
    assert!(plan.channel.is_none());
}
