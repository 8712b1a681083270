[package]
name = "mpc_algebra"
version = "0.1.0"
edition = "2021"
publish = false

[dependencies]
ark-ff = "0.3"
ark-ec = "0.3"
ark-serialize = "0.3"
ark-std = "0.3"
ark-poly = "0.3"
ark-poly-commit = "0.3"
ark-relations = "0.3"
ark-bls12-377 = "0.3"
ark-groth16 = "0.3"
ark-marlin = "0.3"
blake2 = "0.9"
structopt = "0.3"
clap = "2"
env_logger = "0.8"
log = "0.4"
rand = "0.8"
