[package]
name = "halo2_link_circuit"
version = "0.1.0"
edition = "2021"
publish = false

[dependencies]
ff = "=0.14.0"
halo2_proofs = "=0.4.0"
pasta_curves = "=0.6.0"
rand = { version = "=0.10.3", default-features = false, features = ["sys_rng"] }
rand_core = "=0.10.1"
