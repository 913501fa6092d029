[package]
name = "non_hiding_kzg"
version = "0.1.0"
edition = "2021"
publish = false

[dependencies]
ff = "=0.13.1"
group = "=0.13.0"
halo2curves = "=0.4.0"
pairing = "=0.23.0"
rand = "=0.8.8"
rand_core = "=0.6.4"
rayon = "=1.12.0"
