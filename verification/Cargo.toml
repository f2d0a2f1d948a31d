[package]
name = "ray_tracer"
version = "0.1.0"
edition = "2021"
publish = false

[dependencies]
anyhow = "*"
clap = "*"
console = "*"
image = "*"
indicatif = "*"
itertools = "*"
rand = "*"
rayon = "*"
serde = "*"
serde_derive = "*"
serde_yaml = "*"
thiserror = "*"
