[package]
name = "ctrl_freeq"
version = "0.1.0"
edition = "2021"
publish = false

[dependencies]
serde = { version = "1", features = ["derive"] }
serde_json = "1"
num-complex = "*"
num-traits = "*"
nalgebra = "*"
rand = "*"
rand_distr = "*"
argmin = "*"
bobyqa = "*"
