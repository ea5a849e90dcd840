[package]
name = "fasb"
version = "0.1.0"
edition = "2021"
publish = false

[dependencies]
clingo = { version = "0.7", features = ["static-linking"] }
hashbrown = "0.12"
indicatif = "0.16"
itertools = "0.10"
lazy_static = "1"
lru = "0.7"
ncurses = "5"
num_cpus = "1"
pest = "2"
pest_derive = "2"
rand = "0.8"
rug = { version = "1", default-features = false, features = ["integer"] }
thiserror = "1"
