[package]
name = "jingle"
version = "0.1.0"
edition = "2021"
publish = false

[dependencies]
jingle_sleigh = "*"
z3 = "*"
serde = { version = "1", features = ["derive"] }
thiserror = "*"
petgraph = "*"
im = "*"
internment = "*"
tracing = "*"
clap = { version = "4", features = ["derive"] }
confy = "*"
