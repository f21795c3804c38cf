[package]
name = "sched_bench"
version = "0.1.0"
edition = "2021"
publish = false

[dependencies]
itertools = "*"
libc = "*"
plotters = "*"
rand = "*"
rayon = "*"
tokio = { version = "*", features = ["rt-multi-thread", "macros"] }
