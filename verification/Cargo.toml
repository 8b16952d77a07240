[package]
name = "git_hooks"
version = "0.1.0"
edition = "2021"
publish = false

[dependencies]
anyhow = "1"
colored = "2"
num_cpus = "1"
regex = "1"
structopt = "0.3"
