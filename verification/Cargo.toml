[package]
name = "path_validators"
version = "0.1.0"
edition = "2021"
publish = false

[dependencies]
anyhow = "1"
faccess = "0.2"
log = "0.4"
stderrlog = "0.5"
structopt = "0.3"
