[package]
name = "wtf_rlsr"
version = "0.1.0"
edition = "2021"
publish = false

[dependencies]
pathdiff = "*"
semver = "*"
git2 = "*"
dialoguer = "*"
console = "*"
colored = "*"
structopt = "*"
log = "*"
serde_json = "*"
glob = "*"
