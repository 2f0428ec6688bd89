[package]
name = "mold"
version = "0.1.0"
edition = "2021"
publish = false

[dependencies]
atty = "0.2"
colored = "*"
env_logger = "*"
exitfailure = "*"
failure = "*"
git2 = { version = "*", default-features = false }
indexmap = "*"
log = "0.4"
semver = "*"
shell-words = "*"
shellexpand = "*"
spinners = "*"
structopt = "0.3"
url = "*"
which = "*"
