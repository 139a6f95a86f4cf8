[package]
name = "webterm"
version = "0.1.0"
edition = "2021"
publish = false

[dependencies]
base64 = "=0.13.1"
env_logger = "=0.8.4"
libc = "=0.2.191"
log = "=0.4.34"
nix = "=0.20.2"
pam-client = "=0.4.0"
structopt = "=0.3.26"
tokio = { version = "=1.54.1", features = ["rt", "net", "io-util", "macros", "time"] }
