[package]
name = "log_utils"
version = "0.1.0"
edition = "2021"
publish = false

[dependencies]
serde = "=1.0.229"
serde_json = "=1.0.154"
time = { version = "=0.3.55", features = ["formatting"] }
gethostname = "=1.1.0"
tracing = "=0.1.44"
tracing-subscriber = "=0.3.23"
cargo_metadata = "=0.23.1"
vergen-gix = { version = "=1.0.9", features = ["build", "cargo", "rustc"] }
kstring = ">=2.0.0, <=2.0.2"
vergen = ">=9.0.5, <9.1.0"
