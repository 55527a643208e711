[package]
name = "volume_changes"
version = "0.1.0"
edition = "2021"
publish = false

[dependencies]
const_soft_float = "=0.1.4"
rustc_apfloat = "=0.2.3+llvm-462a31f5a5ab"
csv = "=1.4.0"
serde = { version = "=1.0.229", features = ["derive"] }
serde_json = "=1.0.151"
clap = { version = "=4.6.7", features = ["derive"] }
log = "=0.4.34"
simple_logger = "=5.2.0"
