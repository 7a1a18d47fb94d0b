[package]
name = "pgutils"
version = "0.1.0"
edition = "2021"
publish = false

[dependencies]
sha2 = "=0.10.9"
tokio-postgres = "=0.7.18"
qp-postgres = "=0.1.1"
futures-util = "=0.3.34"
thiserror = "=1.0.69"
proc-macro2 = "1"
quote = "1"

[dev-dependencies]
regex = "=1.13.1"
