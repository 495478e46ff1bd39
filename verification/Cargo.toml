[package]
name = "modelite"
version = "0.1.0"
edition = "2021"
publish = false

[dependencies]
sqlx = { version = "=0.8.6", default-features = false, features = ["sqlite", "runtime-tokio"] }
libsqlite3-sys = "=0.30.1"
syn = "=2.0.119"
quote = "=1.0.47"
proc-macro2 = "=1.0.107"

[dev-dependencies]
tokio = { version = "=1.54.1", features = ["rt"] }
