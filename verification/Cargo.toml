[package]
name = "panoramix"
version = "0.1.0"
edition = "2021"
publish = false

[dependencies]
druid = "=0.8.3"
either = "=1.19.0"
tracing = "=0.1.44"
tracing-subscriber = { version = "=0.3.23", features = ["env-filter"] }
tracing-unwrap = "=1.0.1"
derivative = "=2.2.0"
log = "=0.4.35"
syn = { version = "=1.0.109", features = ["full"] }
quote = "=1.0.47"
proc-macro2 = "=1.0.107"
