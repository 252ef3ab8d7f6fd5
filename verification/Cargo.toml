[package]
name = "host_telemetry"
version = "0.1.0"
edition = "2021"
publish = false

[dependencies]
clap = { version = "*", features = ["derive"] }
log = "*"
sysinfo = "*"
tokio = { version = "*", features = ["macros", "rt-multi-thread", "time"] }
