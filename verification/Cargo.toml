[package]
name = "tp_parseur_io"
version = "0.1.0"
edition = "2021"
publish = false

[dependencies]
chrono = "0.4"
sysinfo = "0.30"
thiserror = "1"
