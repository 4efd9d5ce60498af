[package]
name = "pie_vm"
version = "0.1.0"
edition = "2021"
publish = false

[dependencies]
chrono = { version = "0.4", default-features = false, features = ["clock"] }
clap = { version = "2.34", default-features = false }
uuid = { version = "1", features = ["v4"] }

[dev-dependencies]
nom = "7"
