[package]
name = "resource_installer"
version = "0.1.0"
edition = "2021"
publish = false

[dependencies]
console = "0.15"
sysinfo = "0.23"
tokio = { version = "1", features = ["macros", "rt-multi-thread", "time"] }
reqwest = { version = "0.11", default-features = false, features = ["rustls-tls"] }
zip = { version = "0.6", default-features = false, features = ["deflate"] }

[dev-dependencies]
regex = "1"
