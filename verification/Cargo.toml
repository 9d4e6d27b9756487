[package]
name = "crumpet"
version = "0.1.0"
edition = "2021"
publish = false

[dependencies]
clap = { version = "=4.6.7", features = ["derive"] }
gix = { version = "=0.90.0", default-features = false, features = ["sha1"] }
glob = "=0.3.4"
semver = { version = "=1.0.28", features = ["serde"] }
serde = { version = "=1.0.229", features = ["derive"] }
snafu = "=0.8.9"
tokio = { version = "=1.54.1", features = ["fs", "macros", "rt-multi-thread"] }
