[package]
name = "ldk"
version = "0.1.0"
edition = "2021"
publish = false

[dependencies]
bitcoin = "0.32"
lightning = { version = "0.1", features = ["dnssec"] }
lightning-block-sync = { version = "0.1", features = ["rpc-client", "tokio"] }
lightning-dns-resolver = "0.2"
lightning-net-tokio = "0.1"
lightning-persister = "0.1"
rustyline = "*"
tokio = { version = "1", features = ["io-util", "macros", "rt", "rt-multi-thread", "sync", "net", "time"] }
