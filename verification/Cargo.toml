[package]
name = "libguix"
version = "0.1.0"
edition = "2021"
publish = false

[dependencies]
lexpr = "0.2"
indexmap = "2"
tokio = { version = "1", features = ["process", "rt-multi-thread", "macros", "io-util", "sync", "time", "fs", "net"] }
tokio-stream = "0.1"
futures-util = "0.3"
futures-core = "0.3"
nix = { version = "0.29", features = ["signal", "fs", "process"] }
libc = "0.2"
serde = { version = "1", features = ["derive"] }
serde_json = "1"
directories = "5"
tempfile = "3"
vt100 = "0.15"
url = "2"
reqwest = { version = "0.12", default-features = false, features = ["json", "rustls-tls"] }
