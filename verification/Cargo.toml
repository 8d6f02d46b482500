[package]
name = "runnel"
version = "0.1.0"
edition = "2021"
publish = false

[dependencies]
adblock = { version = "=0.12.6", default-features = false, features = ["full-regex-handling"] }
anyhow = "=1.0.104"
base64 = "=0.22.1"
clap = { version = "=4.6.7", features = ["derive", "env"] }
crossterm = "=0.29.0"
getrandom = "=0.3.4"
glob = "=0.3.4"
hex = "=0.4.3"
hmac = "=0.12.1"
ipnet = "=2.12.2"
libc = "=0.2.191"
md5 = "=0.7.0"
rand = "=0.8.8"
ratatui = { version = "=0.29.0", default-features = false, features = ["crossterm"] }
rcgen = "=0.13.2"
reqwest = { version = "=0.12.28", default-features = false, features = ["rustls-tls"] }
rustls = { version = "=0.23.46", default-features = false, features = ["ring", "std", "tls12", "logging"] }
rustls-native-certs = "=0.8.5"
serde = { version = "=1.0.229", features = ["derive"] }
serde_json = "=1.0.154"
serde_yaml = "=0.9.34+deprecated"
sha2 = "=0.10.9"
sysinfo = { version = "=0.33.1", default-features = false, features = ["system"] }
time = { version = "=0.3.55", features = ["formatting", "local-offset"] }
tokio = { version = "=1.54.1", features = ["full"] }
tokio-rustls = { version = "=0.26.6", default-features = false, features = ["ring", "tls12", "logging"] }
tracing = "=0.1.44"
tracing-appender = "=0.2.5"
tracing-subscriber = { version = "=0.3.23", features = ["env-filter"] }
tun2proxy = "=0.7.21"
