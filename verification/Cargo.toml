[package]
name = "lclhst"
version = "0.1.0"
edition = "2021"
publish = false

[dependencies]
anyhow = "1"
bytes = "1"
clap = { version = "4", default-features = false, features = ["derive", "help", "std", "usage"] }
fast_qr = "=0.14.0"
futures-util = { version = "0.3", default-features = false, features = ["std"] }
http-body-util = "0.1"
hyper = { version = "=1.12.0", features = ["client", "http1", "server"] }
hyper-util = { version = "0.1", features = ["tokio"] }
iroh = { version = "=1.4.1", default-features = false, features = ["tls-ring"] }
iroh-tickets = { version = "=1.0.0", default-features = false }
mime_guess = { version = "=2.0.5", default-features = false }
noq = { version = "=1.4.0", default-features = false }
percent-encoding = "=2.3.2"
rcgen = { version = "=0.14.10", features = ["x509-parser"] }
rustls = { version = "=0.23.46", default-features = false, features = ["ring", "std", "tls12"] }
simple-dns = "=0.13.0"
simple-mdns = { version = "=0.7.0", default-features = false, features = ["async-tokio"] }
time = "0.3"
tokio = { version = "1", features = ["fs", "io-util", "macros", "net", "rt-multi-thread", "signal", "sync", "time"] }
tokio-rustls = { version = "0.26", default-features = false, features = ["ring", "tls12"] }
tokio-util = { version = "0.7", features = ["io"] }
tracing = { version = "0.1", default-features = false, features = ["std"] }
tracing-subscriber = { version = "0.3", default-features = false, features = ["env-filter", "fmt"] }
