[package]
name = "ghactions"
version = "0.1.0"
edition = "2021"
publish = false

[dependencies]
glob = "*"
flate2 = "*"
tar = "*"
zip = { version = "*", default-features = false, features = ["deflate"] }
http = "*"
reqwest = { version = "*", default-features = false }
tokio = { version = "*", default-features = false, features = ["fs", "io-util", "rt", "time"] }

[dev-dependencies]
tempfile = "*"
fs_extra = "*"
