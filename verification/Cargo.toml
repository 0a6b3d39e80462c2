[package]
name = "m87_client"
version = "0.1.0"
edition = "2021"
publish = false

[dependencies]
sha1 = "=0.10.7"
base64 = "=0.22.1"
serde = { version = "=1.0.229", features = ["derive"] }
serde_json = "=1.0.154"
dirs = "=7.0.0"
clap = { version = "=4.6.7", features = ["derive"] }
homedir = "=0.3.6"
tempfile = "=3.27.0"
filetime = "=0.2.29"
sysinfo = { version = "=0.40.1", default-features = false, features = ["system"] }
jsonwebtoken = "=9.3.1"
chrono = { version = "0.4", default-features = false, features = ["now"] }
