[package]
name = "geode"
version = "0.1.0"
edition = "2021"
publish = false

[dependencies]
semver = "=1.0.28"
edit-distance = "=2.2.2"
sha256 = { version = "=1.6.0", default-features = false }
rand = "=0.8.8"
serde = { version = "=1.0.229", features = ["derive"] }
serde_json = "=1.0.154"
clap = { version = "=4.6.7", features = ["derive"] }
clap_complete = "=4.6.11"
clap_complete_nushell = "=4.6.2"
clap_mangen = "=0.3.3"
colored = "=2.2.0"
dirs = "=5.0.1"
cli-clipboard = "*"
zip = { version = "=0.6.6", default-features = false, features = ["deflate"] }
walkdir = "=2.5.0"
glob = "=0.3.4"
reqwest = { version = "=0.11.27", default-features = false, features = ["blocking", "json", "rustls-tls"] }
git2 = { version = "=0.18.3", default-features = false }
image = { version = "=0.24.9", default-features = false, features = ["png"] }
texture_packer = "=0.27.0"
fontdue = "=0.8.0"
plist = "=1.10.3"
minijinja = "=1.0.22"
dialoguer = "=0.11.0"
rustyline = "=12.0.0"
tempfile = "=3.27.0"
path-absolutize = "=3.1.1"
open = "=5.4.5"
sha3 = "=0.10.9"
hex = "=0.4.3"
