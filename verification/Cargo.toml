[package]
name = "unin"
version = "0.1.0"
edition = "2021"
publish = false

[dependencies]
colored = "=3.1.1"
dialoguer = "=0.12.0"
duct = "=1.1.2"
git2 = { version = "=0.21.0", default-features = false }
indicatif = "=0.18.6"
libc = "=0.2.191"
num_cpus = "=1.17.0"
path-absolutize = "=4.0.1"
regex = "=1.13.1"
serde = { version = "=1.0.229", features = ["derive"] }
serde_json = "=1.0.154"
smallvec = "=1.16.5"
terminal_size = "=0.4.4"
unicode-segmentation = "=1.13.3"
unicode-truncate = "=3.0.0"
unicode-width = "=0.2.3"
