[package]
name = "mallet"
version = "0.1.0"
edition = "2021"
publish = false

[dependencies]
ulid = { version = "1", features = ["serde"] }
blake3 = { version = "1", features = ["serde"] }
time = "0.3"
serde = { version = "1", features = ["derive"] }
postcard = { version = "1", features = ["use-std"] }
ron = "0.8"
redb = "2"
thiserror = "2"
color-eyre = "0.6"
clap = { version = "4", features = ["derive"] }
walkdir = "2"
notify = "6"
directories = "5"
itertools = "0.13"
strum = { version = "0.26", features = ["derive"] }
sled = "0.34"
