[package]
name = "backstaff"
version = "0.1.0"
edition = "2021"
publish = false

[dependencies]
clap = "3.2"
hdf5 = "0.8"
ndarray = { version = "0.15", features = ["serde"] }
num = "0.4"
paste = "1"
rayon = "1"
serde = { version = "1", features = ["derive"] }
serde_json = "1"
serde-pickle = "1"
