[package]
name = "sysmaster"
version = "0.1.0"
edition = "2021"
publish = false

[dependencies]
nix = "0.24"
libc = "0.2"
prost = "0.9"
bitflags = "1.3"
confique = "0.1"
log = "0.4"
serde = { version = "1", features = ["derive"] }
serde_derive = "1"
toml = "0.5"
