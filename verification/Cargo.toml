[package]
name = "scientific_workflow"
version = "0.14.2"
edition = "2021"
publish = false

[dependencies]
sha2 = "=0.10.9"
serde = { version = "=1.0.229", features = ["derive"] }
serde_json = "=1.0.154"
thiserror = "=2.0.21"
fs2 = "=0.4.3"
libc = "0.2"
rayon = "1"
time = "0.3"
erased-serde = "0.4"
indicatif = "*"
console = "*"
crossterm = "*"
