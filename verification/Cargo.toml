[package]
name = "dotworld"
version = "0.1.0"
edition = "2021"
publish = false

[dependencies]
rand = "=0.10.3"
sha2 = "=0.11.0"
chrono = "=0.4.45"
rayon = "=1.12.0"

[dev-dependencies]
palette = "=0.7.7"
