[package]
name = "patina_mm"
version = "0.1.0"
edition = "2021"
publish = false

[dependencies]
linkme = "=0.3.37"
log = "=0.4.35"
patina_paging = { version = "=11.1.2", features = ["supervisor"] }
r-efi = "=5.3.0"
spin = "=0.10.1"
zerocopy = { version = "=0.8.63", features = ["derive"] }
