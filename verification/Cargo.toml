[package]
name = "contact_core"
version = "0.1.0"
edition = "2021"
publish = false

[dependencies]
cortex-m = "0.7"
cortex-m-rt = "0.7"
critical-section = "1"
defmt = "0.3"
defmt-rtt = "0.4"
embedded-hal = "1.0"
rp2040-boot2 = "0.3"
rp2040-hal = { version = "0.10", features = ["rt", "critical-section-impl"] }
