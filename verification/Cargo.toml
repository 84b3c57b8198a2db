[package]
name = "waybar_modules"
version = "0.1.0"
edition = "2021"
publish = false

[dependencies]
regex = "1"
sysinfo = "0.35"
serde = { version = "1", features = ["derive"] }
serde_jsonc = "1"
thiserror = "2"
gtk = "0.18"
libc = "0.2"
num_cpus = "1"
log = "0.4"
simplelog = "0.12"
reqwest = { version = "0.12", features = ["blocking"] }
