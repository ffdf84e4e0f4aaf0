[package]
name = "icmp_probe"
version = "0.1.0"
edition = "2021"
publish = false

[dependencies]
dns-lookup = "2"
clap = { version = "4", features = ["derive"] }
log = "0.4"
env_logger = "0.11"
windows = { version = "0.48", features = ["Win32_Foundation", "Win32_NetworkManagement_IpHelper"] }
win32-error = "*"
