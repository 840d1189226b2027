[package]
name = "whp_vmm"
version = "0.1.0"
edition = "2021"
publish = false

[dependencies]
crossbeam-channel = "0.5"
log = "0.4"
vm-memory = { version = "0.16", features = ["backend-mmap"] }
windows = { version = "0.58", features = ["Win32_Foundation", "Win32_Security", "Win32_System_Hypervisor", "Win32_System_Threading"] }
