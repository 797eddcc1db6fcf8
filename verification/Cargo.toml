[package]
name = "krystallos"
version = "0.1.0"
edition = "2021"
publish = false

[dependencies]
humantime = "2"
libc = "0.2"
async-trait = "0.1"
clap = { version = "4", features = ["derive", "env"] }
tokio = { version = "1", features = ["rt", "rt-multi-thread", "sync"] }
thiserror = "2"
uniffi = { version = "*", features = ["tokio"] }
windows-sys = { version = "*", features = ["Win32_Networking_WinSock"] }
