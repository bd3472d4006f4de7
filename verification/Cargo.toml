[package]
name = "openvpn_flutter_rust"
version = "0.1.0"
edition = "2021"
publish = false

[dependencies]
chrono = { version = "0.4", default-features = false, features = ["alloc"] }
rand = "0.8"
thiserror = "1"
tokio = { version = "1", features = ["rt-multi-thread", "net", "io-util", "sync", "time", "process"] }
windows-sys = { version = "0.59", features = ["Win32_Foundation", "Win32_Storage_FileSystem", "Win32_System_Pipes", "Win32_Security"] }
