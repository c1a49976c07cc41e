[package]
name = "tun_easytier"
version = "0.1.0"
edition = "2021"
publish = false

[dependencies]
libc = "0.2"
smallvec = "1"
tokio = { version = "1", features = ["net", "rt", "sync"] }
delegate = "*"
log = "0.4"
windows-sys = { version = "0.59", features = ["Win32_Foundation", "Win32_System_Threading"] }
derive_more = { version = "*", features = ["deref", "deref_mut"] }
libloading = "0.8"
wintun = "0.5"
