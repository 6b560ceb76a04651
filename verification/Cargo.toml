[package]
name = "vm_relay"
version = "0.1.0"
edition = "2021"
publish = false

[dependencies]
fjall = "=3.1.13"
hex = "=0.4.3"
log = "=0.4.35"
rand = "=0.10.3"
reqwest = { version = "=0.12.28", default-features = false, features = ["rustls-tls-manual-roots-no-provider"] }
rustls = "=0.23.46"
serde = { version = "=1.0.229", features = ["derive"] }
sha2 = "=0.10.9"
tokio = { version = "=1.54.1", features = ["full"] }
toml = "=1.1.8"
webpki-roots = "=1.0.10"
widestring = "=1.2.1"
windows-service = "=0.8.1"
windows-sys = { version = "=0.59.0", features = ["Win32_Foundation", "Win32_Security", "Win32_Security_Cryptography", "Win32_Storage_FileSystem", "Win32_System_EventLog", "Win32_System_IO", "Win32_System_Pipes", "Win32_System_Registry"] }
winlog2 = "=0.3.2"
