[package]
name = "rfid_supply_chain"
version = "0.1.0"
edition = "2021"
publish = false

[dependencies]
base64 = "0.13"
byteorder = "1"
crc = "1.8"
openssl = "0.10"
serde = { version = "1", features = ["derive"] }
serde_json = "1"
sled = "0.34"
structopt = "0.3"
tokio = { version = "1", features = ["macros", "rt-multi-thread"] }
warp = "0.3"
reqwest = { version = "0.11", features = ["json"] }
config = "0.11"
