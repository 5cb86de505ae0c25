[package]
name = "uni_sync"
version = "0.1.0"
edition = "2021"
publish = false

[dependencies]
ctrlc = "=3.5.2"
hidapi = { version = "=2.6.7", default-features = false, features = ["linux-native-basic-udev"] }
notify = "=8.2.0"
serde = { version = "=1.0.229", features = ["derive"] }
serde_derive = "=1.0.229"
serde_json = "=1.0.151"
