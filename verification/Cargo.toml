[package]
name = "cosmos_gateway"
version = "0.1.0"
edition = "2021"
publish = false

[dependencies]
base64 = "=0.21.7"
chrono = { version = "=0.4.45", default-features = false, features = ["std"] }
clap = { version = "=4.6.7", default-features = false, features = ["derive", "error-context", "help", "std", "usage"] }
futures = "=0.3.34"
penumbra-sdk-proto = { version = "=2.1.1", default-features = false, features = ["rpc"] }
penumbra-sdk-stake = { version = "=2.1.1", default-features = false }
tonic = { version = "=0.12.3", features = ["tls", "tls-native-roots"] }
