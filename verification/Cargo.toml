[package]
name = "steam_controller_x"
version = "0.1.3"
edition = "2021"
publish = false

[dependencies]
anyhow = "1"
axum = { version = "0.8", features = ["ws"] }
clap = { version = "4", features = ["derive"] }
ctrlc = "3"
directories = "6"
hidapi = { version = "2.6", default-features = false, features = ["linux-native-basic-udev"] }
libc = "0.2"
serde = { version = "1", features = ["derive"] }
serde_json = "1"
thiserror = "2"
tokio = { version = "1", features = ["rt-multi-thread", "net", "sync", "macros"] }
toml = "0.8"
tracing = "0.1"
tracing-subscriber = { version = "0.3", features = ["env-filter"] }
uinput = "0.1"
vigem-client = "0.1"
