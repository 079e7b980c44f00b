[package]
name = "traccar_lib"
version = "0.1.0"
edition = "2021"
publish = false

[dependencies]
chrono = { version = "0.4", features = ["serde"] }
clap = { version = "4", features = ["derive"] }
ctrlc = "3"
dirs = "6"
duration-human = "*"
futures = "0.3"
geo = "*"
native-tls = "0.2"
notify-rust = "4"
owo-colors = "4"
reqwest = { version = "0.12", features = ["json"] }
rpassword = "7"
serde = { version = "1", features = ["derive"] }
serde_json = "1"
thiserror = "2"
tokio = { version = "1", features = ["full"] }
tokio-tungstenite = { version = "*", features = ["native-tls"] }
tokio-util = "0.7"
wkt = { version = "*", features = ["serde"] }
zbus = { version = "5", default-features = false, features = ["tokio"] }
