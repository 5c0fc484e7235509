[package]
name = "exemem_client_lib"
version = "0.1.0"
edition = "2021"
publish = false

[dependencies]
base64 = "*"
mime_guess = "*"
uuid = { version = "*", features = ["v4"] }
serde = { version = "*", features = ["derive"] }
serde_json = "*"
tokio = { version = "*", features = ["full"] }
reqwest = { version = "*", default-features = false, features = ["json"] }
notify = "*"
directories = "*"
