[package]
name = "richie_rich"
version = "0.1.0"
edition = "2021"
publish = false

[dependencies]
secret-toolkit = { version = "=0.10.3", features = ["crypto", "permit", "viewing-key"] }
secret-cosmwasm-std = "=1.1.11"
secret-cosmwasm-storage = "=1.1.11"
schemars = "=0.8.22"
serde = { version = "=1.0.229", features = ["derive"] }
thiserror = "*"
