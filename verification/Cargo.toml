[package]
name = "remote_mux"
version = "0.1.0"
edition = "2021"
publish = false

[dependencies]
shell-escape = "*"
ssh2 = "*"
serde = { version = "*", features = ["derive"] }
serde_json = "*"
once_cell = "*"
which = "*"
