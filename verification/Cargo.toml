[package]
name = "auth_core"
version = "0.1.0"
edition = "2021"
publish = false

[dependencies]
bcrypt = "*"
rand_chacha = "*"
rand_core = "*"
chrono = "*"
serde = { version = "*", features = ["derive"] }
envy = "*"
