[package]
name = "sn"
version = "0.13.0"
edition = "2021"
publish = false

[dependencies]
clap = { version = "=4.6.7", features = ["derive", "env", "string"] }
ctrlc = "=3.5.2"
directories = "=6.0.0"
fs4 = "=1.1.0"
is-terminal = "=0.4.17"
reqwest = { version = "=0.12.28", default-features = false, features = ["blocking", "json", "rustls-tls"] }
rpassword = "=7.5.4"
serde = { version = "=1.0.229", features = ["derive"] }
serde_json = "=1.0.154"
tempfile = "=3.27.0"
toml = "=1.1.8"
webbrowser = "=1.2.6"
