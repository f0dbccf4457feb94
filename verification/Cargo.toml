[package]
name = "snaprun"
version = "0.1.0"
edition = "2021"
publish = false

[dependencies]
anyhow = "1"
clap = { version = "4", features = ["derive"] }
colored = "*"
diff = "0.1"
env_logger = "*"
log = "0.4"
minijinja = { version = "*", features = ["loader"] }
pathdiff = "0.2"
serde = { version = "1", features = ["derive"] }
shlex = "1"
snapbox = "*"
thiserror = "*"
toml = "*"
wait-timeout = "0.2"
which = "*"
