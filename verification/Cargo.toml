[package]
name = "fpatch"
version = "0.1.0"
edition = "2021"
publish = false

[dependencies]
anyhow = "*"
clap = { version = "*", features = ["derive"] }
env_logger = "*"
fuser = "*"
libc = "*"
log = "*"
md5 = "*"
notify = "*"
once_cell = "*"
rustix = { version = "*", features = ["fs", "mount", "process", "thread"] }
serde = { version = "*", features = ["derive"] }
tokio = { version = "*", features = ["rt", "macros", "signal", "sync", "time", "process", "io-util"] }
toml = "*"
