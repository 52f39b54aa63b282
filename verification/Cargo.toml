[package]
name = "stargaze"
version = "0.1.0"
edition = "2021"
publish = false

[dependencies]
anyhow = "1"
clap = { version = "4", features = ["derive"] }
directories = "*"
evdev = "*"
ffmpeg-next = "*"
ffmpeg-sys-next = "*"
font8x8 = "*"
fontdue = "*"
gl = "*"
khronos-egl = { version = "*", features = ["dynamic"] }
libc = "0.2"
opus = "*"
postcard = { version = "1", features = ["use-std"] }
quinn = { version = "*", default-features = false, features = ["runtime-tokio", "rustls-ring"] }
rustls = { version = "0.23", default-features = false, features = ["ring", "std", "tls12", "logging"] }
sdl2 = "*"
serde = { version = "1", features = ["derive"] }
thiserror = "*"
tokio = { version = "1", features = ["full"] }
toml = "*"
tracing = "0.1"
tracing-subscriber = { version = "0.3", features = ["env-filter"] }
