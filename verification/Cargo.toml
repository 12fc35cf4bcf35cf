[package]
name = "rustconsole"
version = "0.1.0"
edition = "2021"
publish = false

[dependencies]
ash = "=0.38.0"
bytes = "1"
egui = { version = "0.33", default-features = false }
fontdue = "=0.9.5"
glow = "0.16"
gtk = "0.18"
keyring = "=4.2.0"
libc = "0.2"
opaque-ke = { version = "=4.0.1", features = ["argon2"] }
prost = "=0.14.4"
quinn = { version = "=0.11.12", default-features = false, features = ["runtime-tokio", "rustls-ring"] }
rand = { version = "=0.8.8", default-features = false, features = ["getrandom"] }
rcgen = "=0.14.10"
rustls = { version = "=0.23.46", default-features = false, features = ["ring", "std"] }
sdl3 = "=0.22.0"
sha2 = "=0.10.9"
tokio = { version = "=1.54.1", features = ["io-util", "macros", "net", "rt-multi-thread", "sync", "time"] }
zeroize = "=1.9.1"

[dev-dependencies]
rand_chacha = "0.3"
