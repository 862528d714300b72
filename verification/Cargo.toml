[package]
name = "agent_seat_linux"
version = "1.0.0"
edition = "2021"
publish = false

[dependencies]
image = { version = "0.25", default-features = false }
libc = "0.2"
polling = "3"
smallvec = "1"
thiserror = "2"
uuid = { version = "1", features = ["v4"] }
wayland-backend = "0.3"
wayland-client = "0.31"
wayland-protocols = { version = "0.32", features = ["client", "staging", "unstable"] }
xkbcommon = { version = "0.8", default-features = false }
