[package]
name = "suspend_storage"
version = "0.1.0"
edition = "2021"
publish = false

[dependencies]
kvm-ioctls = "=0.24.0"
kvm-bindings = { version = "=0.14.2", features = ["fam-wrappers", "serde"] }
io-uring = "=0.7.15"
libc = "=0.2.191"

[dev-dependencies]
zerocopy = "=0.8.63"
