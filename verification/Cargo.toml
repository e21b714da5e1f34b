[package]
name = "bsdos_metal_viewer"
version = "0.1.0"
edition = "2021"
publish = false

[dependencies]
lz4_flex = "0.11"
pico-args = "0.5"
tokio = { version = "1", features = ["rt-multi-thread", "macros", "sync", "time"] }
tracing-subscriber = { version = "0.3", features = ["env-filter"] }
zenoh = { version = "1", default-features = false, features = ["transport_tcp"] }
objc2 = "0.6"
objc2-app-kit = "0.3"
objc2-foundation = "0.3"
objc2-metal = "0.3"
objc2-metal-kit = "0.3"
objc2-core-foundation = "0.3"
objc2-core-graphics = "0.3"
block2 = "0.6"
