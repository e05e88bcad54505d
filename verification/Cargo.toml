[package]
name = "scanproto"
version = "0.1.0"
edition = "2021"
publish = false

[dependencies]
smallvec = "1"
array2d = "0.3"
tokio = { version = "1", features = ["net", "rt-multi-thread", "io-util", "time", "macros", "sync"] }
