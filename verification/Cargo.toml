[package]
name = "daw_reaper"
version = "0.1.0"
edition = "2021"
publish = false

[dependencies]
reaper-medium = "=0.1.0"
reaper-low = "=0.1.0"
tokio = { version = "1", features = ["sync", "rt", "time", "macros", "signal"] }
tracing = "0.1"
tracing-subscriber = { version = "0.3", features = ["env-filter"] }
crossbeam-channel = "0.5"
enumflags2 = "0.7"
libloading = "0.8"
