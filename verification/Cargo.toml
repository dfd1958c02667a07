[package]
name = "smtc_core"
version = "0.1.0"
edition = "2021"
publish = false

[dependencies]
chrono = "0.4"
md5 = "0.7"
tokio = { version = "1", features = ["rt-multi-thread", "sync", "macros", "time"] }
windows = { version = "0.52", features = ["Foundation", "Foundation_Collections", "Media", "Media_Control", "Storage_Streams", "System", "ApplicationModel", "Graphics_Imaging", "implement"] }
