[package]
name = "xmake_analysis"
version = "0.1.0"
edition = "2021"
publish = false

[dependencies]
emmylua_parser = "*"
rowan = "*"
tokio = { version = "*", features = ["macros", "process", "rt-multi-thread", "time"] }
