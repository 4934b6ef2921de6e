[package]
name = "gilt"
version = "0.1.0"
edition = "2021"
publish = false

[dependencies]
anstyle = "=1.0.14"
lru = "=0.12.5"
unicode-width = "=0.2.3"
terminal_size = "=0.4.4"
serde = "1"
serde_json = "1"
