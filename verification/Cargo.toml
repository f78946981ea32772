[package]
name = "pcre2"
version = "0.1.0"
edition = "2021"
publish = false

[dependencies]
pcre2-sys = "0.2"
thread_local = "1"
