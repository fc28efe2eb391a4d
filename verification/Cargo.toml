[package]
name = "rrd_migration"
version = "0.1.0"
edition = "2021"
publish = false

[dependencies]
anyhow = "1"
pico-args = "0.5"
