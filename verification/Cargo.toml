[package]
name = "osquery_client"
version = "0.1.0"
edition = "2021"
publish = false

[dependencies]
thrift = { version = "*", default-features = false }
