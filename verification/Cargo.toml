[package]
name = "hover"
version = "0.1.0"
edition = "2021"
publish = false

[dependencies]
languageserver-types = "=0.45.0"
racer = "=2.0.14"
rls-analysis = "=0.18.3"
rls-span = "=0.5.4"
rls-vfs = "=0.8.0"
rustfmt-nightly = "=0.8.3"
url = "=1.7.2"
