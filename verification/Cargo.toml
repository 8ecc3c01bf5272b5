[package]
name = "chlue"
version = "0.1.0"
edition = "2021"
publish = false

[dependencies]
huelib = "=0.9.0"
structopt = "=0.3.26"
termion = "=1.5.6"
thiserror = "=1.0.69"
