[package]
name = "symex"
version = "0.1.0"
edition = "2021"
publish = false

[dependencies]
armv6-m-instruction-parser = "=0.2.0"
object = "=0.40.0"
gimli = "=0.34.0"
regex = "=1.13.1"
disarmv7 = "*"
