[package]
name = "signer"
version = "0.1.0"
edition = "2021"
publish = false

[dependencies]
optee-utee = { version = "=0.10.0", features = ["std"] }
optee-utee-sys = { version = "=0.10.0", features = ["std", "no_link"] }
optee-teec = { version = "=0.10.0" }
optee-teec-sys = { version = "=0.10.0", features = ["no_link"] }
