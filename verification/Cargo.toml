[package]
name = "omni"
version = "0.1.0"
edition = "2021"
publish = false

[dependencies]
globset = "*"
sys_traits = { version = "*", features = ["real", "memory"] }
merge = "*"
garde = "*"
serde = { version = "*", features = ["derive"] }
schemars = "*"
derive_more = { version = "*", features = ["constructor"] }
eyre = "*"
serde_yml = "*"
