[package]
name = "mdlvis"
version = "0.1.0"
edition = "2021"
publish = false

[dependencies]
byteorder = "1"
blp = "*"
bytemuck = { version = "1", features = ["derive"] }
serde = { version = "1", features = ["derive"] }
confy = "*"
nalgebra-glm = "*"
tokio = { version = "1", features = ["rt-multi-thread", "macros"] }
reqwest = { version = "0.12", default-features = false, features = ["rustls-tls"] }
