[package]
name = "juan_vivi"
version = "2.0.0"
edition = "2021"
publish = false

[dependencies]
regex = "1"
base64 = "0.22"
chrono = "0.4"
serde = { version = "1", features = ["derive"] }
serde_json = "1"
anyhow = "1"
calamine = "*"
rust_xlsxwriter = "*"
zip = { version = "*", default-features = false, features = ["deflate"] }
reqwest = { version = "0.12", default-features = false, features = ["json", "multipart", "cookies", "rustls-tls"] }
tokio = { version = "1", features = ["rt-multi-thread", "macros", "time", "sync"] }
dirs = "*"
image = { version = "*", default-features = false, features = ["png"] }
pdfium-render = "*"
once_cell = "1"
