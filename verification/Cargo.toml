[package]
name = "whatnull"
version = "0.1.0"
edition = "2021"
publish = false

[dependencies]
img-parts = "=0.3.3"
lopdf = { version = "=0.46.0", default-features = false }
open = "=5.4.5"
serde = { version = "=1.0.229", features = ["derive"] }
serde_json = "=1.0.154"
thiserror = "=2.0.21"
url = "=2.5.8"
webkit2gtk = "=2.0.2"
