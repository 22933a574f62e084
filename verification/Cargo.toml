[package]
name = "gatedesk"
version = "0.1.0"
edition = "2021"
publish = false

[dependencies]
serde_json = "=1.0.154"
tiny_http = "=0.12.0"
reqwest = { version = "=0.12.28", default-features = false, features = ["blocking", "rustls-tls"] }
bytes = "=1.12.1"
image = { version = "=0.25.10", default-features = false, features = ["png", "ico"] }
tray-icon = "=0.19.3"
tao = "=0.30.8"
winapi = { version = "=0.3.9", features = ["winuser", "wingdi", "minwindef", "processthreadsapi", "handleapi", "winnt", "winbase"] }
core-foundation = "=0.10.1"
