[package]
name = "codex_tui"
version = "0.1.0"
edition = "2021"
publish = false

[dependencies]
shlex = "=1.3.0"
unicode-segmentation = "=1.13.3"
serde_json = { version = "=1.0.154", features = ["preserve_order"] }
regex-lite = "=0.1.9"
path-clean = "=1.0.1"
diffy = "=0.4.2"
textwrap = "=0.16.4"
crossterm = "=0.28.1"
image = { version = "0.25", default-features = false, features = ["png", "jpeg"] }
tui-input = "=0.11.1"
base64 = "=0.22.1"
clap = { version = "4", features = ["derive"] }
supports-color = "3"
