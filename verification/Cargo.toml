[package]
name = "typst_preview"
version = "0.1.0"
edition = "2021"
publish = false

[dependencies]
base64 = "=0.21.7"
chrono = "=0.4.45"
clap = { version = "=4.6.7", features = ["derive"] }
codespan-reporting = "=0.11.1"
comemo = "=0.4.0"
dirs = "=5.0.1"
elsa = "=1.11.2"
env_logger = "=0.10.2"
futures = "=0.3.34"
log = "=0.4.34"
memmap2 = "=0.5.10"
notify = "=5.2.0"
once_cell = "=1.21.4"
open = "=4.2.0"
same-file = "=1.0.6"
siphasher = "=0.3.11"
termcolor = "=1.4.1"
tiny-skia = "=0.8.4"
tokio = { version = "=1.53.2", features = ["rt-multi-thread", "macros", "net", "sync", "time"] }
tokio-tungstenite = "=0.18.0"
typst = "=0.13.1"
typst-library = "=0.13.1"
typst-render = "=0.13.1"
walkdir = "=2.5.0"
