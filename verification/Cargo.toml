[package]
name = "zine"
version = "0.1.0"
edition = "2021"
publish = false

[dependencies]
anyhow = "=1.0.104"
async-trait = "=0.1.92"
clap = { version = "=4.6.7", features = ["cargo"] }
fluent = "=0.16.1"
futures = "=0.3.34"
genkit = "=0.3.1"
hyper = { version = "=0.14.32", features = ["full"] }
hyper-tls = "=0.5.0"
hyper-tungstenite = "=0.9.0"
include_dir = "=0.7.4"
intl-memoizer = "=0.5.3"
lol_html = "=3.0.3"
minijinja = "=1.0.22"
once_cell = "=1.21.4"
parking_lot = "=0.12.5"
promptly = "=0.3.1"
pulldown-cmark = "=0.9.6"
rayon = "=1.12.0"
serde = { version = "=1.0.229", features = ["derive"] }
serde_json = "=1.0.154"
strip_markdown = "=0.2.0"
syntect = "=5.3.0"
tera = "=1.20.1"
thiserror = "=1.0.69"
time = { version = "=0.3.55", features = ["formatting", "parsing", "macros"] }
tokio = { version = "=1.54.1", features = ["full"] }
toml = "=0.7.8"
tower = { version = "=0.4.13", features = ["make"] }
tower-http = { version = "=0.4.4", features = ["fs"] }
walkdir = "=2.5.0"
