[package]
name = "lint_session"
version = "0.1.0"
edition = "2021"
publish = false

[dependencies]
deno_lint = "=0.73.1"
deno_ast = "=0.45.1"
deno_media_type = "=0.2.1"
serde = { version = "=1.0.219", features = ["derive"] }
serde_json = "=1.0.140"
log = "0.4"
