[package]
name = "pipeline_actions"
version = "0.1.0"
edition = "2021"
publish = false

[dependencies]
codespan-reporting = "0.11"
lsp-types = "0.94"
serde = { version = "1", features = ["derive"] }
serde_json = "1"
termcolor = "1"
