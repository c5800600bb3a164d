[package]
name = "git_commitizen"
version = "0.1.0"
edition = "2021"
publish = false

[dependencies]
git2 = { version = "=0.21.0", default-features = false }
promkit = { version = "=0.17.0", features = ["runtime", "terminal-session", "listbox", "text", "texteditor"] }
tempfile = "=3.27.0"
tokio = { version = "=1.54.1", features = ["macros", "rt-multi-thread"] }
