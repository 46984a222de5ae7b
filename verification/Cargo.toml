[package]
name = "acl_engine"
version = "0.1.0"
edition = "2021"
publish = false

[dependencies]
urlpattern = "*"
url = "*"
regex = "*"
serde = { version = "*", features = ["derive"] }
serde_json = "*"
toml = "*"
clap = { version = "*", features = ["derive"] }
thiserror = "*"
anyhow = "*"
plist = "*"
sublime_fuzzy = "*"
proc-macro2 = "*"
quote = "*"
syn = { version = "*", features = ["full"] }
