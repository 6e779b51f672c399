[package]
name = "cio"
version = "0.1.0"
edition = "2021"
publish = false

[dependencies]
airtable-api = "*"
clap = "2"
csv = "1"
gsuite-api = "*"
hubcaps = "*"
log = "0.4"
okta = "*"
reqwest = { version = "0.11", features = ["blocking", "json"] }
serde = { version = "1", features = ["derive"] }
serde_json = "1"
slack-chat-api = "*"
tokio = { version = "1", features = ["rt", "rt-multi-thread"] }
toml = "0.5"
yup-oauth2 = "*"
