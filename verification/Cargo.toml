[package]
name = "xzardgz"
version = "0.1.0"
edition = "2021"
publish = false

[dependencies]
async-trait = "*"
chrono = { version = "*", features = ["serde"] }
clap = { version = "*", features = ["derive"] }
futures = "*"
git2 = "*"
handlebars = "*"
ignore = "*"
keyring = "*"
oauth2 = "4"
rdkafka = "*"
reqwest = { version = "*", default-features = false, features = ["json"] }
serde = { version = "*", features = ["derive"] }
serde_json = "*"
serde_yaml = "*"
thiserror = "*"
tokio = { version = "*", features = ["full"] }
tracing = "*"
tracing-subscriber = "*"
