[package]
name = "insights"
version = "0.1.0"
edition = "2021"
publish = false

[dependencies]
steamid-ng = "1"
regex = "1"
itertools = "0.12"
tf-demo-parser = "0.5"
serde = { version = "1", features = ["derive"] }
serde_json = "1"
reqwest = { version = "0.12", default-features = false, features = ["json", "rustls-tls"] }
tokio = { version = "1", features = ["macros", "rt-multi-thread", "fs", "time"] }
sqlx = { version = "0.7", default-features = false, features = ["postgres", "runtime-tokio", "macros", "chrono"] }
pico-args = "*"
chrono = { version = "0.4", default-features = false, features = ["std", "now"] }
dotenv = "*"
home = "*"
async-trait = "*"
futures = "*"
tracing = "*"
tracing-subscriber = "*"
cached = { version = "*", default-features = false, features = ["proc_macro", "async"] }
snafu = "0.7"
aws_lambda_events = { version = "*", default-features = false, features = ["sqs"] }
lambda_http = "*"
lambda_runtime = "*"
