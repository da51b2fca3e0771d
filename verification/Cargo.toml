[package]
name = "federated_gateway"
version = "0.1.0"
edition = "2021"
publish = false

[dependencies]
bigdecimal = "*"
uuid = { version = "*", features = ["v4"] }
actix-web = { version = "*", default-features = false, features = ["macros"] }
async-graphql = { version = "*", default-features = false, features = ["playground"] }
async-graphql-actix-web = "*"
dotenv = "*"
neo4rs = "*"
redis = { version = "*", features = ["tokio-comp"] }
serde = { version = "*", features = ["derive"] }
serde_json = "*"
tokio = { version = "*", features = ["macros", "rt-multi-thread"] }
