[package]
name = "tie_api_server"
version = "0.1.0"
edition = "2021"
publish = false

[dependencies]
actix-cors = "=0.7.2"
actix-files = "=0.6.10"
actix-governor = "=0.5.0"
actix-multipart = { version = "=0.7.2", default-features = false }
actix-web = { version = "=4.18.1", default-features = false, features = ["macros"] }
chrono = { version = "=0.4.45", default-features = false, features = ["clock", "std", "serde"] }
dashmap = "=5.5.3"
env_logger = { version = "=0.11.11", default-features = false }
futures = "=0.3.34"
get_if_addrs = "=0.5.3"
log = "=0.4.35"
mime = "=0.3.17"
rand = "=0.8.8"
reqwest = { version = "=0.12.28", default-features = false, features = ["json", "multipart", "stream"] }
rusqlite = { version = "=0.31.0", features = ["bundled"] }
serde = { version = "=1.0.229", features = ["derive"] }
serde_json = "=1.0.154"
sha1 = "=0.10.7"
thiserror = "=1.0.69"
tokio = { version = "=1.54.1", features = ["full"] }
utoipa = { version = "=5.5.0", features = ["actix_extras", "uuid", "chrono"] }
utoipa-swagger-ui = { version = "9", features = ["actix-web", "vendored"] }
uuid = { version = "=1.29.0", features = ["v4", "serde"] }
zip = { version = "=2.6.1", default-features = false, features = ["deflate"] }
