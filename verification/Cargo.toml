[package]
name = "registry_proxy"
version = "0.1.0"
edition = "2021"
publish = false

[dependencies]
aws-config = "=1.13.0"
aws-sdk-ecr = { version = "=1.138.0", default-features = false, features = ["rt-tokio", "default-https-client"] }
aws-sdk-ecrpublic = { version = "=1.122.0", default-features = false, features = ["rt-tokio", "default-https-client"] }
aws-smithy-runtime-api = { version = "=1.19.2", features = ["client"] }
aws-smithy-types = "=1.9.1"
aws-types = "=1.7.0"
base64 = "=0.22.1"
futures = "=0.3.34"
oci-client = { version = "=0.15.0", default-features = false, features = ["rustls-tls"] }
serde = { version = "=1.0.229", features = ["derive"] }
serde_json = "=1.0.154"
size = { version = "=0.5.0", features = ["serde"] }
sqlx = { version = "=0.8.6", default-features = false, features = ["runtime-tokio", "sqlite"] }
thiserror = "=2.0.21"
tracing = "=0.1.44"
