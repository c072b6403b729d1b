[package]
name = "keepme"
version = "0.1.0"
edition = "2021"
publish = false

[dependencies]
jwt = "=0.16.0"
hmac = "=0.12.1"
sha2 = "=0.10.9"
ethkey = "=0.2.5"
rand = "=0.6.5"
hyper = "=0.10.16"
hyper-native-tls = "=0.3.0"
tokio-core = "=0.1.18"
futures = "=0.1.31"
serde = { version = "=1.0.229", features = ["derive"] }
serde_json = "=1.0.154"
pretty_env_logger = "=0.2.5"
unicase = "=1.4.2"
# Not called: holds the build helper at a version whose `Build::includes` the
# build script of openssl-sys (under hyper-native-tls, used by app/) needs.
cc = "=1.0.83"
