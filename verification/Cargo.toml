[package]
name = "ar5iv"
version = "0.1.0"
edition = "2021"
publish = false

[dependencies]
crossbeam = "=0.8.5"
rand = "=0.8.8"
regex = "=1.13.1"
lazy_static = "=1.5.1"
redis = "=0.23.3"
rocket = "=0.5.2"
rocket_db_pools = { version = "=0.1.0", features = ["deadpool_redis"] }
rocket_dyn_templates = { version = "=0.1.0", features = ["tera"] }
walkdir = "=2.5.0"
zip = { version = "=0.6.6", default-features = false, features = ["deflate"] }
