[package]
name = "hdfs_provider"
version = "0.1.0"
edition = "2021"
publish = false

[dependencies]
opendal = { version = "*", default-features = false, features = ["services-hdfs-native"] }
url = "*"
