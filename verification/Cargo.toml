[package]
name = "zigbee_cluster_library"
version = "0.1.0"
edition = "2021"
publish = false

[dependencies]
heapless = "=0.8.0"
embedded-io = "=0.6.1"
log = "=0.4.35"
thiserror = "=2.0.21"
