[package]
name = "spatial_bench_benchers"
version = "0.1.0"
edition = "2021"
publish = false

[dependencies]
kdtree = "=0.8.1"
kd-tree = "=0.6.2"
kiddo = "=6.3.0"
neighbourhood = "=0.2.0"
spade = "=2.15.1"
