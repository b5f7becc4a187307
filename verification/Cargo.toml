[package]
name = "lazy_mcts"
version = "0.1.0"
edition = "2021"
publish = false

[dependencies]
dashmap = "5"
rand = "0.8"
