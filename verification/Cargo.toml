[package]
name = "cost_model"
version = "0.1.0"
edition = "2021"

[dependencies]
num-bigint = "0.4"
