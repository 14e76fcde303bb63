[package]
name = "kanban_sim"
version = "0.1.0"
edition = "2021"
publish = false

[dependencies]
rand = "0.8"
actix = "0.13"
chrono = "0.4"
crossterm = "0.27"
