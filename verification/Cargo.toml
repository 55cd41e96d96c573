[package]
name = "nordtui"
version = "0.1.0"
edition = "2021"

[dependencies]
rand = "0.8"
ratatui = "0.26"
crossterm = "0.27"
