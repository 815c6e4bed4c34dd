[package]
name = "nannou"
version = "0.1.0"
edition = "2021"
publish = false

[dependencies]
petgraph = "=0.8.3"
hashbrown = "=0.17.1"
rusttype = "=0.9.3"
ttf-parser = "=0.15.2"
time_calc = "=0.14.0"
rosc = "=0.11.4"
daggy = "=0.9.0"
