[package]
name = "expectimax2048"
version = "0.1.0"
edition = "2021"
publish = false

[dependencies]
byteorder = "1"
futures = "0.1"
futures-cpupool = "0.1"
getch = "*"
getopts = "0.2"
