[package]
name = "edamame_posture"
version = "0.1.0"
edition = "2021"
publish = false

[dependencies]
base64 = "0.22"
clap = "4"
fs2 = "0.4"
dirs = "*"
sysinfo = "*"
daemonize = "*"
