[package]
name = "udppp"
version = "0.1.0"
edition = "2021"
publish = false

[dependencies]
chrono = "0.4"
getopts = "0.2"
log = "0.4"
mimalloc = "*"
net2 = "0.2"
num_cpus = "1"
proxy-protocol = "*"
simple_logger = "*"
tokio = { version = "1", features = ["macros", "net", "rt", "sync", "time"] }
udp_sas = "*"
