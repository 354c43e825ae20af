[package]
name = "proxy_provisioner"
version = "0.1.0"
edition = "2021"
publish = false

[dependencies]
actix-web = "4"
anyhow = "1"
chrono = "0.4"
dotenv = "0.15"
flexi_logger = "0.22"
log = "0.4"
rusqlite = "0.29"
structopt = "0.3"
