[package]
name = "himalaya"
version = "0.1.0"
edition = "2021"
publish = false

[dependencies]
anyhow = "=1.0.104"
clap = { version = "=4.6.7", features = ["derive"] }
comfy-table = "=7.2.2"
dirs = "=6.0.0"
io-email = "=0.1.0"
io-imap = "=0.1.0"
io-jmap = "=0.6.0"
io-maildir = "=0.3.1"
io-process = "=0.0.2"
io-smtp = "=0.1.0"
log = "=0.4.35"
mail-parser = "=0.11.9"
pimalaya-cli = "=0.2.6"
pimalaya-config = "=0.2.1"
pimalaya-stream = "=0.0.1"
pimalaya-toolbox = "=0.0.4"
secrecy = "=0.10.3"
serde = { version = "=1.0.229", features = ["derive"] }
shellexpand = "=3.1.2"
url = "=2.5.8"
