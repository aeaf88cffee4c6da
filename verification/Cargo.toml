[package]
name = "kidfile"
version = "0.1.0"
edition = "2021"
publish = false

[dependencies]
png = "0.17"
zune-inflate = "0.2"
tim2 = "*"
image = { version = "0.25", default-features = false, features = ["png", "jpeg", "bmp", "gif"] }
num_cpus = "1"
chrono = "0.4"
serde_json = "1"
directories = "*"
lexical-sort = "*"
