[package]
name = "picture_vault"
version = "0.1.0"
edition = "2021"
publish = false

[dependencies]
base64 = "0.10"
rand = "0.6"
time = "0.1"
chrono = "0.4"
two-lock-queue = "0.1"
quick-xml = "0.36"
actix-web = "4"
actix-form-data = "0.6"
mysql = "25"
futures = "0.3"
fs_extra = "1"
mime = "0.3"
http = "0.2"
num_cpus = "1"
lazy_static = "1"
log = "0.4"
simple-logging = "2"
serde = "1"
serde_derive = "1"
image = { version = "0.25", default-features = false, features = ["jpeg", "png"] }
reqwest = { version = "0.12", default-features = false, features = ["blocking"] }
rexiv2 = "0.10"
openssl = "0.10"
