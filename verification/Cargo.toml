[package]
name = "vintage"
version = "0.1.0"
edition = "2021"
publish = false

[dependencies]
bufstream = "=0.1.4"
camino = "=1.2.6"
convert_case = "=0.12.0"
filetime = "0.2"
form_urlencoded = "=1.2.2"
jiff = "0.2"
log = { version = "=0.4.34", features = ["kv"] }
matchit = "=0.8.6"
mio = { version = "=1.2.4", features = ["os-poll", "net"] }
thiserror = "=2.0.21"
threadpool = "=1.8.1"
