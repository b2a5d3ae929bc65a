[package]
name = "diffmig"
version = "0.1.0"
edition = "2021"
publish = false

[dependencies]
clap = "=2.34.0"
# indicatif asks for console without its default features and does not
# build without them; naming console here switches them on.
console = "=0.16.6"
env_logger = "=0.9.3"
indicatif = "=0.16.2"
itertools = "=0.10.5"
log = "=0.4.34"
serde_json = "=1.0.154"
zip = { version = "=0.5.13", default-features = false, features = ["deflate"] }
