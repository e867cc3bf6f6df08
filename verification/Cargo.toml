[package]
name = "fireflydroid"
version = "0.1.0"
edition = "2021"
publish = false

[dependencies]
embedded-graphics = "=0.8.2"
firefly-types = "0.11"
kaolin = "=0.1.15"
macroquad = "=0.4.16"
miniserde = "=0.1.46"
ureq = { version = "=3.5.0", default-features = false, features = ["rustls"] }
wasmi = { version = "=2.0.0", default-features = false, features = ["std", "validate"] }
zip = { version = "=9.0.5", default-features = false, features = ["deflate"] }
