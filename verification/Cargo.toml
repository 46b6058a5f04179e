[package]
name = "dsr_save"
version = "0.1.0"
edition = "2021"
publish = false

[dependencies]
aes = "=0.8.4"
cbc = "=0.1.2"
inquire = "=0.7.5"
md5 = "=0.7.0"

[dev-dependencies]
byteorder = "=1.5.0"
