[package]
name = "emojito"
version = "0.3.0"
edition = "2021"
publish = false

[dependencies]
emojis = "*"
icu_properties = "1"
icu_testdata = "1"
