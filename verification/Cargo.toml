[package]
name = "fluent_value"
version = "0.1.0"
edition = "2021"
publish = false

[dependencies]
fluent-locale = "=0.4.1"
intl_pluralrules = "=1.0.3"
