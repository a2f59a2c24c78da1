[package]
name = "gtrends"
version = "0.1.0"
edition = "2021"
publish = false

[dependencies]
chrono = "=0.4.45"
thirtyfour = "=0.31.0"
undetected-chromedriver = "=0.1.2"
