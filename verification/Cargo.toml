[package]
name = "axpxx"
version = "0.1.0"
edition = "2021"
publish = false

[dependencies]
display-interface-spi = "0.4"
embedded-graphics = "0.7"
embedded-hal = "0.2"
esp-idf-hal = "0.38"
esp-idf-sys = "0.31"
st7789 = "0.6"
