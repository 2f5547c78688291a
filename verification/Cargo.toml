[package]
name = "spi_console"
version = "0.1.0"
edition = "2021"
publish = false

[dependencies]
byte = "0.2"
chrono = "0.4"
hex = "0.4"
linux-embedded-hal = "0.3"
once_cell = "1"
rand = "0.7"
rand_distr = "0.2"
spmc = "0.3"
termion = "1.5"
time = "0.2"
tui = "0.9"
