[package]
name = "litex_panel"
version = "0.1.0"
edition = "2021"
publish = false

[dependencies]
arrayvec = "=0.7.8"
numtoa = "=0.2.4"
oorandom = "=11.1.5"
embedded-hal = "=0.2.7"
embedded-graphics = "=0.6.2"
display-interface = "=0.4.1"
display-interface-spi = "=0.4.1"
ssd1331 = "=0.2.3"
st7789 = "=0.5.0"
nb = "=1.1.0"
riscv = "=0.16.1"
riscv-rt = "=0.18.0"
panic-halt = "=0.2.0"
litex-hal = { version = "=0.2.0", features = ["gpio"] }
