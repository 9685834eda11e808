[package]
name = "escale_core"
version = "0.1.0"
edition = "2021"
publish = false

[dependencies]
alloc-cortex-m = "=0.4.4"
cortex-m = "=0.7.9"
cortex-m-rt = "=0.7.7"
embedded-hal = "=0.2.7"
fugit = "=0.3.9"
libm = "=0.2.16"
nau7802 = "=0.1.0-alpha"
num-traits = "=0.2.19"
panic-probe = "=0.3.2"
rp-pico = "=0.8.0"
rp2040-flash = "=0.5.2"
ssd1306 = "=0.8.4"
