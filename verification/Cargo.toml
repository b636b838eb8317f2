[package]
name = "aspeed_rot"
version = "0.1.0"
edition = "2021"
publish = false

[dependencies]
cortex-m = "*"
cortex-m-rt = "*"
defmt = "*"
defmt-rtt = "*"
embassy-executor = "*"
embassy-sync = "*"
embassy-time = "*"
embedded-io = "*"
heapless = "*"
log = "*"
panic-halt = "*"
riscv-rt = "*"
static_cell = "*"
