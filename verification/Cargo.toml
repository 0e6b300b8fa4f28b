[package]
name = "waveform_fanout"
version = "0.1.0"
edition = "2021"
publish = false

[dependencies]
embassy-sync = "=0.8.0"
critical-section = { version = "=1.2.0", features = ["std"] }
embassy-executor = { version = "=0.9.1", features = ["arch-std", "executor-thread"] }
embassy-futures = "=0.1.2"
embassy-time = "=0.5.1"
embassy-usb = "=0.6.0"
embassy-usb-logger = "=0.6.0"
log = "=0.4.34"
panic-probe = "=1.0.0"
defmt-rtt = "=1.3.1"
pio-proc = "=0.2.2"
pio = "0.2"
static_cell = "=2.1.1"
