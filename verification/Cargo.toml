[package]
name = "cmux_core"
version = "0.1.0"
edition = "2021"
publish = false

[dependencies]
heapless = "0.8"
log = "0.4"
embassy-sync = "0.7"
embassy-time = "0.5"
embassy-executor = { version = "0.9", features = ["arch-std", "executor-thread"] }
embassy-net = { version = "0.7", features = ["proto-ipv4", "medium-ip", "tcp", "dns"] }
embassy-net-ppp = "0.2"
embedded-io-async = "0.6"
embedded-hal-async = "1"
embedded-tls = { version = "0.17", default-features = false }
rand_core = "0.6"
static_cell = "2"
esp-hal = { version = "1", features = ["esp32", "unstable"] }
esp-rtos = { version = "*", features = ["esp32", "embassy"] }
esp-println = { version = "*", features = ["esp32", "log-04"] }
esp-backtrace = { version = "*", features = ["esp32", "println", "panic-handler"] }
esp-alloc = "*"
esp-bootloader-esp-idf = { version = "*", features = ["esp32"] }
