[package]
name = "pc_usage_monitor"
version = "0.1.0"
edition = "2021"
publish = false

[dependencies]
postcard-rpc = { version = "=0.11.15", features = ["use-std", "embassy-usb-0_4-server"] }
postcard-schema = { version = "=0.2.5", features = ["derive"] }
serde = { version = "=1.0.229", features = ["derive"] }
poststation-sdk = "=0.4.1"
sysinfo = "=0.39.6"
tokio = { version = "=1.54.1", features = ["macros", "rt-multi-thread", "process", "signal", "time"] }
dotenv = "=0.15.0"
env_logger = "=0.11.11"
log = "=0.4.34"
embassy-executor = { version = "=0.7.0", features = ["arch-std", "executor-thread"] }
embassy-time = "=0.4.0"
embassy-rp = { version = "=0.4.0", features = ["rp235xa", "_test", "binary-info"] }
embassy-sync = "=0.6.2"
embassy-usb = "=0.4.0"
embassy-embedded-hal = "=0.3.2"
embedded-graphics = "=0.8.1"
ssd1306 = { version = "=0.10.0", features = ["async"] }
static_cell = "=2.1.1"
tinybmp = "=0.7.0"
defmt-rtt = "=1.3.1"
panic-probe = "=1.0.0"
