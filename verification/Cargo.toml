[package]
name = "zbus_core"
version = "0.1.0"
edition = "2021"
publish = false

[dependencies]
async-io = "=2.6.0"
async-trait = "=0.1.92"
byteorder = "=1.5.0"
derivative = "=2.2.0"
enumflags2 = { version = "=0.7.12", features = ["serde"] }
event-listener = "=5.4.2"
futures-core = "=0.3.34"
futures-util = "=0.3.34"
once_cell = "=1.21.4"
serde = { version = "=1.0.229", features = ["derive"] }
serde_repr = "=0.1.21"
static_assertions = "=1.1.0"
syn = { version = "=2.0.119", features = ["full"] }
tracing = "=0.1.44"
zbus_names = "=4.3.5"
