[package]
name = "dbus_proxy"
version = "0.1.0"
edition = "2021"
publish = false

[dependencies]
async-broadcast = "*"
event-listener = "*"
futures-core = "*"
futures-util = "*"
once_cell = "*"
serde = "*"
slotmap = "*"
zbus_names = "*"
zvariant = "*"
