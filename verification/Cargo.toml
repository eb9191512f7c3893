[package]
name = "orbital"
version = "0.1.0"
edition = "2021"
publish = false

[dependencies]
rand = "=0.8.8"
crossbeam = "=0.8.5"
wasmtime = "=47.0.4"
rustface = "=0.1.7"
objc = "=0.2.7"
cocoa = "=0.27.0"
dispatch = "=0.2.0"
core-foundation = "=0.10.1"
makepad-render = "=0.2.0"
makepad-widget = "=0.1.0"
