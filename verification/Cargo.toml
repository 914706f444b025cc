[package]
name = "woxel"
version = "0.1.0"
edition = "2021"
publish = false

[dependencies]
bytemuck = { version = "1", features = ["derive"] }
cfg-if = "1"
console_error_panic_hook = "0.1"
egui = "0.33"
egui-wgpu = "0.33"
egui-winit = { version = "0.33", default-features = false }
glam = "0.30"
js-sys = "0.3"
once_cell = "1"
pollster = "0.4"
tracing = "0.1"
tracing-appender = "0.2"
tracing-subscriber = { version = "0.3", features = ["env-filter"] }
tracing-wasm = "0.2"
wasm-bindgen = "0.2"
web-sys = { version = "0.3", features = ["Document", "Window", "Element", "HtmlElement", "HtmlCanvasElement", "KeyboardEvent", "MouseEvent", "Event", "EventTarget", "console"] }
wgpu = "27"
winit = { version = "0.30", default-features = false, features = ["rwh_06", "x11"] }
