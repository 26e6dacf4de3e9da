[package]
name = "lua_bind"
version = "0.1.0"
edition = "2021"
publish = false

[dependencies]
mlua = { version = "0.9", features = ["lua54", "vendored"] }
linkme = "0.3"
lazy_static = "1"
paste = "1"
thiserror = "1"

[dev-dependencies]
serde = "1"
serde_json = "1"
