[package]
name = "style_compiler"
version = "0.1.0"
edition = "2021"
publish = false

[dependencies]
indexmap = "2"
lightningcss = { version = "1.0.0-alpha.55", features = ["bundler", "visitor"] }
md-5 = "0.10"
napi = "2"
napi-derive = "2"
parcel_selectors = "*"
serde_json = "1"
smallvec = "1"

[dev-dependencies]
lazy-regex = "3"
