[package]
name = "schema_diff"
version = "0.1.0"
edition = "2021"
publish = false

[dependencies]
diff = "*"
rusqlite = { version = "*", features = ["bundled"] }
