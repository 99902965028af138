[package]
name = "zipread"
version = "0.1.0"
edition = "2021"
publish = false

[dependencies]
async-compression = { version = "*", features = ["futures-io", "deflate", "deflate64", "bzip2", "lzma", "xz", "zstd"] }
async-fn-stream = "*"
indexmap = "*"
smol = "*"
