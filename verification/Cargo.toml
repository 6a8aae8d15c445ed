[package]
name = "etagged_file_response"
version = "0.1.0"
edition = "2021"
publish = false

[dependencies]
crc = "1"
mime_guess = "2"
rocket = "0.5"
rocket-etag-if-none-match = "*"
