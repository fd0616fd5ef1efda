[package]
name = "libcmbr"
version = "0.1.0"
edition = "2021"
publish = false

[dependencies]
shakmaty = "*"
pgn-lexer = "*"
litemap = "*"
memmap2 = "*"
bitcode = { version = "*", features = ["serde"] }
serde = { version = "*", features = ["derive"] }
lexopt = "*"
