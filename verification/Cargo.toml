[package]
name = "bpe_tokenizer"
version = "0.1.0"
edition = "2021"
publish = false

[dependencies]
bincode = "1.3"
lz4_flex = "0.11"
thiserror = "1"
unicode-segmentation = "1"
