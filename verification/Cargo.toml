[package]
name = "video_record"
version = "0.1.0"
edition = "2021"
publish = false

[dependencies]
chrono = "=0.4.45"
dirs = "=5.0.1"
log = "=0.4.34"
once_cell = "=1.21.4"
pretty_env_logger = "=0.5.0"
rspirv-reflect = "=0.9.0"
