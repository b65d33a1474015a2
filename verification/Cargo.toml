[package]
name = "wake_word"
version = "0.1.0"
edition = "2021"
publish = false

[dependencies]
isolang = { version = "=2.4.0", features = ["local_names"] }
chrono = "=0.4.45"
ctrlc = "=3.5.2"
dotenv = "=0.15.0"
dialoguer = { version = "=0.12.0", features = ["fuzzy-select"] }
