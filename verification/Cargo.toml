[package]
name = "mamut_chess"
version = "0.1.0"
edition = "2021"
publish = false

[dependencies]
termion = "*"
run_script = "*"
