[package]
name = "terminal_typer"
version = "0.1.0"
edition = "2021"
publish = false

[dependencies]
lipsum = "*"
crossterm = "*"
ratatui = "*"
