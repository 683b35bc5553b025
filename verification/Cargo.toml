[package]
name = "bapple"
version = "0.1.0"
edition = "2021"
publish = false

[dependencies]
clap = { version = "4", features = ["derive", "cargo"] }
ctrlc = "3"
rodio = "0.21"
ron = "*"
serde = { version = "1", features = ["derive"] }
tar = "0.4"
winapi = { version = "0.3", features = ["consoleapi", "handleapi", "processenv", "winbase", "wincon"] }
zstd = "0.13"
