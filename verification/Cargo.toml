[package]
name = "chat_orchestrator"
version = "0.1.0"
edition = "2021"
publish = false

[dependencies]
uuid = { version = "=1.27.0", features = ["v4"] }
chrono = "=0.4.45"
chatgpt_rs = { version = "=1.2.3", features = ["streams"] }
anyhow = "=1.0.104"
crossterm = { version = "=0.27.0", features = ["event-stream"] }
futures = "*"
futures-util = "*"
ratatui = "=0.25.0"
serde = { version = "*", features = ["derive"] }
termimad = "=0.35.5"
textwrap = "=0.16.4"
tokio = { version = "*", features = ["macros", "rt-multi-thread", "sync"] }
toml = "*"
