[package]
name = "epd_photoframe_server"
version = "0.1.0"
edition = "2021"
publish = false

[dependencies]
ab_glyph = "0.2"
anyhow = "1"
async-trait = "0.1"
axum = "0.8"
chrono = "0.4"
chrono-tz = "0.10"
cron = "0.15"
cron-lingo = "*"
futures = "0.3"
humantime = "2"
iana-time-zone = "0.1"
icu_calendar = "2"
icu_datetime = "2"
icu_locale_core = "2"
image = { version = "0.25", default-features = false, features = ["jpeg", "png"] }
rand = "0.9"
reqwest = { version = "0.12", default-features = false, features = ["rustls-tls"] }
rumqttc = { version = "0.24", default-features = false }
serde = { version = "1", features = ["derive"] }
serde_json = "1"
taffy = "0.9"
time = "0.3"
tiny-skia = "0.11"
tokio = { version = "1", features = ["macros", "net", "rt-multi-thread", "sync", "time"] }
toml = "0.9"
tracing = "0.1"
tracing-subscriber = { version = "0.3", features = ["env-filter"] }
