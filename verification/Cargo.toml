[package]
name = "wwm_midi_player"
version = "1.0.0"
edition = "2021"
publish = false

[dependencies]
midly = "=0.5.3"
serde = { version = "=1.0.229", features = ["derive"] }
serde_json = "=1.0.154"
thiserror = "=2.0.21"
evdev = "=0.13.2"
clap = { version = "=4.6.7", features = ["derive"] }
rustysynth = "=1.3.8"
rodio = "=0.23.0"
ashpd = { version = "=0.13.13", features = ["global_shortcuts"] }
futures-util = "=0.3.34"
tokio = { version = "=1.54.1", features = ["rt"] }
cxx-qt = "=0.10.0"
cxx-qt-lib = "=0.10.0"
