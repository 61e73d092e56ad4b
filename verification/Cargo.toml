[package]
name = "discogs_tagger"
version = "0.1.0"
edition = "2021"
publish = false

[dependencies]
reqwest = { version = "*", default-features = false, features = ["blocking"] }
serde_json = "*"
url = "*"
strsim = "*"
id3 = "*"
metaflac = "*"
walkdir = "*"
tungstenite = "*"
crossterm = "*"
webbrowser = "*"
tinyfiledialogs = "*"
