[package]
name = "pulsedcm"
version = "0.1.0"
edition = "2021"
publish = false

[dependencies]
dicom-core = "=0.10.0"
dicom-object = "=0.10.0"
dicom-dictionary-std = "=0.10.0"
dicom-pixeldata = { version = "=0.10.0", features = ["image"] }
rayon = "=1.12.0"
csv = "=1.4.0"
clap = { version = "=4.6.7", features = ["derive"] }
serde = { version = "*", features = ["derive"] }
walkdir = "*"
tempfile = "*"
image = "*"
