[package]
name = "dicom_props"
version = "0.1.0"
edition = "2021"
publish = false

[dependencies]
dicom-core = "=0.5.4"
dicom-dictionary-std = "=0.5.0"
dicom-object = "=0.5.4"
serde_json = "=1.0.154"
