[package]
name = "redbear_drivers"
version = "0.1.0"
edition = "2021"
publish = false

[dependencies]
fatfs = "=0.3.6"
fscommon = "=0.1.1"
rsext4 = "=0.8.1"
