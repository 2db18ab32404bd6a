[package]
name = "jasmine"
version = "0.1.0"
edition = "2021"
publish = false

[dependencies]
chrono = "=0.4.45"
chrono-tz = "=0.10.4"
iana-time-zone = "=0.1.65"
indexmap = "=2.14.2"
ndarray = "=0.16.1"
regex = "=1.13.1"
polars = { version = "=0.46.0", default-features = false, features = ["fmt", "dtype-date", "dtype-datetime", "dtype-duration", "dtype-time", "dtype-categorical", "dtype-i8", "dtype-i16", "dtype-u8", "dtype-u16", "ndarray", "round_series", "timezones", "temporal"] }
polars-arrow = "=0.46.0"
pyo3 = { version = "=0.23.5", features = ["abi3-py39", "chrono", "indexmap"] }
numpy = "=0.23.0"
pyo3-polars = { version = "=0.20.0", features = ["derive"] }
