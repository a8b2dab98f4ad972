[package]
name = "fractal"
version = "0.1.0"
edition = "2021"
publish = false

[dependencies]
anyhow = "1"
chrono = "0.4"
ndarray = { version = "0.15", features = ["rayon"] }
notify = "4"
num-complex = "0.4"
num-traits = "0.2"
palette = "0.5"
paw = "1.0"
png = "0.16"
sdl2 = "0.34"
serde = { version = "1", features = ["derive"] }
structopt = { version = "0.3", features = ["paw"] }
toml = "0.5"
