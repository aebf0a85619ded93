[package]
name = "geomage"
version = "0.1.0"
edition = "2021"
publish = false

[dependencies]
byteorder = "=1.5.0"
clap = "=4.6.7"
geo = "=0.33.1"
geojson = "=1.0.0"
image = "=0.25.10"
imageproc = "=0.27.0"
num-traits = "=0.2.19"
