[package]
name = "gpugen"
version = "0.1.0"
edition = "2021"
publish = false

[dependencies]
async-mutex = "1"
bytemuck = "1"
easy-parallel = "3"
env_logger = "0.11"
flume = "0.11"
log = "0.4"
smol = "2"
wgpu = "0.20"
