[package]
name = "kloop_resolver"
version = "0.1.0"
edition = "2021"
publish = false

[dependencies]
trust-dns-resolver = "=0.20.4"
trust-dns-proto = "=0.20.4"
futures-executor = "=0.3.34"
futures-util = "=0.3.34"
futures-io = "=0.3.34"
async-trait = "=0.1.92"
libc = "=0.2.190"
resolv-conf = "=0.7.6"
