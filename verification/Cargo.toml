[package]
name = "baremetalisp"
version = "0.1.0"
edition = "2021"
publish = false

[dependencies]
synctools = "*"
blisp = "*"
num-bigint = "*"
num-traits = "*"
memac = "*"
memalloc = "*"
arr_macro = "*"
libc = "*"
